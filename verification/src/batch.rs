//! A run: every token is read before any die is thrown, then each
//! descriptor is thrown and its rolls are reduced.

use vstd::prelude::*;

use crate::aggregate::{reduce, summarizes, Aggregate, Summary};
use crate::dice::{draws_of, is_roll_of, Dice};
use crate::error::{ParseDieError, TokenFault};
use crate::notation::parse_token;
use crate::report::{line_of, summary_text};
use crate::source::{Draw, UniformSource};

verus! {

/// One throw: the dice, what they showed, and what the aggregate function
/// made of it.
#[derive(Clone, Debug, PartialEq, Eq)]
pub struct Report {
    pub dice: Dice,
    pub rolls: Vec<u32>,
    pub summary: Summary,
}

/// Whether `dice` is the descriptor that `token` denotes.
pub open spec fn denotes(token: Seq<char>, dice: Dice) -> bool {
    parse_token(token) == Ok::<(nat, nat), TokenFault>((dice.spec_count(), dice.spec_sides()))
}

/// Whether `tokens[at]` is the first token that denotes no descriptor.
pub open spec fn is_first_refused(tokens: Seq<String>, at: int) -> bool {
    &&& 0 <= at < tokens.len()
    &&& parse_token(tokens[at]@) is Err
    &&& forall|i: int| 0 <= i < at ==> parse_token(#[trigger] tokens[i]@) is Ok
}

/// Whether `error` reports the first token of `tokens` that denotes no
/// descriptor: it carries that token and says what is wrong with it.
pub open spec fn reports_first_refused(error: ParseDieError, tokens: Seq<String>) -> bool {
    exists|at: int|
        {
            &&& #[trigger] is_first_refused(tokens, at)
            &&& error.token() == tokens[at]@
            &&& parse_token(tokens[at]@) == Err::<(nat, nat), TokenFault>(error.fault())
        }
}

/// Whether `report` can come of throwing the dice that `token` denotes and
/// reducing the rolls with `selector`.
pub open spec fn is_report_of(
    report: Report,
    token: Seq<char>,
    selector: Option<Aggregate>,
) -> bool {
    &&& denotes(token, report.dice)
    &&& is_roll_of(report.rolls@, report.dice.spec_count(), report.dice.spec_sides())
    &&& summarizes(report.summary@, selector, report.rolls@)
}

/// The draws behind `reports`: those of the first throw, then those of the
/// second, and so on.
pub open spec fn draws_of_reports(reports: Seq<Report>) -> Seq<Draw>
    decreases reports.len(),
{
    if reports.len() == 0 {
        Seq::empty()
    } else {
        draws_of_reports(reports.drop_last()) + draws_of(
            reports.last().rolls@,
            reports.last().dice.spec_sides() as u32,
        )
    }
}

/// Reads every token, in order. The first token that denotes no descriptor
/// ends the reading, and its error is the result.
pub fn parse_all(tokens: &Vec<String>) -> (parsed: Result<Vec<Dice>, ParseDieError>)
    ensures
        match parsed {
            Ok(dice) => {
                &&& dice.len() == tokens.len()
                &&& forall|i: int| 0 <= i < dice.len() ==> denotes(tokens[i]@, #[trigger] dice[i])
            },
            Err(error) => reports_first_refused(error, tokens@),
        },
{
    let mut dice: Vec<Dice> = Vec::new();
    let mut i: usize = 0;
    while i < tokens.len()
        invariant
            i <= tokens.len(),
            dice.len() == i,
            forall|j: int| 0 <= j < i ==> denotes(tokens[j]@, #[trigger] dice[j]),
        decreases tokens.len() - i,
    {
        match Dice::from_str(tokens[i].as_str()) {
            Ok(next) => {
                dice.push(next);
            },
            Err(error) => {
                proof {
                    assert forall|j: int| 0 <= j < i implies parse_token(
                        #[trigger] tokens@[j]@,
                    ) is Ok by {
                        assert(denotes(tokens[j]@, dice[j]));
                    }
                    assert(is_first_refused(tokens@, i as int));
                }
                return Err(error);
            },
        }
        i = i + 1;
    }
    Ok(dice)
}

impl Dice {
    /// Throws the dice with numbers from `source` and reduces the rolls
    /// with `selector`. There is at least one roll, so every aggregate
    /// function has a result.
    pub fn throw_with<S: UniformSource>(
        &self,
        selector: Option<Aggregate>,
        source: &mut S,
    ) -> (thrown: (Vec<u32>, Summary))
        ensures
            is_roll_of(thrown.0@, self.spec_count(), self.spec_sides()),
            summarizes(thrown.1@, selector, thrown.0@),
            final(source).history() == old(source).history() + draws_of(
                thrown.0@,
                self.spec_sides() as u32,
            ),
    {
        let rolls = self.roll_with(source);
        proof {
            use_type_invariant(self);
        }
        let summary = reduce(selector, &rolls);
        (rolls, summary)
    }
}

impl Report {
    /// The line of output for this throw: the notation of the dice, a
    /// space, the text of the summary. A mean has no text, and so no line.
    pub fn line(&self) -> (line: Option<String>)
        ensures
            match line {
                Some(line) => summary_text(self.summary@) matches Some(text) && line@ == line_of(
                    self.dice.spec_notation(),
                    text,
                ),
                None => summary_text(self.summary@) is None,
            },
    {
        match self.summary.text() {
            Some(text) => {
                Some(self.dice.line(text.as_str()))
            },
            None => None,
        }
    }
}

/// Reads every token, then throws the dice of each with numbers from
/// `source` and reduces the rolls with `selector`. Where a token denotes
/// no descriptor, nothing is thrown: the source is left as it was, and the
/// error of the first such token is the result.
pub fn run<S: UniformSource>(
    tokens: &Vec<String>,
    selector: Option<Aggregate>,
    source: &mut S,
) -> (outcome: Result<Vec<Report>, ParseDieError>)
    ensures
        match outcome {
            Ok(reports) => {
                &&& reports.len() == tokens.len()
                &&& forall|i: int|
                    0 <= i < reports.len() ==> is_report_of(
                        #[trigger] reports[i],
                        tokens[i]@,
                        selector,
                    )
                &&& final(source).history() == old(source).history() + draws_of_reports(reports@)
            },
            Err(error) => {
                &&& reports_first_refused(error, tokens@)
                &&& final(source).history() == old(source).history()
            },
        },
{
    let dice = match parse_all(tokens) {
        Ok(dice) => dice,
        Err(error) => {
            return Err(error);
        },
    };
    let ghost before = source.history();
    let mut reports: Vec<Report> = Vec::new();
    let mut i: usize = 0;
    while i < dice.len()
        invariant
            i <= dice.len() == tokens.len(),
            reports.len() == i,
            forall|j: int| 0 <= j < dice.len() ==> denotes(tokens[j]@, #[trigger] dice[j]),
            forall|j: int| 0 <= j < i ==> is_report_of(#[trigger] reports[j], tokens[j]@, selector),
            source.history() == before + draws_of_reports(reports@),
        decreases dice.len() - i,
    {
        let ghost earlier = reports@;
        let next = dice[i];
        let (rolls, summary) = next.throw_with(selector, source);
        reports.push(Report { dice: next, rolls, summary });
        proof {
            assert(reports@.drop_last() =~= earlier);
        }
        i = i + 1;
    }
    Ok(reports)
}

} // verus!
