//! Output: the text of a summary, and the line that reports one throw.

use vstd::prelude::*;
use vstd::string::StringExecFns;

use crate::aggregate::{Summary, SummaryView};
use crate::decimal::{append_decimal, decimal_digits};
use crate::dice::Dice;

verus! {

/// The numerals of `rolls`, in order, with one space between neighbours.
pub open spec fn joined(rolls: Seq<u32>) -> Seq<char>
    decreases rolls.len(),
{
    if rolls.len() == 0 {
        Seq::empty()
    } else if rolls.len() == 1 {
        decimal_digits(rolls[0] as nat)
    } else {
        joined(rolls.drop_last()) + seq![' '] + decimal_digits(rolls.last() as nat)
    }
}

/// The text of a summary: the rolls joined by spaces, or the numeral of the
/// sum, the maximum or the minimum. A mean has none: it is a fraction, and
/// its text is a matter of floating point.
pub open spec fn summary_text(summary: SummaryView) -> Option<Seq<char>> {
    match summary {
        SummaryView::Rolls(rolls) => Some(joined(rolls)),
        SummaryView::Sum(total) => Some(decimal_digits(total)),
        SummaryView::Mean { .. } => None,
        SummaryView::Max(greatest) => Some(decimal_digits(greatest as nat)),
        SummaryView::Min(least) => Some(decimal_digits(least as nat)),
    }
}

/// The line that reports a throw: the notation of the dice, a space, the
/// text of the result.
pub open spec fn line_of(notation: Seq<char>, result: Seq<char>) -> Seq<char> {
    notation + seq![' '] + result
}

/// The numerals of `rolls`, in order, with one space between neighbours.
pub fn join_rolls(rolls: &Vec<u32>) -> (text: String)
    ensures
        text@ == joined(rolls@),
{
    let mut text = String::new();
    let mut i: usize = 0;
    while i < rolls.len()
        invariant
            i <= rolls.len(),
            text@ == joined(rolls@.take(i as int)),
        decreases rolls.len() - i,
    {
        proof {
            assert(rolls@.take(i + 1).drop_last() =~= rolls@.take(i as int));
            reveal_strlit(" ");
        }
        if i > 0 {
            text.append(" ");
        }
        append_decimal(&mut text, rolls[i] as u128);
        i = i + 1;
    }
    proof {
        assert(rolls@.take(i as int) =~= rolls@);
    }
    text
}

impl Summary {
    /// The text of the summary, where it has one: every summary but a mean.
    pub fn text(&self) -> (text: Option<String>)
        ensures
            match text {
                Some(text) => summary_text(self@) == Some(text@),
                None => summary_text(self@) is None,
            },
    {
        match self {
            Summary::Rolls(rolls) => Some(join_rolls(rolls)),
            Summary::Sum(total) => {
                let mut text = String::new();
                append_decimal(&mut text, *total);
                Some(text)
            },
            Summary::Mean { .. } => None,
            Summary::Max(greatest) => {
                let mut text = String::new();
                append_decimal(&mut text, *greatest as u128);
                Some(text)
            },
            Summary::Min(least) => {
                let mut text = String::new();
                append_decimal(&mut text, *least as u128);
                Some(text)
            },
        }
    }
}

impl Dice {
    /// The line that reports `result` as what these dice gave.
    pub fn line(&self, result: &str) -> (line: String)
        ensures
            line@ == line_of(self.spec_notation(), result@),
    {
        let mut line = self.to_string();
        proof {
            reveal_strlit(" ");
        }
        line.append(" ");
        line.append(result);
        line
    }
}

} // verus!
