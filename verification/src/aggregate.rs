//! Aggregate functions: their names, and what they make of a sequence of
//! rolls.

use vstd::prelude::*;
use vstd::string::StringExecFns;
use vstd::utf8::is_ascii_chars;

use crate::dice::{is_roll_of, valid_descriptor};
use crate::error::{AggregateError, ParseAggregateError};
use crate::text::chars_of;

verus! {

/// An aggregate function. Where none is chosen, the rolls stand as they are.
#[derive(Clone, Copy, Debug, PartialEq, Eq, Structural)]
pub enum Aggregate {
    Sum,
    Avg,
    Max,
    Min,
}

/// The upper-case form of a text, as `str::to_uppercase` gives it.
pub uninterp spec fn uppercase_of(text: Seq<char>) -> Seq<char>;

/// `str::to_uppercase`: the text with each character replaced by its
/// upper-case form in Unicode's sense. The result depends on the text
/// alone, and that is all the contract says of it.
#[verifier::external_body]
fn to_uppercase(text: &str) -> (upper: String)
    ensures
        upper@ == uppercase_of(text@),
{
    text.to_uppercase()
}

/// The capital of an ASCII small letter; of any other character, itself.
pub open spec fn ascii_capital(c: char) -> char {
    if 'a' <= c <= 'z' {
        (c as int - 32) as char
    } else {
        c
    }
}

/// The text with each ASCII small letter replaced by its capital.
pub open spec fn ascii_capitals(text: Seq<char>) -> Seq<char> {
    Seq::new(text.len(), |i: int| ascii_capital(text[i]))
}

/// The capitals under which a name is looked up. For a name in ASCII they
/// are its letters, each as a capital; for any other name, its upper-case
/// form as Unicode has it.
pub open spec fn capitals_of(name: Seq<char>) -> Seq<char> {
    if is_ascii_chars(name) {
        ascii_capitals(name)
    } else {
        uppercase_of(name)
    }
}

/// The aggregate function that a name in capitals names, if any.
pub open spec fn aggregate_named(upper: Seq<char>) -> Option<Aggregate> {
    if upper == seq!['S', 'U', 'M'] {
        Some(Aggregate::Sum)
    } else if upper == seq!['A', 'V', 'G'] {
        Some(Aggregate::Avg)
    } else if upper == seq!['M', 'A', 'X'] {
        Some(Aggregate::Max)
    } else if upper == seq!['M', 'I', 'N'] {
        Some(Aggregate::Min)
    } else {
        None
    }
}

/// Whether `parsed` is what reading `name` gives: the aggregate function
/// that its capitals name, or, where they name none, an error that carries
/// the name.
pub open spec fn is_naming_of(
    parsed: Result<Aggregate, ParseAggregateError>,
    name: Seq<char>,
) -> bool {
    match parsed {
        Ok(aggregate) => aggregate_named(capitals_of(name)) == Some(aggregate),
        Err(error) => aggregate_named(capitals_of(name)) is None && error.token() == name,
    }
}

/// Whether `c` is the letter whose small form is `small` and whose capital
/// is `capital`.
fn is_letter(c: char, small: char, capital: char) -> (same: bool)
    requires
        'a' <= small <= 'z',
        capital == ascii_capital(small),
    ensures
        same == (ascii_capital(c) == capital),
{
    c == small || c == capital
}

impl Aggregate {
    /// The aggregate function of the name `upper`, which is taken as it
    /// stands: `SUM`, `AVG`, `MAX` or `MIN`, in capitals.
    pub fn from_uppercase(upper: &String) -> (aggregate: Option<Aggregate>)
        ensures
            aggregate == aggregate_named(upper@),
    {
        proof {
            reveal_strlit("SUM");
            reveal_strlit("AVG");
            reveal_strlit("MAX");
            reveal_strlit("MIN");
            assert("SUM"@ =~= seq!['S', 'U', 'M']);
            assert("AVG"@ =~= seq!['A', 'V', 'G']);
            assert("MAX"@ =~= seq!['M', 'A', 'X']);
            assert("MIN"@ =~= seq!['M', 'I', 'N']);
        }
        if *upper == String::from_str("SUM") {
            Some(Aggregate::Sum)
        } else if *upper == String::from_str("AVG") {
            Some(Aggregate::Avg)
        } else if *upper == String::from_str("MAX") {
            Some(Aggregate::Max)
        } else if *upper == String::from_str("MIN") {
            Some(Aggregate::Min)
        } else {
            None
        }
    }

    /// The aggregate function of the name `name`, its ASCII letters taken
    /// for their capitals: `sum`, `Sum` and `SUM` are one name.
    pub fn from_letters(name: &str) -> (aggregate: Option<Aggregate>)
        ensures
            aggregate == aggregate_named(ascii_capitals(name@)),
    {
        let chars = chars_of(name);
        let ghost upper = ascii_capitals(name@);
        if chars.len() != 3 {
            proof {
                assert(seq!['S', 'U', 'M'].len() == 3);
                assert(seq!['A', 'V', 'G'].len() == 3);
                assert(seq!['M', 'A', 'X'].len() == 3);
                assert(seq!['M', 'I', 'N'].len() == 3);
            }
            return None;
        }
        let first = chars[0];
        let second = chars[1];
        let third = chars[2];
        if is_letter(first, 's', 'S') && is_letter(second, 'u', 'U') && is_letter(third, 'm', 'M') {
            assert(upper =~= seq!['S', 'U', 'M']);
            Some(Aggregate::Sum)
        } else if is_letter(first, 'a', 'A') && is_letter(second, 'v', 'V') && is_letter(
            third,
            'g',
            'G',
        ) {
            assert(upper =~= seq!['A', 'V', 'G']);
            Some(Aggregate::Avg)
        } else if is_letter(first, 'm', 'M') && is_letter(second, 'a', 'A') && is_letter(
            third,
            'x',
            'X',
        ) {
            assert(upper =~= seq!['M', 'A', 'X']);
            Some(Aggregate::Max)
        } else if is_letter(first, 'm', 'M') && is_letter(second, 'i', 'I') && is_letter(
            third,
            'n',
            'N',
        ) {
            assert(upper =~= seq!['M', 'I', 'N']);
            Some(Aggregate::Min)
        } else {
            None
        }
    }

    /// Reads the name of an aggregate function: `sum`, `avg`, `max` or
    /// `min`, in small letters or capitals. A name in ASCII is compared
    /// letter by letter; any other name is put in upper case as Unicode has
    /// it, and then looked up.
    pub fn from_str(s: &str) -> (parsed: Result<Aggregate, ParseAggregateError>)
        ensures
            is_naming_of(parsed, s@),
    {
        let named = if s.is_ascii() {
            Aggregate::from_letters(s)
        } else {
            let upper = to_uppercase(s);
            Aggregate::from_uppercase(&upper)
        };
        match named {
            Some(aggregate) => Ok(aggregate),
            None => Err(ParseAggregateError::UnknownAggregate { token: s.to_owned() }),
        }
    }
}

/// `str::parse` reads a name as [`Aggregate::from_str`] does.
impl std::str::FromStr for Aggregate {
    type Err = ParseAggregateError;

    fn from_str(s: &str) -> (parsed: Result<Aggregate, ParseAggregateError>)
        ensures
            is_naming_of(parsed, s@),
    {
        Aggregate::from_str(s)
    }
}

/// What an aggregate function makes of a sequence of rolls.
#[derive(Clone, Debug, PartialEq, Eq)]
pub enum Summary {
    /// No function was chosen: the rolls themselves, in the order thrown.
    Rolls(Vec<u32>),
    /// The sum of the rolls.
    Sum(u128),
    /// The mean of the rolls, as the exact fraction of their sum by their
    /// number. Of no rolls it is the fraction of zero by zero.
    Mean { total: u128, count: usize },
    /// The greatest of the rolls.
    Max(u32),
    /// The least of the rolls.
    Min(u32),
}

/// A summary as a mathematical value.
pub enum SummaryView {
    Rolls(Seq<u32>),
    Sum(nat),
    Mean { total: nat, count: nat },
    Max(u32),
    Min(u32),
}

impl View for Summary {
    type V = SummaryView;

    open spec fn view(&self) -> SummaryView {
        match *self {
            Summary::Rolls(rolls) => SummaryView::Rolls(rolls@),
            Summary::Sum(total) => SummaryView::Sum(total as nat),
            Summary::Mean { total, count } => SummaryView::Mean {
                total: total as nat,
                count: count as nat,
            },
            Summary::Max(greatest) => SummaryView::Max(greatest),
            Summary::Min(least) => SummaryView::Min(least),
        }
    }
}

/// The sum of `rolls`.
pub open spec fn sum_of(rolls: Seq<u32>) -> nat
    decreases rolls.len(),
{
    if rolls.len() == 0 {
        0
    } else {
        sum_of(rolls.drop_last()) + rolls.last() as nat
    }
}

/// Whether `greatest` is the maximum of `rolls`: one of them, and exceeded
/// by none.
pub open spec fn is_max_of(greatest: u32, rolls: Seq<u32>) -> bool {
    &&& rolls.contains(greatest)
    &&& forall|i: int| 0 <= i < rolls.len() ==> #[trigger] rolls[i] <= greatest
}

/// Whether `least` is the minimum of `rolls`: one of them, and exceeding
/// none.
pub open spec fn is_min_of(least: u32, rolls: Seq<u32>) -> bool {
    &&& rolls.contains(least)
    &&& forall|i: int| 0 <= i < rolls.len() ==> least <= #[trigger] rolls[i]
}

/// Whether `summary` is what `selector` makes of `rolls`.
pub open spec fn summarizes(
    summary: SummaryView,
    selector: Option<Aggregate>,
    rolls: Seq<u32>,
) -> bool {
    match selector {
        None => summary == SummaryView::Rolls(rolls),
        Some(Aggregate::Sum) => summary == SummaryView::Sum(sum_of(rolls)),
        Some(Aggregate::Avg) => summary == (SummaryView::Mean {
            total: sum_of(rolls),
            count: rolls.len(),
        }),
        Some(Aggregate::Max) => summary matches SummaryView::Max(greatest) && is_max_of(
            greatest,
            rolls,
        ),
        Some(Aggregate::Min) => summary matches SummaryView::Min(least) && is_min_of(
            least,
            rolls,
        ),
    }
}

/// Whether `selector` can make nothing of `rolls`: a maximum or a minimum of
/// no rolls.
pub open spec fn undefined_on(selector: Option<Aggregate>, rolls: Seq<u32>) -> bool {
    rolls.len() == 0 && (selector == Some(Aggregate::Max) || selector == Some(Aggregate::Min))
}

/// A sequence has one maximum at most.
pub proof fn lemma_max_is_unique(first: u32, second: u32, rolls: Seq<u32>)
    requires
        is_max_of(first, rolls),
        is_max_of(second, rolls),
    ensures
        first == second,
{
    let at_first = choose|i: int| 0 <= i < rolls.len() && rolls[i] == first;
    let at_second = choose|i: int| 0 <= i < rolls.len() && rolls[i] == second;
    assert(rolls[at_first] <= second);
    assert(rolls[at_second] <= first);
}

/// A sequence has one minimum at most.
pub proof fn lemma_min_is_unique(first: u32, second: u32, rolls: Seq<u32>)
    requires
        is_min_of(first, rolls),
        is_min_of(second, rolls),
    ensures
        first == second,
{
    let at_first = choose|i: int| 0 <= i < rolls.len() && rolls[i] == first;
    let at_second = choose|i: int| 0 <= i < rolls.len() && rolls[i] == second;
    assert(second <= rolls[at_first]);
    assert(first <= rolls[at_second]);
}

/// What dice show can always be reduced: there is at least one roll, so
/// no aggregate function is at a loss.
pub proof fn lemma_rolls_can_be_reduced(
    rolls: Seq<u32>,
    count: nat,
    sides: nat,
    selector: Option<Aggregate>,
)
    requires
        valid_descriptor(count, sides),
        is_roll_of(rolls, count, sides),
    ensures
        !undefined_on(selector, rolls),
{
}

/// The sum of `rolls`.
pub fn total_of(rolls: &Vec<u32>) -> (total: u128)
    ensures
        total == sum_of(rolls@),
{
    let mut total: u128 = 0;
    let mut i: usize = 0;
    while i < rolls.len()
        invariant
            i <= rolls.len(),
            total == sum_of(rolls@.take(i as int)),
            total <= i * u32::MAX,
        decreases rolls.len() - i,
    {
        proof {
            assert(rolls@.take(i + 1).drop_last() =~= rolls@.take(i as int));
        }
        total = total + rolls[i] as u128;
        i = i + 1;
    }
    proof {
        assert(rolls@.take(i as int) =~= rolls@);
    }
    total
}

/// The greatest of `rolls`, of which there is at least one.
pub fn greatest_of(rolls: &Vec<u32>) -> (greatest: u32)
    requires
        rolls.len() > 0,
    ensures
        is_max_of(greatest, rolls@),
{
    let mut greatest: u32 = rolls[0];
    let mut i: usize = 1;
    while i < rolls.len()
        invariant
            1 <= i <= rolls.len(),
            exists|j: int| 0 <= j < i && rolls[j] == greatest,
            forall|j: int| 0 <= j < i ==> rolls[j] <= greatest,
        decreases rolls.len() - i,
    {
        if rolls[i] > greatest {
            greatest = rolls[i];
        }
        i = i + 1;
    }
    greatest
}

/// The least of `rolls`, of which there is at least one.
pub fn least_of(rolls: &Vec<u32>) -> (least: u32)
    requires
        rolls.len() > 0,
    ensures
        is_min_of(least, rolls@),
{
    let mut least: u32 = rolls[0];
    let mut i: usize = 1;
    while i < rolls.len()
        invariant
            1 <= i <= rolls.len(),
            exists|j: int| 0 <= j < i && rolls[j] == least,
            forall|j: int| 0 <= j < i ==> least <= rolls[j],
        decreases rolls.len() - i,
    {
        if rolls[i] < least {
            least = rolls[i];
        }
        i = i + 1;
    }
    least
}

/// Reduces `rolls` with the aggregate function `selector`, or keeps them as
/// they are where there is none, given that there are rolls to take a
/// maximum or a minimum of.
pub fn reduce(selector: Option<Aggregate>, rolls: &Vec<u32>) -> (summary: Summary)
    requires
        !undefined_on(selector, rolls@),
    ensures
        summarizes(summary@, selector, rolls@),
{
    match selector {
        None => Summary::Rolls(rolls.clone()),
        Some(Aggregate::Sum) => Summary::Sum(total_of(rolls)),
        Some(Aggregate::Avg) => Summary::Mean { total: total_of(rolls), count: rolls.len() },
        Some(Aggregate::Max) => Summary::Max(greatest_of(rolls)),
        Some(Aggregate::Min) => Summary::Min(least_of(rolls)),
    }
}

/// Reduces `rolls` with the aggregate function `selector`, or keeps them as
/// they are where there is none. Only a maximum or a minimum of no rolls is
/// refused.
pub fn aggregate(selector: Option<Aggregate>, rolls: &Vec<u32>) -> (reduced: Result<
    Summary,
    AggregateError,
>)
    ensures
        reduced is Err <==> undefined_on(selector, rolls@),
        reduced matches Err(error) ==> error == AggregateError::EmptySequence,
        reduced matches Ok(summary) ==> summarizes(summary@, selector, rolls@),
{
    let bounded = match selector {
        Some(Aggregate::Max) => true,
        Some(Aggregate::Min) => true,
        _ => false,
    };
    if bounded && rolls.len() == 0 {
        Err(AggregateError::EmptySequence)
    } else {
        Ok(reduce(selector, rolls))
    }
}

} // verus!
