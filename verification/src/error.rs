//! What can go wrong: tokens that are not dice notation, names that are
//! not aggregate functions, and reductions of nothing.

use vstd::prelude::*;
use vstd::string::StringExecFns;

verus! {

/// Why a token is not dice notation.
#[derive(Clone, Copy, Debug, PartialEq, Eq, Structural)]
pub enum MalformedReason {
    /// The token is empty or consists of digits only: there is no `d`.
    MissingSeparator,
    /// A character stands where only a digit or the `d` may stand.
    InvalidCharacter,
    /// Nothing follows the `d`.
    MissingSides,
    /// The number of dice does not fit in 32 bits.
    CountOverflow,
    /// The number of faces does not fit in 32 bits.
    SidesOverflow,
}

impl MalformedReason {
    /// The reason in words.
    pub open spec fn spec_text(self) -> Seq<char> {
        match self {
            MalformedReason::MissingSeparator => "the separator 'd' is missing"@,
            MalformedReason::InvalidCharacter => "only digits and one 'd' may appear"@,
            MalformedReason::MissingSides => "the number of sides is missing"@,
            MalformedReason::CountOverflow => "the number of dice is too large"@,
            MalformedReason::SidesOverflow => "the number of sides is too large"@,
        }
    }

    /// The reason in words.
    pub fn text(&self) -> (text: &'static str)
        ensures
            text@ == self.spec_text(),
    {
        match self {
            MalformedReason::MissingSeparator => "the separator 'd' is missing",
            MalformedReason::InvalidCharacter => "only digits and one 'd' may appear",
            MalformedReason::MissingSides => "the number of sides is missing",
            MalformedReason::CountOverflow => "the number of dice is too large",
            MalformedReason::SidesOverflow => "the number of sides is too large",
        }
    }
}

/// The outcome of reading a token that names no descriptor, as a
/// mathematical value.
pub enum TokenFault {
    /// The token does not follow the grammar, or a number in it is too large.
    Malformed(MalformedReason),
    /// The token follows the grammar, but there is no die, or a die of
    /// fewer than two faces.
    Invalid { count: nat, sides: nat },
}

/// The error of reading a token as dice notation. Both variants carry the
/// token as it was given.
#[derive(Clone, Debug, PartialEq, Eq)]
pub enum ParseDieError {
    /// The token does not follow the grammar `<count>? "d" <sides>`, or a
    /// number in it does not fit in 32 bits.
    MalformedToken { token: String, reason: MalformedReason },
    /// The token follows the grammar, but `count` is zero or `sides` is
    /// below two.
    InvalidDescriptor { token: String, count: u32, sides: u32 },
}

impl ParseDieError {
    /// The token that was refused.
    pub open spec fn token(self) -> Seq<char> {
        match self {
            ParseDieError::MalformedToken { token, .. } => token@,
            ParseDieError::InvalidDescriptor { token, .. } => token@,
        }
    }

    /// What was wrong with the token.
    pub open spec fn fault(self) -> TokenFault {
        match self {
            ParseDieError::MalformedToken { reason, .. } => TokenFault::Malformed(reason),
            ParseDieError::InvalidDescriptor { count, sides, .. } => TokenFault::Invalid {
                count: count as nat,
                sides: sides as nat,
            },
        }
    }

    /// The error in words, the token quoted.
    pub open spec fn spec_message(self) -> Seq<char> {
        match self {
            ParseDieError::MalformedToken { token, reason } => "malformed dice notation '"@
                + token@ + "': "@ + reason.spec_text(),
            ParseDieError::InvalidDescriptor { token, .. } => "invalid dice '"@ + token@
                + "': there must be at least one die, of at least two sides"@,
        }
    }

    /// The error in words, the token quoted.
    pub fn to_string(&self) -> (message: String)
        ensures
            message@ == self.spec_message(),
    {
        match self {
            ParseDieError::MalformedToken { token, reason } => {
                let mut message = String::from_str("malformed dice notation '");
                message.append(token.as_str());
                message.append("': ");
                message.append(reason.text());
                message
            },
            ParseDieError::InvalidDescriptor { token, .. } => {
                let mut message = String::from_str("invalid dice '");
                message.append(token.as_str());
                message.append("': there must be at least one die, of at least two sides");
                message
            },
        }
    }
}

/// The error of reading the name of an aggregate function: the name, as it
/// was given, is none of the four that are known.
#[derive(Clone, Debug, PartialEq, Eq)]
pub enum ParseAggregateError {
    /// `token` names none of `sum`, `avg`, `max` and `min`.
    UnknownAggregate { token: String },
}

impl ParseAggregateError {
    /// The name that was refused.
    pub open spec fn token(self) -> Seq<char> {
        match self {
            ParseAggregateError::UnknownAggregate { token } => token@,
        }
    }

    /// The error in words, the name quoted.
    pub open spec fn spec_message(self) -> Seq<char> {
        "unknown aggregate function '"@ + self.token() + "': expected sum, avg, max or min"@
    }

    /// The error in words, the name quoted.
    pub fn to_string(&self) -> (message: String)
        ensures
            message@ == self.spec_message(),
    {
        match self {
            ParseAggregateError::UnknownAggregate { token } => {
                let mut message = String::from_str("unknown aggregate function '");
                message.append(token.as_str());
                message.append("': expected sum, avg, max or min");
                message
            },
        }
    }
}

/// The error of reducing rolls.
#[derive(Clone, Copy, Debug, PartialEq, Eq, Structural)]
pub enum AggregateError {
    /// A maximum or a minimum was asked of no rolls at all.
    EmptySequence,
}

impl AggregateError {
    /// The error in words.
    pub open spec fn spec_message(self) -> Seq<char> {
        "no rolls to take the maximum or the minimum of"@
    }

    /// The error in words.
    pub fn to_string(&self) -> (message: String)
        ensures
            message@ == self.spec_message(),
    {
        String::from_str("no rolls to take the maximum or the minimum of")
    }
}

} // verus!
