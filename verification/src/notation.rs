//! The grammar of dice notation, `<count>? "d" <sides>`, and its reader.

use vstd::prelude::*;
use vstd::string::StringExecFns;

use crate::decimal::{
    all_digits, append_decimal, decimal_digits, decimal_value, is_digit, is_digit_char,
    lemma_decimal_digits_denote, parse_decimal,
};
use crate::dice::{valid_descriptor, Dice};
use crate::error::{MalformedReason, ParseDieError, TokenFault};
use crate::text::chars_of;

verus! {

/// How many digits `token` starts with.
pub open spec fn leading_digits(token: Seq<char>) -> nat
    decreases token.len(),
{
    if token.len() > 0 && is_digit(token[0]) {
        1 + leading_digits(token.drop_first())
    } else {
        0
    }
}

/// What a token denotes: the count and the sides of a descriptor, or the
/// fault that keeps it from denoting one.
///
/// The digits before the first other character are the count, which is one
/// when there are none. That other character must be a `d`, and what follows
/// it must be digits, at least one: the sides. Both numbers must fit in 32
/// bits, the count first; then there must be a die, and two faces to it.
pub open spec fn parse_token(token: Seq<char>) -> Result<(nat, nat), TokenFault> {
    let split = leading_digits(token) as int;
    let count_digits = token.subrange(0, split);
    let sides_digits = token.subrange(split + 1, token.len() as int);
    if split == token.len() {
        Err(TokenFault::Malformed(MalformedReason::MissingSeparator))
    } else if token[split] != 'd' {
        Err(TokenFault::Malformed(MalformedReason::InvalidCharacter))
    } else if split + 1 == token.len() {
        Err(TokenFault::Malformed(MalformedReason::MissingSides))
    } else if !all_digits(sides_digits) {
        Err(TokenFault::Malformed(MalformedReason::InvalidCharacter))
    } else if decimal_value(count_digits) > u32::MAX {
        Err(TokenFault::Malformed(MalformedReason::CountOverflow))
    } else if decimal_value(sides_digits) > u32::MAX {
        Err(TokenFault::Malformed(MalformedReason::SidesOverflow))
    } else {
        let count = if split == 0 {
            1
        } else {
            decimal_value(count_digits)
        };
        let sides = decimal_value(sides_digits);
        if valid_descriptor(count, sides) {
            Ok((count, sides))
        } else {
            Err(TokenFault::Invalid { count, sides })
        }
    }
}

/// Whether `token` is digits up to `split`, a `d` there, and one digit or
/// more after it.
pub open spec fn splits_at(token: Seq<char>, split: int) -> bool {
    &&& 0 <= split < token.len() - 1
    &&& all_digits(token.subrange(0, split))
    &&& token[split] == 'd'
    &&& all_digits(token.subrange(split + 1, token.len() as int))
}

/// Whether `token` follows the grammar `<count>? "d" <sides>`: digits or
/// none, a `d`, one digit or more, and nothing else.
pub open spec fn follows_grammar(token: Seq<char>) -> bool {
    exists|split: int| splits_at(token, split)
}

/// Whether `reason` says that a token does not follow the grammar, and not
/// that a number in it is too large.
pub open spec fn is_grammar_fault(reason: MalformedReason) -> bool {
    reason == MalformedReason::MissingSeparator || reason == MalformedReason::InvalidCharacter
        || reason == MalformedReason::MissingSides
}

/// The canonical notation of `count` dice of `sides` faces: the numeral of
/// the count, a `d`, the numeral of the sides.
pub open spec fn notation_of(count: nat, sides: nat) -> Seq<char> {
    decimal_digits(count) + seq!['d'] + decimal_digits(sides)
}

/// Whether `parsed` is what reading `token` gives: the descriptor that the
/// token denotes, or an error that carries the token and says which fault
/// keeps it from denoting one.
pub open spec fn is_reading_of(parsed: Result<Dice, ParseDieError>, token: Seq<char>) -> bool {
    match parsed {
        Ok(dice) => parse_token(token) == Ok::<(nat, nat), TokenFault>(
            (dice.spec_count(), dice.spec_sides()),
        ),
        Err(error) => error.token() == token && parse_token(token) == Err::<
            (nat, nat),
            TokenFault,
        >(error.fault()),
    }
}

/// The digits that a token starts with end at the first character that is
/// not a digit, or with the token.
pub proof fn lemma_leading_digits(token: Seq<char>, split: int)
    requires
        0 <= split <= token.len(),
        all_digits(token.subrange(0, split)),
        split < token.len() ==> !is_digit(token[split]),
    ensures
        leading_digits(token) == split,
    decreases token.len(),
{
    if split == 0 {
    } else {
        assert(token.subrange(0, split)[0] == token[0]);
        let rest = token.drop_first();
        assert forall|i: int| 0 <= i < split - 1 implies is_digit(
            #[trigger] rest.subrange(0, split - 1)[i],
        ) by {
            assert(rest.subrange(0, split - 1)[i] == token.subrange(0, split)[i + 1]);
        }
        lemma_leading_digits(rest, split - 1);
    }
}

/// The digits that a token starts with are digits, and what follows them,
/// if anything, is none.
pub proof fn lemma_leading_digits_end(token: Seq<char>)
    ensures
        leading_digits(token) <= token.len(),
        all_digits(token.subrange(0, leading_digits(token) as int)),
        leading_digits(token) < token.len() ==> !is_digit(token[leading_digits(token) as int]),
    decreases token.len(),
{
    if token.len() > 0 && is_digit(token[0]) {
        let rest = token.drop_first();
        lemma_leading_digits_end(rest);
        let split = leading_digits(token) as int;
        assert forall|i: int| 0 <= i < split implies is_digit(
            #[trigger] token.subrange(0, split)[i],
        ) by {
            if i > 0 {
                assert(token.subrange(0, split)[i] == rest.subrange(0, split - 1)[i - 1]);
            }
        }
    }
}

/// The reader refuses a token for its form exactly where the token does not
/// follow the grammar.
pub proof fn lemma_grammar(token: Seq<char>)
    ensures
        follows_grammar(token) <==> !(parse_token(token) matches Err(TokenFault::Malformed(reason))
            && is_grammar_fault(reason)),
{
    let leading = leading_digits(token) as int;
    lemma_leading_digits_end(token);
    if follows_grammar(token) {
        let split = choose|split: int| splits_at(token, split);
        lemma_leading_digits(token, split);
    } else if leading < token.len() - 1 && token[leading] == 'd' && all_digits(
        token.subrange(leading + 1, token.len() as int),
    ) {
        assert(splits_at(token, leading));
    }
}

/// The canonical notation of a descriptor denotes that descriptor.
pub proof fn lemma_notation_denotes(count: nat, sides: nat)
    requires
        valid_descriptor(count, sides),
        count <= u32::MAX,
        sides <= u32::MAX,
    ensures
        parse_token(notation_of(count, sides)) == Ok::<(nat, nat), TokenFault>((count, sides)),
{
    let count_digits = decimal_digits(count);
    let sides_digits = decimal_digits(sides);
    let token = notation_of(count, sides);
    let split = count_digits.len() as int;
    lemma_decimal_digits_denote(count);
    lemma_decimal_digits_denote(sides);
    assert(token.subrange(0, split) =~= count_digits);
    assert(token.subrange(split + 1, token.len() as int) =~= sides_digits);
    lemma_leading_digits(token, split);
}

/// Reading a token, writing the descriptor in canonical notation and reading
/// that again gives the descriptor that the token gave.
pub proof fn lemma_parse_render_parse(token: Seq<char>)
    requires
        parse_token(token) is Ok,
    ensures
        ({
            let (count, sides) = parse_token(token)->Ok_0;
            parse_token(notation_of(count, sides)) == parse_token(token)
        }),
{
    let (count, sides) = parse_token(token)->Ok_0;
    lemma_notation_denotes(count, sides);
}

impl Dice {
    /// The canonical notation of this descriptor.
    pub open spec fn spec_notation(self) -> Seq<char> {
        notation_of(self.spec_count(), self.spec_sides())
    }

    /// Writes the descriptor in canonical notation, the count always
    /// spelled out: `1d20`, never `d20`.
    pub fn to_string(&self) -> (text: String)
        ensures
            text@ == self.spec_notation(),
    {
        let mut text = String::new();
        append_decimal(&mut text, self.count() as u128);
        proof {
            reveal_strlit("d");
        }
        text.append("d");
        append_decimal(&mut text, self.sides() as u128);
        text
    }

    /// Reads a token of dice notation, such as `3d6` or `d20`.
    pub fn from_str(s: &str) -> (parsed: Result<Dice, ParseDieError>)
        ensures
            is_reading_of(parsed, s@),
    {
        let chars = chars_of(s);
        let len: usize = chars.len();
        let mut split: usize = 0;
        while split < len && is_digit_char(chars[split])
            invariant
                split <= len == chars.len(),
                all_digits(chars@.subrange(0, split as int)),
            decreases len - split,
        {
            split = split + 1;
        }
        proof {
            lemma_leading_digits(chars@, split as int);
        }
        if split == len {
            return Err(
                ParseDieError::MalformedToken {
                    token: s.to_owned(),
                    reason: MalformedReason::MissingSeparator,
                },
            );
        }
        if chars[split] != 'd' {
            return Err(
                ParseDieError::MalformedToken {
                    token: s.to_owned(),
                    reason: MalformedReason::InvalidCharacter,
                },
            );
        }
        let start: usize = split + 1;
        if start == len {
            return Err(
                ParseDieError::MalformedToken {
                    token: s.to_owned(),
                    reason: MalformedReason::MissingSides,
                },
            );
        }
        let mut i: usize = start;
        while i < len
            invariant
                chars@ == s@,
                split < start == split + 1 <= i <= len == chars.len(),
                leading_digits(chars@) == split,
                chars@[split as int] == 'd',
                all_digits(chars@.subrange(start as int, i as int)),
            decreases len - i,
        {
            if !is_digit_char(chars[i]) {
                proof {
                    let sides_digits = chars@.subrange(start as int, len as int);
                    assert(!is_digit(sides_digits[i - start]));
                }
                return Err(
                    ParseDieError::MalformedToken {
                        token: s.to_owned(),
                        reason: MalformedReason::InvalidCharacter,
                    },
                );
            }
            i = i + 1;
        }
        let count: u32 = if split == 0 {
            1
        } else {
            match parse_decimal(&chars, 0, split) {
                Some(count) => count,
                None => {
                    return Err(
                        ParseDieError::MalformedToken {
                            token: s.to_owned(),
                            reason: MalformedReason::CountOverflow,
                        },
                    );
                },
            }
        };
        let sides: u32 = match parse_decimal(&chars, start, len) {
            Some(sides) => sides,
            None => {
                return Err(
                    ParseDieError::MalformedToken {
                        token: s.to_owned(),
                        reason: MalformedReason::SidesOverflow,
                    },
                );
            },
        };
        match Dice::try_new(count, sides) {
            Some(dice) => Ok(dice),
            None => Err(ParseDieError::InvalidDescriptor { token: s.to_owned(), count, sides }),
        }
    }
}

/// `str::parse` reads a token as [`Dice::from_str`] does.
impl std::str::FromStr for Dice {
    type Err = ParseDieError;

    fn from_str(s: &str) -> (parsed: Result<Dice, ParseDieError>)
        ensures
            is_reading_of(parsed, s@),
    {
        Dice::from_str(s)
    }
}

} // verus!
