//! The die descriptor: how many dice are thrown, and how many faces each has.

use vstd::prelude::*;

use crate::source::{Draw, ThreadSource, UniformSource};

verus! {

/// A group of identical dice: `count` dice of `sides` faces each.
///
/// Every value of this type has at least one die and at least two faces.
#[derive(Clone, Copy, Debug, PartialEq, Eq, Structural)]
pub struct Dice {
    count: u32,
    sides: u32,
}

/// Whether `count` dice of `sides` faces make a descriptor: at least one
/// die, at least two faces.
pub open spec fn valid_descriptor(count: nat, sides: nat) -> bool {
    count >= 1 && sides >= 2
}

/// Whether `rolls` can come of throwing `count` dice of `sides` faces: one
/// value for each die, each from 1 to `sides`.
pub open spec fn is_roll_of(rolls: Seq<u32>, count: nat, sides: nat) -> bool {
    &&& rolls.len() == count
    &&& forall|i: int| 0 <= i < rolls.len() ==> 1 <= #[trigger] rolls[i] <= sides
}

/// The draws that give `rolls` from dice of `sides` faces: one draw for each
/// value, in order, each from the range 1 to `sides`.
pub open spec fn draws_of(rolls: Seq<u32>, sides: u32) -> Seq<Draw> {
    Seq::new(rolls.len(), |i: int| Draw { low: 1, high: sides, value: rolls[i] })
}

impl Dice {
    /// The number of dice, as a natural number.
    pub closed spec fn spec_count(self) -> nat {
        self.count as nat
    }

    /// The number of faces of each die, as a natural number.
    pub closed spec fn spec_sides(self) -> nat {
        self.sides as nat
    }

    /// The invariant of the type.
    #[verifier::type_invariant]
    pub open spec fn valid(self) -> bool {
        valid_descriptor(self.spec_count(), self.spec_sides())
    }

    /// Makes the descriptor of `count` dice with `sides` faces each.
    pub fn new(count: u32, sides: u32) -> (dice: Dice)
        requires
            valid_descriptor(count as nat, sides as nat),
        ensures
            dice.spec_count() == count,
            dice.spec_sides() == sides,
            dice.valid(),
    {
        Dice { count, sides }
    }

    /// Makes the descriptor of `count` dice with `sides` faces each, if
    /// there is one: `None` where `count` is zero or `sides` is below two.
    pub fn try_new(count: u32, sides: u32) -> (made: Option<Dice>)
        ensures
            made is Some <==> valid_descriptor(count as nat, sides as nat),
            made matches Some(dice) ==> dice.spec_count() == count && dice.spec_sides() == sides,
    {
        if count >= 1 && sides >= 2 {
            Some(Dice { count, sides })
        } else {
            None
        }
    }

    /// The number of dice.
    pub fn count(&self) -> (count: u32)
        ensures
            count == self.spec_count(),
            count >= 1,
    {
        proof {
            use_type_invariant(self);
        }
        self.count
    }

    /// The number of faces of each die.
    pub fn sides(&self) -> (sides: u32)
        ensures
            sides == self.spec_sides(),
            sides >= 2,
    {
        proof {
            use_type_invariant(self);
        }
        self.sides
    }

    /// Throws the dice with numbers from `source`: one draw for each die, in
    /// order, each from the range 1 to `sides`. The values drawn are the
    /// rolls.
    pub fn roll_with<S: UniformSource>(&self, source: &mut S) -> (rolls: Vec<u32>)
        ensures
            is_roll_of(rolls@, self.spec_count(), self.spec_sides()),
            final(source).history() == old(source).history() + draws_of(
                rolls@,
                self.spec_sides() as u32,
            ),
    {
        proof {
            use_type_invariant(self);
        }
        let ghost before = source.history();
        let mut rolls: Vec<u32> = Vec::new();
        let mut thrown: u32 = 0;
        while thrown < self.count
            invariant
                thrown <= self.count,
                self.sides >= 2,
                rolls.len() == thrown,
                forall|i: int| 0 <= i < rolls.len() ==> 1 <= #[trigger] rolls[i] <= self.sides,
                source.history() == before + draws_of(rolls@, self.sides),
            decreases self.count - thrown,
        {
            let value: u32 = source.next_in_range(1, self.sides);
            rolls.push(value);
            thrown = thrown + 1;
        }
        rolls
    }

    /// Throws the dice with the random generator of the current thread.
    pub fn roll(&self) -> (rolls: Vec<u32>)
        ensures
            is_roll_of(rolls@, self.spec_count(), self.spec_sides()),
    {
        let mut source = ThreadSource::new();
        self.roll_with(&mut source)
    }
}

/// A descriptor is nothing but its two numbers: descriptors that agree on
/// both are the same descriptor.
pub proof fn lemma_descriptor_is_its_fields(a: Dice, b: Dice)
    requires
        a.spec_count() == b.spec_count(),
        a.spec_sides() == b.spec_sides(),
    ensures
        a == b,
{
}

} // verus!
