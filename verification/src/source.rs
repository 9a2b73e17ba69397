//! Where the numbers come from: a source of uniform draws, the thread's
//! random generator as one such source, and a scripted one.

use rand::rngs::ThreadRng;
use rand::Rng;
use vstd::prelude::*;

verus! {

/// One draw from a source: the bounds that were asked for, both included,
/// and the value that came.
pub struct Draw {
    pub low: u32,
    pub high: u32,
    pub value: u32,
}

/// A source of integers, each drawn from a range that the caller names.
pub trait UniformSource {
    /// The draws made from this source so far, oldest first.
    spec fn history(&self) -> Seq<Draw>;

    /// Draws an integer between `low` and `high`, both included.
    fn next_in_range(&mut self, low: u32, high: u32) -> (value: u32)
        requires
            low <= high,
        ensures
            low <= value <= high,
            final(self).history() == old(self).history().push(Draw { low, high, value }),
    ;
}

/// `rand::rngs::ThreadRng`, the handle that `rand::thread_rng` returns. It
/// is carried about and handed back to `rand`, never looked into.
#[verifier::external_type_specification]
#[verifier::external_body]
pub struct ExThreadRng(ThreadRng);

/// `rand::thread_rng`: a handle to the generator of the current thread.
/// Nothing is claimed of the handle. The first call in a thread seeds the
/// generator, and panics where the system has no entropy to give: no
/// argument decides that.
#[verifier::external_body]
fn thread_rng() -> ThreadRng {
    rand::thread_rng()
}

/// `rand::Rng::gen_range`, at `u64`: a value of the half-open range from
/// `low` to `high`. The call panics unless `low` is below `high`, so that is
/// required; the claim is that the value lies in the range, `low` included
/// and `high` excluded.
#[verifier::external_body]
fn gen_range(rng: &mut ThreadRng, low: u64, high: u64) -> (value: u64)
    requires
        low < high,
    ensures
        low <= value < high,
{
    rng.gen_range(low, high)
}

/// The random generator of the current thread, seeded by the system.
pub struct ThreadSource {
    rng: ThreadRng,
    history: Ghost<Seq<Draw>>,
}

impl ThreadSource {
    /// A source on the generator of the current thread, with no draw made.
    pub fn new() -> (source: ThreadSource)
        ensures
            source.history() == Seq::<Draw>::empty(),
    {
        ThreadSource { rng: thread_rng(), history: Ghost(Seq::empty()) }
    }
}

impl UniformSource for ThreadSource {
    closed spec fn history(&self) -> Seq<Draw> {
        self.history@
    }

    fn next_in_range(&mut self, low: u32, high: u32) -> (value: u32) {
        let drawn: u64 = gen_range(&mut self.rng, low as u64, high as u64 + 1);
        let value: u32 = drawn as u32;
        proof {
            self.history@ = self.history@.push(Draw { low, high, value });
        }
        value
    }
}

/// `value` moved into the range from `low` to `high` by the shortest way.
pub open spec fn clamp(value: u32, low: u32, high: u32) -> u32 {
    if value < low {
        low
    } else if value > high {
        high
    } else {
        value
    }
}

/// A source that knows no chance: it hands out the numbers of a script, one
/// per draw, and starts over when the script is through. A number outside
/// the range that a draw asks for is moved to the nearest bound; with an
/// empty script every draw gives the lower bound.
pub struct ScriptedSource {
    script: Vec<u32>,
    cursor: usize,
    history: Ghost<Seq<Draw>>,
}

impl ScriptedSource {
    #[verifier::type_invariant]
    spec fn well_formed(self) -> bool {
        if self.script.len() == 0 {
            self.cursor == 0
        } else {
            self.cursor < self.script.len()
        }
    }

    /// The numbers that the source hands out, in order.
    pub closed spec fn script(&self) -> Seq<u32> {
        self.script@
    }

    /// The place in the script of the number that the next draw takes.
    pub closed spec fn cursor(&self) -> nat {
        self.cursor as nat
    }

    /// What the next draw from the range `low` to `high` gives.
    pub open spec fn upcoming(&self, low: u32, high: u32) -> u32 {
        if self.script().len() == 0 {
            low
        } else {
            clamp(self.script()[self.cursor() as int], low, high)
        }
    }

    /// The place in the script after one more draw: the next place, or the
    /// first when the script is through.
    pub open spec fn cursor_after(&self) -> nat {
        if self.cursor() + 1 < self.script().len() {
            self.cursor() + 1
        } else {
            0
        }
    }

    /// A source that hands out `script`, from its first number on.
    pub fn new(script: Vec<u32>) -> (source: ScriptedSource)
        ensures
            source.script() == script@,
            source.cursor() == 0,
            source.history() == Seq::<Draw>::empty(),
    {
        ScriptedSource { script, cursor: 0, history: Ghost(Seq::empty()) }
    }
}

impl UniformSource for ScriptedSource {
    closed spec fn history(&self) -> Seq<Draw> {
        self.history@
    }

    fn next_in_range(&mut self, low: u32, high: u32) -> (value: u32)
        ensures
            value == old(self).upcoming(low, high),
            final(self).script() == old(self).script(),
            final(self).cursor() == old(self).cursor_after(),
    {
        proof {
            use_type_invariant(&*self);
        }
        let value: u32 = if self.script.len() == 0 {
            low
        } else {
            let scripted: u32 = self.script[self.cursor];
            let next: usize = if self.cursor + 1 == self.script.len() {
                0
            } else {
                self.cursor + 1
            };
            self.cursor = next;
            if scripted < low {
                low
            } else if scripted > high {
                high
            } else {
                scripted
            }
        };
        proof {
            self.history@ = self.history@.push(Draw { low, high, value });
        }
        value
    }
}

} // verus!
