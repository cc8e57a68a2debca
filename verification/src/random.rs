//! The random source of the simulation, and draws taken from it ahead of use.
//!
//! Everything that is left to chance enters the library through
//! [`random_below`]. The rules that depend on chance are written as functions
//! of the numbers drawn, so that they say the same for every outcome.

use vstd::prelude::*;
use rand::Rng;

verus! {

/// The `rand` identifier of a program yields a value below this limit.
pub const RAND_LIMIT: i32 = 1000;

/// Draws one number from the thread's random generator.
///
/// Calls `rand::thread_rng().gen_range(0..bound)`. `gen_range` panics on an
/// empty range, which `bound > 0` excludes, and samples from the half-open
/// range, so the number is at least 0 and below `bound`. Which number comes
/// is not stated: two calls may differ. The generator of a thread is seeded
/// from the operating system when the thread first asks for it.
#[verifier::external_body]
pub(crate) fn random_below(bound: i32) -> (n: i32)
    requires
        bound > 0,
    ensures
        0 <= n < bound,
{
    rand::thread_rng().gen_range(0..bound)
}

/// Every draw lies in `[0, RAND_LIMIT)`.
pub open spec fn draws_in_range(draws: Seq<i32>) -> bool {
    forall|i: int| 0 <= i < draws.len() ==> 0 <= #[trigger] draws[i] < RAND_LIMIT
}

/// A supply of numbers for the `rand` identifier, consumed from the front.
///
/// The view is the sequence of numbers not yet consumed.
pub struct Draws {
    values: Vec<i32>,
    next: usize,
}

impl View for Draws {
    type V = Seq<i32>;

    closed spec fn view(&self) -> Seq<i32> {
        if self.next <= self.values@.len() {
            self.values@.subrange(self.next as int, self.values@.len() as int)
        } else {
            Seq::empty()
        }
    }
}

impl Draws {
    /// A supply that hands out `values` in order.
    pub fn new(values: Vec<i32>) -> (draws: Draws)
        ensures
            draws@ == values@,
    {
        let draws = Draws { values, next: 0 };
        assert(draws@ =~= values@);
        draws
    }

    /// A supply of `count` fresh random numbers, each in `[0, RAND_LIMIT)`.
    pub fn roll(count: usize) -> (draws: Draws)
        ensures
            draws@.len() == count,
            draws_in_range(draws@),
    {
        let mut values: Vec<i32> = Vec::new();
        let mut i: usize = 0;
        while i < count
            invariant
                i <= count,
                values@.len() == i,
                draws_in_range(values@),
            decreases count - i,
        {
            let n = random_below(RAND_LIMIT);
            values.push(n);
            i += 1;
        }
        Draws::new(values)
    }

    /// How many numbers are left.
    pub fn remaining(&self) -> (n: usize)
        ensures
            n == self@.len(),
    {
        if self.next <= self.values.len() {
            self.values.len() - self.next
        } else {
            0
        }
    }

    /// Takes the next number, if one is left.
    pub fn next(&mut self) -> (n: Option<i32>)
        ensures
            old(self)@.len() == 0 ==> n is None && final(self)@ == old(self)@,
            old(self)@.len() > 0 ==> n == Some(old(self)@[0]) && final(self)@ == old(self)@.drop_first(),
    {
        if self.next < self.values.len() {
            let n = self.values[self.next];
            self.next += 1;
            assert(self@ =~= old(self)@.drop_first());
            Some(n)
        } else {
            None
        }
    }
}

} // verus!
