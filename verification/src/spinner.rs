//! The busy spinner: a row of bars whose height is drawn at random.

use vstd::prelude::*;

verus! {

/// `rand::random_range(low..high)` with the thread-local generator: a
/// value in `low..high`. The range must not be empty (the call panics on an
/// empty range).
#[verifier::external_body]
fn random_in(low: u32, high: u32) -> (r: u32)
    requires
        low < high,
    ensures
        low <= r < high,
{
    rand::random_range(low..high)
}

/// The spinner's state: how many bars it draws and their current height.
pub struct Spinner {
    bars: u32,
    value: u32,
}

impl Spinner {
    pub closed spec fn spec_bars(self) -> u32 {
        self.bars
    }

    pub closed spec fn spec_value(self) -> u32 {
        self.value
    }

    /// Fifty bars of a random height between 5 and 29.
    pub fn new() -> (r: Self)
        ensures
            r.spec_bars() == 50,
            5 <= r.spec_value() < 30,
    {
        Self { bars: 50, value: random_in(5, 30) }
    }

    /// Draws a new random height between 5 and 29.
    pub fn update(&mut self)
        ensures
            final(self).spec_bars() == old(self).spec_bars(),
            5 <= final(self).spec_value() < 30,
    {
        self.value = random_in(5, 30);
    }

    pub fn bars(&self) -> (r: u32)
        ensures
            r == self.spec_bars(),
    {
        self.bars
    }

    pub fn value(&self) -> (r: u32)
        ensures
            r == self.spec_value(),
    {
        self.value
    }
}

} // verus!
