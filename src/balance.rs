//! A running balance that goes up and down by whole amounts.
use vstd::prelude::*;

verus! {

pub struct Balance(i64);

impl View for Balance {
    type V = int;

    closed spec fn view(&self) -> int {
        self.0 as int
    }
}

impl Balance {
    pub fn new() -> (r: Self)
        ensures
            r@ == 0,
    {
        Balance(0)
    }

    pub fn increment(&mut self, by: u32)
        requires
            old(self)@ + by <= i64::MAX,
        ensures
            final(self)@ == old(self)@ + by,
    {
        self.0 = self.0 + by as i64;
    }

    pub fn decrement(&mut self, by: u32)
        requires
            old(self)@ - by >= i64::MIN,
        ensures
            final(self)@ == old(self)@ - by,
    {
        self.0 = self.0 - by as i64;
    }

    /// A balance always fits in an `i64`.
    pub proof fn lemma_in_range(&self)
        ensures
            i64::MIN <= self@ <= i64::MAX,
    {
    }

    /// The current balance.
    pub fn value(&self) -> (r: i64)
        ensures
            r == self@,
    {
        self.0
    }
}

} // verus!
