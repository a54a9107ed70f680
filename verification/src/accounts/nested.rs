//! Structs of accounts within structs of accounts.

use crate::memory::{AccountMemory, Held, Hold, Memory, Release};
use vstd::multiset::Multiset;
use vstd::prelude::*;

verus! {

/// A struct of accounts as a field of another one. It takes the views of its own
/// fields, and holds the borrows that they hold.
pub struct Nested<T> {
    pub inner: T,
}

impl<T: Held> Held for Nested<T> {
    open spec fn holds(&self) -> Multiset<Hold> {
        self.inner.holds()
    }

    open spec fn live(&self, m: Memory) -> bool {
        self.inner.live(m)
    }

    proof fn lemma_live_stays(&self, m: Memory, n: Memory) {
        self.inner.lemma_live_stays(m, n);
    }
}

impl<T: Release> Release for Nested<T> {
    fn release(self, memory: &mut AccountMemory) {
        assert(self.holds() == self.inner.holds());
        self.inner.release(memory);
    }
}

} // verus!
