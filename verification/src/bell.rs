//! Waking whoever waits.

use crate::ledger::Last;
use crate::outside::{address, holders_of};
use atomic_waker::AtomicWaker;
use std::sync::Arc;
use std::task::Waker;
use vstd::prelude::*;

verus! {

/// A share in the cell for the waker of whoever waits for a vector.
///
/// There are two shares in each cell, and there is no way to get a third. So whoever has one can
/// tell whether the other one is still there. Only the last delivery can ring.
pub struct Bell {
    waker: Arc<AtomicWaker>,
}

impl Bell {
    /// The cell that holds the waker.
    pub closed spec fn cell(&self) -> AtomicWaker {
        *self.waker
    }

    /// Whether the cell was found at `at`.
    pub closed spec fn located(&self, at: usize) -> bool {
        call_ensures(address::<AtomicWaker>, (&self.waker,), at)
    }

    /// Whether the cell was found to be shared by `holders`.
    pub closed spec fn counted(&self, holders: usize) -> bool {
        call_ensures(holders_of::<AtomicWaker>, (&self.waker,), holders)
    }

    /// The two shares in a cell that has no waker.
    pub(crate) fn pair() -> (bells: (Bell, Bell))
        ensures
            call_ensures(AtomicWaker::new, (), bells.0.cell()),
            bells.1.cell() == bells.0.cell(),
    {
        let waker = Arc::new(AtomicWaker::new());
        (Bell { waker: waker.clone() }, Bell { waker })
    }

    /// Where the cell is.
    pub(crate) fn place(&self) -> (at: usize)
        ensures
            self.located(at),
    {
        address(&self.waker)
    }

    /// How many shares in the cell there are.
    pub(crate) fn holders(&self) -> (holders: usize)
        ensures
            holders >= 1,
            self.counted(holders),
    {
        holders_of(&self.waker)
    }

    /// Leaves `waker` for when the bell rings.
    pub(crate) fn register(&self, waker: &Waker)
        ensures
            call_ensures(AtomicWaker::register, (&self.cell(), waker), ()),
    {
        self.waker.register(waker);
    }

    /// Wakes whoever waits.
    pub(crate) fn ring(&self, _last: Last)
        ensures
            call_ensures(AtomicWaker::wake, (&self.cell(),), ()),
    {
        self.waker.wake();
    }
}

} // verus!
