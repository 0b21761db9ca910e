//! The wake cell: one slot for the handle of whoever waits for the next event.

use vstd::prelude::*;

verus! {

/// A slot that holds at most one wake handle. Registering overwrites the
/// handle that was there; signalling empties the slot and hands the handle out
/// for the caller to invoke.
pub struct WakeCell<H> {
    slot: Option<H>,
}

impl<H> View for WakeCell<H> {
    type V = Option<H>;

    closed spec fn view(&self) -> Option<H> {
        self.slot
    }
}

/// The slot after `count` signals in a row.
pub open spec fn after_signals<H>(slot: Option<H>, count: nat) -> Option<H>
    decreases count,
{
    if count == 0 {
        slot
    } else {
        after_signals(None::<H>, (count - 1) as nat)
    }
}

/// The handle that the last of `count` signals in a row hands out, for
/// `count` of at least one.
pub open spec fn last_signalled<H>(slot: Option<H>, count: nat) -> Option<H>
    decreases count,
{
    if count <= 1 {
        slot
    } else {
        last_signalled(None::<H>, (count - 1) as nat)
    }
}

impl<H> WakeCell<H> {
    /// An empty cell.
    pub fn new() -> (cell: Self)
        ensures
            cell@ is None,
    {
        WakeCell { slot: None }
    }

    /// Puts `handle` in the slot, in place of any handle that was there.
    pub fn register(&mut self, handle: H)
        ensures
            final(self)@ == Some(handle),
    {
        self.slot = Some(handle);
    }

    /// Empties the slot and returns the handle that was in it, which the
    /// caller is to invoke. On an empty slot this changes nothing and returns
    /// `None`.
    pub fn signal(&mut self) -> (woken: Option<H>)
        ensures
            woken == old(self)@,
            final(self)@ is None,
            old(self)@ is None ==> final(self)@ == old(self)@,
    {
        self.slot.take()
    }

    /// Empties the slot and returns the handle that was in it, which is not
    /// to be invoked: its owner no longer waits.
    pub fn take(&mut self) -> (withdrawn: Option<H>)
        ensures
            withdrawn == old(self)@,
            final(self)@ is None,
    {
        self.slot.take()
    }

    /// Whether a handle is registered.
    pub fn is_registered(&self) -> (registered: bool)
        ensures
            registered == self@ is Some,
    {
        self.slot.is_some()
    }
}

/// Signalling an empty cell, any number of times, leaves it empty and hands
/// out no handle.
pub proof fn lemma_signal_empty_is_idle<H>(count: nat)
    ensures
        after_signals(None::<H>, count) == None::<H>,
        last_signalled(None::<H>, count) == None::<H>,
    decreases count,
{
    if count > 0 {
        lemma_signal_empty_is_idle::<H>((count - 1) as nat);
    }
}

/// A registered handle is handed out by the first signal that follows and by
/// no later one.
pub proof fn lemma_signal_consumes_once<H>(handle: H, count: nat)
    requires
        count >= 2,
    ensures
        last_signalled(Some(handle), 1) == Some(handle),
        last_signalled(Some(handle), count) == None::<H>,
        after_signals(Some(handle), count) == None::<H>,
{
    lemma_signal_empty_is_idle::<H>((count - 1) as nat);
    reveal_with_fuel(last_signalled, 2);
    reveal_with_fuel(after_signals, 2);
}

} // verus!
