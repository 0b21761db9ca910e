//! Tasks, their identities, and the pieces that carry hardware events to them.

pub mod decoder;
pub mod event_queue;
pub mod executor;
pub mod keyboard;
pub mod line_editor;
pub mod wake_cell;

use vstd::prelude::*;

verus! {

/// What one step of a suspendable computation reports.
#[derive(Debug, Clone, Copy, PartialEq, Eq)]
pub enum Poll<T> {
    /// The step produced a value.
    Ready(T),
    /// Nothing is available yet; the computation waits to be woken.
    Pending,
}

/// The identity of a spawned task: a number that the executor mints once and
/// never gives to another task.
#[derive(Debug, Clone, Copy, PartialEq, Eq, Structural)]
pub struct TaskId(pub(crate) u64);

impl View for TaskId {
    type V = u64;

    closed spec fn view(&self) -> u64 {
        self.0
    }
}

impl TaskId {
    /// The identity as a number.
    pub fn as_u64(&self) -> (number: u64)
        ensures
            number == self@,
    {
        self.0
    }

    /// Two identities with the same number are the same identity.
    pub proof fn lemma_view_injective(self, other: TaskId)
        ensures
            self@ == other@ ==> self == other,
    {
    }
}

/// A token that marks one task as ready to run again when it is handed to
/// the executor that made it.
#[derive(Debug, Clone, Copy, PartialEq, Eq, Structural)]
pub struct WakeHandle {
    pub(crate) task: TaskId,
}

impl WakeHandle {
    /// The task that the handle wakes.
    pub closed spec fn task(&self) -> TaskId {
        self.task
    }

    /// The task that the handle wakes.
    pub fn task_id(&self) -> (id: TaskId)
        ensures
            id == self.task(),
    {
        self.task
    }
}

/// One top-level suspendable computation with its identity.
pub struct Task<C> {
    pub(crate) id: TaskId,
    pub(crate) computation: C,
}

impl<C> Task<C> {
    /// The task's identity.
    pub closed spec fn task_id(&self) -> TaskId {
        self.id
    }

    /// The task's computation.
    pub closed spec fn computation(&self) -> C {
        self.computation
    }

    /// The task's identity.
    pub fn id(&self) -> (id: TaskId)
        ensures
            id == self.task_id(),
    {
        self.id
    }

    /// Lends the computation, for its owner to drive it one step.
    pub fn computation_mut(&mut self) -> (computation: &mut C)
        ensures
            *computation == old(self).computation(),
            final(self).computation() == *final(computation),
            final(self).task_id() == old(self).task_id(),
    {
        &mut self.computation
    }
}

} // verus!
