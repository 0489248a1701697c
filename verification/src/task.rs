//! Tasks: a unit of cooperative work and the identifier it is known by.

use core::sync::atomic::{AtomicU64, Ordering};
use vstd::prelude::*;

pub mod executor;
pub mod keyboard;
pub mod queue;

verus! {

/// The identifier of a task.
#[derive(Clone, Copy, Debug, PartialEq, Eq, Structural)]
pub struct TaskId(pub u64);

impl TaskId {
    /// Draws the next identifier from a shared counter.
    ///
    /// The counter may be drawn from in any context at any time, so nothing
    /// is said of the number drawn; it differs from every number drawn
    /// before as long as the counter has not wrapped around.
    pub fn new(next_id: &AtomicU64) -> (id: TaskId) {
        TaskId(next_id.fetch_add(1, Ordering::Relaxed))
    }
}

/// A task: its identifier and the state machine that does its work.
pub struct Task<F> {
    id: TaskId,
    future: F,
}

impl<F> Task<F> {
    /// The identifier of the task.
    pub closed spec fn spec_id(&self) -> TaskId {
        self.id
    }

    /// The state machine of the task.
    pub closed spec fn spec_future(&self) -> F {
        self.future
    }

    /// Creates a task around `future`, with an identifier drawn from the
    /// shared counter.
    pub fn new(next_id: &AtomicU64, future: F) -> (task: Task<F>)
        ensures
            task.spec_future() == future,
    {
        Task { id: TaskId::new(next_id), future }
    }

    /// Creates a task around `future` under a given identifier.
    pub fn with_id(id: TaskId, future: F) -> (task: Task<F>)
        ensures
            task.spec_id() == id,
            task.spec_future() == future,
    {
        Task { id, future }
    }

    /// The identifier of the task.
    #[verifier::when_used_as_spec(spec_id)]
    pub fn id(&self) -> (id: TaskId)
        ensures
            id == self.spec_id(),
    {
        self.id
    }

    /// Takes the task apart into its identifier and its state machine.
    pub fn into_parts(self) -> (parts: (TaskId, F))
        ensures
            parts.0 == self.spec_id(),
            parts.1 == self.spec_future(),
    {
        (self.id, self.future)
    }
}

} // verus!
