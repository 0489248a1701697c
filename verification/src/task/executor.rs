//! The cooperative executor: a table of tasks, a shared queue of the tasks
//! that are ready, and the wakers that put them there.
//!
//! The executor decides; its caller polls. A run loop takes a ready
//! identifier with `next_ready`, asks `begin_poll` what to do with it, caches
//! a waker made from the wake handle if it was given one, polls the state
//! machine it is handed with the cached waker, and reports the outcome to
//! `end_poll`. `ExecutorState::round` is one such round as a mathematical
//! value, and `ExecutorState::run` a whole run of them.

use crate::task::queue::{
    queue_is_empty,
    queue_pop,
    queue_push,
    ready_queue_capacity,
    ready_queue_new,
};
use crate::task::{Task, TaskId};
use core::task::Waker;
use crossbeam_queue::ArrayQueue;
use std::collections::BTreeMap;
use std::sync::Arc;
use vstd::prelude::*;

verus! {

/// How many ready identifiers the queue of an executor can hold.
pub const READY_QUEUE_CAPACITY: usize = 100;

/// The ready queue had no room for an identifier.
#[derive(Clone, Copy, Debug, PartialEq, Eq, Structural)]
pub struct QueueFull;

/// A handle that marks one task ready: the task's identifier and the queue
/// of the executor that runs it.
pub struct TaskWaker {
    task_id: TaskId,
    task_queue: Arc<ArrayQueue<u64>>,
}

impl TaskWaker {
    /// The task that this handle wakes.
    pub closed spec fn spec_task_id(&self) -> TaskId {
        self.task_id
    }

    /// The ready queue that this handle puts the task's identifier into.
    pub closed spec fn spec_queue(&self) -> ArrayQueue<u64> {
        *self.task_queue
    }

    /// Creates a handle that wakes task `task_id` through `task_queue`.
    pub fn new(task_id: TaskId, task_queue: Arc<ArrayQueue<u64>>) -> (waker: TaskWaker)
        ensures
            waker.spec_task_id() == task_id,
            waker.spec_queue() == *task_queue,
    {
        TaskWaker { task_id, task_queue }
    }

    /// The task that this handle wakes.
    #[verifier::when_used_as_spec(spec_task_id)]
    pub fn task_id(&self) -> (id: TaskId)
        ensures
            id == self.spec_task_id(),
    {
        self.task_id
    }

    /// Marks the task ready by putting its identifier into the queue; fails
    /// when the queue has no room.
    pub fn wake_task(&self) -> (woken: Result<(), QueueFull>) {
        pushed_or_full(queue_push(&self.task_queue, self.task_id.0))
    }
}

/// The task that an identifier taken from the ready queue stands for, if
/// the queue gave one.
pub fn ready_task(popped: Option<u64>) -> (ready: Option<TaskId>)
    ensures
        ready == match popped {
            Some(id) => Some(TaskId(id)),
            None => None,
        },
{
    match popped {
        Some(id) => Some(TaskId(id)),
        None => None,
    }
}

/// What a push into the ready queue amounts to: the queue took the
/// identifier, or it was full.
pub fn pushed_or_full(pushed: Result<(), u64>) -> (outcome: Result<(), QueueFull>)
    ensures
        outcome.is_ok() == pushed.is_ok(),
{
    match pushed {
        Ok(()) => Ok(()),
        Err(_) => Err(QueueFull),
    }
}

/// One round of the run loop on a ready identifier, as the executor sees
/// it: the identifier, the waker made for the task should none be cached,
/// and how the poll ended.
pub struct Round<T> {
    /// The identifier taken from the ready queue.
    pub id: u64,
    /// The waker that is cached if the task has none yet.
    pub waker: Waker,
    /// The state machine of the task as the poll left it.
    pub future: T,
    /// Whether the poll found the task finished.
    pub ready: bool,
}

/// The executor's bookkeeping as a mathematical value.
pub struct ExecutorState<T> {
    /// The tasks that wait to be polled, by identifier.
    pub tasks: Map<u64, T>,
    /// The cached wakers, by the identifier of the task that each wakes.
    pub wakers: Map<u64, Waker>,
    /// The task that is being polled, if any.
    pub running: Option<u64>,
}

impl<T> ExecutorState<T> {
    /// Whether a task is known: waiting in the table or being polled.
    pub open spec fn knows(self, id: u64) -> bool {
        self.tasks.contains_key(id) || self.running == Some(id)
    }

    /// The task that is being polled is not in the table, and wakers are
    /// cached for known tasks only.
    pub open spec fn wf(self) -> bool {
        &&& self.tasks.dom().finite()
        &&& self.wakers.dom().finite()
        &&& self.running matches Some(id) ==> !self.tasks.contains_key(id)
        &&& forall|id: u64| #[trigger] self.wakers.contains_key(id) ==> self.knows(id)
    }

    /// The state after a task has been taken in.
    pub open spec fn spawn(self, id: u64, future: T) -> ExecutorState<T> {
        ExecutorState { tasks: self.tasks.insert(id, future), ..self }
    }

    /// The state after a ready identifier has been looked at: a task of the
    /// table leaves it to be polled; an identifier without a task changes
    /// nothing.
    pub open spec fn begin_poll(self, id: u64) -> ExecutorState<T> {
        if self.tasks.contains_key(id) {
            ExecutorState { tasks: self.tasks.remove(id), running: Some(id), ..self }
        } else {
            self
        }
    }

    /// The state after `waker` has been cached for the task being polled.
    pub open spec fn cache_waker(self, waker: Waker) -> ExecutorState<T> {
        match self.running {
            Some(id) => ExecutorState { wakers: self.wakers.insert(id, waker), ..self },
            None => self,
        }
    }

    /// The state after the poll has come back: a finished task is forgotten
    /// together with its waker; an unfinished one returns to the table.
    pub open spec fn end_poll(self, future: T, ready: bool) -> ExecutorState<T> {
        match self.running {
            Some(id) => if ready {
                ExecutorState { wakers: self.wakers.remove(id), running: None, ..self }
            } else {
                ExecutorState { tasks: self.tasks.insert(id, future), running: None, ..self }
            },
            None => self,
        }
    }

    /// The state after one round: a stale identifier changes nothing; a
    /// task of the table is taken out, gets the round's waker cached unless
    /// it has one already, and is forgotten or put back as its poll ended.
    pub open spec fn round(self, round: Round<T>) -> ExecutorState<T> {
        if self.tasks.contains_key(round.id) {
            let begun = self.begin_poll(round.id);
            let cached = if self.wakers.contains_key(round.id) {
                begun
            } else {
                begun.cache_waker(round.waker)
            };
            cached.end_poll(round.future, round.ready)
        } else {
            self
        }
    }

    /// The state after `rounds`, made in order.
    #[verifier::opaque]
    pub open spec fn run(self, rounds: Seq<Round<T>>) -> ExecutorState<T>
        decreases rounds.len(),
    {
        if rounds.len() == 0 {
            self
        } else {
            self.run(rounds.drop_last()).round(rounds.last())
        }
    }

    /// Whether this state may come out of running `before` between polls:
    /// no task is being polled, no task has joined the table, and every
    /// task that is left has the waker that was cached for it in `before`,
    /// if one was.
    pub open spec fn follows(self, before: ExecutorState<T>) -> bool {
        &&& self.wf()
        &&& self.running.is_none()
        &&& forall|id: u64| #[trigger] self.tasks.contains_key(id) ==> before.tasks.contains_key(id)
        &&& forall|id: u64| #[trigger] self.wakers.contains_key(id) ==> self.tasks.contains_key(id)
        &&& forall|id: u64|
            self.tasks.contains_key(id) && #[trigger] before.wakers.contains_key(id)
                ==> self.wakers.contains_key(id) && self.wakers[id] == before.wakers[id]
    }
}

/// A ready identifier leads to a poll exactly when a task of the table goes
/// by it, and is skipped otherwise. A task that is being polled is out of the
/// table, so that looking at its identifier again before its poll has ended
/// finds nothing to poll: no task is polled twice at once.
pub proof fn lemma_poll_is_exclusive<T>(state: ExecutorState<T>, id: u64)
    requires
        state.wf(),
        state.running.is_none(),
    ensures
        state.begin_poll(id).wf(),
        state.tasks.contains_key(id) ==> state.begin_poll(id).running == Some(id),
        !state.tasks.contains_key(id) ==> state.begin_poll(id) == state,
        !state.begin_poll(id).tasks.contains_key(id),
        state.begin_poll(id).begin_poll(id) == state.begin_poll(id),
{
}

/// When a poll ends with a task that is ready, the task and its waker are
/// forgotten; when it ends with a task that is pending, the task is back in
/// the table with the state machine that the poll left. Either way no task
/// is being polled afterwards, and the bookkeeping is sound.
pub proof fn lemma_poll_ends<T>(state: ExecutorState<T>, id: u64, future: T, ready: bool)
    requires
        state.wf(),
        state.running == Some(id),
    ensures
        state.end_poll(future, ready).wf(),
        state.end_poll(future, ready).running.is_none(),
        ready ==> !state.end_poll(future, ready).knows(id) && !state.end_poll(
            future,
            ready,
        ).wakers.contains_key(id),
        !ready ==> state.end_poll(future, ready).tasks.contains_key(id) && state.end_poll(
            future,
            ready,
        ).tasks[id] == future,
{
}

/// What happens to other tasks leaves the cached waker of a task alone:
/// taking in a task and looking at a ready identifier change no cached
/// waker; caching a waker changes only that of the task being polled; the
/// end of a poll forgets only the waker of a task that is finished.
pub proof fn lemma_waker_is_kept<T>(
    state: ExecutorState<T>,
    id: u64,
    other: u64,
    future: T,
    waker: Waker,
    ready: bool,
)
    requires
        state.wakers.contains_key(id),
    ensures
        state.spawn(other, future).wakers == state.wakers,
        state.begin_poll(other).wakers == state.wakers,
        state.running != Some(id) ==> state.cache_waker(waker).wakers.contains_key(id)
            && state.cache_waker(waker).wakers[id] == state.wakers[id],
        state.running != Some(id) || !ready ==> state.end_poll(future, ready).wakers.contains_key(
            id,
        ) && state.end_poll(future, ready).wakers[id] == state.wakers[id],
{
}

/// One round of the run loop between polls keeps the bookkeeping sound:
/// wakers are cached for tasks of the table only, the table gains no task,
/// and a task that stays keeps the waker it had. A task that was polled and
/// is pending has a cached waker afterwards: its own from before, or else
/// the one made in this round.
pub proof fn lemma_round_keeps_wakers<T>(state: ExecutorState<T>, round: Round<T>)
    requires
        state.wf(),
        state.running.is_none(),
    ensures
        state.round(round).follows(state),
        state.tasks.contains_key(round.id) && !round.ready ==> {
            &&& state.round(round).tasks.contains_key(round.id)
            &&& state.round(round).tasks[round.id] == round.future
            &&& state.round(round).wakers.contains_key(round.id)
            &&& state.round(round).wakers[round.id] == if state.wakers.contains_key(round.id) {
                state.wakers[round.id]
            } else {
                round.waker
            }
        },
        state.tasks.contains_key(round.id) && round.ready ==> !state.round(round).knows(round.id),
{
}

/// A run of no round leaves the state as it is; a longer run is the run of
/// all rounds but the last, and then the last.
pub proof fn lemma_run_unfolds<T>(state: ExecutorState<T>, rounds: Seq<Round<T>>)
    ensures
        rounds.len() == 0 ==> state.run(rounds) == state,
        rounds.len() > 0 ==> state.run(rounds) == state.run(rounds.drop_last()).round(
            rounds.last(),
        ),
{
    reveal_with_fuel(ExecutorState::run, 1);
}

/// Over a whole run of the loop, whatever identifiers the ready queue gave
/// and however the polls ended: wakers remain cached for tasks of the table
/// only, the table gains no task, and a task that is polled more than once
/// finds the same cached waker each time.
pub proof fn lemma_run_keeps_wakers<T>(state: ExecutorState<T>, rounds: Seq<Round<T>>)
    requires
        state.wf(),
        state.running.is_none(),
    ensures
        state.run(rounds).follows(state),
    decreases rounds.len(),
{
    lemma_run_unfolds(state, rounds);
    if rounds.len() > 0 {
        lemma_run_keeps_wakers(state, rounds.drop_last());
        lemma_round_keeps_wakers(state.run(rounds.drop_last()), rounds.last());
    }
}

/// What to do with an identifier taken from the ready queue.
pub enum PollStep<T> {
    /// No task goes by the identifier any more: there is nothing to poll.
    Stale,
    /// Poll `future`. When `waker` is given, no waker was cached for the
    /// task: make one from it and cache it before the poll.
    Run { future: T, waker: Option<TaskWaker> },
}

/// A cooperative executor for tasks whose state machines are of type `T`.
pub struct Executor<T> {
    tasks: BTreeMap<u64, T>,
    task_queue: Arc<ArrayQueue<u64>>,
    waker_cache: BTreeMap<u64, Waker>,
    running: Option<u64>,
}

impl<T> View for Executor<T> {
    type V = ExecutorState<T>;

    closed spec fn view(&self) -> ExecutorState<T> {
        ExecutorState {
            tasks: self.tasks@,
            wakers: self.waker_cache@,
            running: self.running,
        }
    }
}

impl<T> Executor<T> {
    /// The queue of the identifiers of the tasks that are ready. The
    /// executor keeps the queue that it was made with.
    pub closed spec fn ready_queue(&self) -> ArrayQueue<u64> {
        *self.task_queue
    }

    /// How many identifiers the ready queue of the executor can hold.
    pub open spec fn queue_capacity(&self) -> nat {
        ready_queue_capacity(self.ready_queue())
    }

    /// The waker that is cached for task `id`, where one is.
    pub open spec fn cached_waker(&self, id: u64) -> Waker {
        self@.wakers[id]
    }

    /// Creates an executor without tasks, with a ready queue for
    /// `READY_QUEUE_CAPACITY` identifiers.
    pub fn new() -> (executor: Self)
        ensures
            executor@ == (ExecutorState::<T> {
                tasks: Map::empty(),
                wakers: Map::empty(),
                running: None,
            }),
            executor@.wf(),
            executor.queue_capacity() == READY_QUEUE_CAPACITY,
    {
        let executor = Executor {
            tasks: BTreeMap::new(),
            task_queue: Arc::new(ready_queue_new(READY_QUEUE_CAPACITY)),
            waker_cache: BTreeMap::new(),
            running: None,
        };
        executor
    }

    /// Whether a task goes by the identifier, waiting or being polled.
    pub fn contains(&self, task_id: TaskId) -> (known: bool)
        ensures
            known == self@.knows(task_id.0),
    {
        self.tasks.contains_key(&task_id.0) || self.running == Some(task_id.0)
    }

    /// Takes in a task under an identifier that no known task goes by, and
    /// marks it ready.
    ///
    /// The task is in the table whatever the result; the result tells
    /// whether the ready queue had room for its identifier.
    pub fn spawn(&mut self, task: Task<T>) -> (queued: Result<(), QueueFull>)
        requires
            old(self)@.wf(),
            !old(self)@.knows(task.id().0),
        ensures
            final(self)@ == old(self)@.spawn(task.id().0, task.spec_future()),
            final(self)@.wf(),
            final(self).ready_queue() == old(self).ready_queue(),
    {
        let (task_id, future) = task.into_parts();
        self.tasks.insert(task_id.0, future);
        pushed_or_full(queue_push(&self.task_queue, task_id.0))
    }

    /// Takes the next identifier from the ready queue, if the queue holds
    /// one.
    pub fn next_ready(&self) -> (ready: Option<TaskId>) {
        ready_task(queue_pop(&self.task_queue))
    }

    /// Whether the ready queue held nothing at the moment of the call.
    pub fn is_idle(&self) -> (idle: bool) {
        queue_is_empty(&self.task_queue)
    }

    /// Decides what to do with an identifier taken from the ready queue,
    /// while no task is being polled.
    ///
    /// An identifier that no task of the table goes by is stale and changes
    /// nothing. Otherwise the task leaves the table to be polled, and a
    /// fresh wake handle comes with it exactly when no waker is cached for
    /// it.
    pub fn begin_poll(&mut self, task_id: TaskId) -> (step: PollStep<T>)
        requires
            old(self)@.wf(),
            old(self)@.running.is_none(),
        ensures
            final(self)@ == old(self)@.begin_poll(task_id.0),
            final(self)@.wf(),
            final(self).ready_queue() == old(self).ready_queue(),
            match step {
                PollStep::Stale => !old(self)@.tasks.contains_key(task_id.0),
                PollStep::Run { future, waker } => {
                    &&& old(self)@.tasks.contains_key(task_id.0)
                    &&& future == old(self)@.tasks[task_id.0]
                    &&& waker.is_none() == old(self)@.wakers.contains_key(task_id.0)
                    &&& waker matches Some(w) ==> w.task_id() == task_id && w.spec_queue()
                        == old(self).ready_queue()
                },
            },
    {
        match self.tasks.remove(&task_id.0) {
            None => {
                assert(self@.tasks =~= old(self)@.tasks);
                PollStep::Stale
            },
            Some(future) => {
                self.running = Some(task_id.0);
                let waker = if self.waker_cache.contains_key(&task_id.0) {
                    None
                } else {
                    Some(TaskWaker::new(task_id, self.task_queue.clone()))
                };
                PollStep::Run { future, waker }
            },
        }
    }

    /// Caches `waker` for the task that is being polled, in place of the one
    /// cached for it before, if there was one.
    pub fn cache_waker(&mut self, waker: Waker)
        requires
            old(self)@.wf(),
            old(self)@.running.is_some(),
        ensures
            final(self)@ == old(self)@.cache_waker(waker),
            old(self)@.running matches Some(id) ==> final(self).cached_waker(id) == waker,
            final(self)@.wf(),
            final(self).ready_queue() == old(self).ready_queue(),
    {
        match self.running {
            Some(id) => {
                self.waker_cache.insert(id, waker);
            },
            None => {},
        }
    }

    /// The cached waker of the task that is being polled, if there is one.
    pub fn waker(&self) -> (waker: Option<&Waker>)
        ensures
            waker.is_some() == (self@.running matches Some(id) && self@.wakers.contains_key(id)),
            waker matches Some(w) ==> self@.running matches Some(id) && *w == self.cached_waker(
                id,
            ),
    {
        match self.running {
            Some(id) => self.waker_cache.get(&id),
            None => None,
        }
    }

    /// Takes note of how the poll of the running task ended.
    ///
    /// A task that is ready is forgotten together with its cached waker; one
    /// that is pending returns to the table with its state machine.
    pub fn end_poll(&mut self, future: T, ready: bool)
        requires
            old(self)@.wf(),
            old(self)@.running.is_some(),
        ensures
            final(self)@ == old(self)@.end_poll(future, ready),
            final(self)@.wf(),
            final(self).ready_queue() == old(self).ready_queue(),
            final(self)@.running.is_none(),
    {
        match self.running {
            Some(id) => {
                if ready {
                    self.waker_cache.remove(&id);
                } else {
                    self.tasks.insert(id, future);
                }
                self.running = None;
            },
            None => {},
        }
    }
}

} // verus!
