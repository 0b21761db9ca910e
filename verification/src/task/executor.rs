//! The executor: the set of spawned tasks, the queue of those ready to run,
//! and a cached wake handle for each.

use crate::task::keyboard::{after_signal, signal_outcome, ChannelView, Signal, QUEUE_CAPACITY};
use crate::task::{Poll, Task, TaskId, WakeHandle};
use std::collections::{BTreeMap, VecDeque};
use vstd::prelude::*;

verus! {

/// An executor as a mathematical value. Identities are given by their
/// numbers.
pub struct ExecutorView<C> {
    /// The computations of the tasks that wait in the executor, by identity.
    pub tasks: Map<u64, C>,
    /// The task that has been handed out to be polled, if any.
    pub running: Option<u64>,
    /// The identities ready to be polled, in scheduling order.
    pub ready: Seq<u64>,
    /// The identities for which a wake handle is cached.
    pub cached: Set<u64>,
    /// The number of the next identity to be minted.
    pub next_id: u64,
}

impl<C> ExecutorView<C> {
    /// Whether a task of this identity is alive: waiting in the executor or
    /// handed out to be polled.
    pub open spec fn alive(self, id: u64) -> bool {
        self.tasks.contains_key(id) || self.running == Some(id)
    }

    /// Every identity in use was minted before; the one handed out does not
    /// wait in the executor as well; only live tasks are ready or have a
    /// cached handle.
    pub open spec fn wf(self) -> bool {
        &&& forall|id: u64| #[trigger] self.alive(id) ==> id < self.next_id
        &&& self.running matches Some(id) ==> !self.tasks.contains_key(id)
        &&& forall|i: int| 0 <= i < self.ready.len() ==> self.alive(#[trigger] self.ready[i])
        &&& forall|id: u64| #[trigger] self.cached.contains(id) ==> self.alive(id)
    }
}

/// `ids` without every occurrence of `id`.
pub open spec fn without(ids: Seq<u64>, id: u64) -> Seq<u64>
    decreases ids.len(),
{
    if ids.len() == 0 {
        ids
    } else if ids.last() == id {
        without(ids.drop_last(), id)
    } else {
        without(ids.drop_last(), id).push(ids.last())
    }
}

/// The executor after it has spawned `computation`.
pub open spec fn after_spawn<C>(state: ExecutorView<C>, computation: C) -> ExecutorView<C> {
    ExecutorView {
        tasks: state.tasks.insert(state.next_id, computation),
        running: state.running,
        ready: state.ready.push(state.next_id),
        cached: state.cached,
        next_id: (state.next_id + 1) as u64,
    }
}

/// The executor after the handle of task `id` has been invoked: a live task
/// joins the ready queue, and nothing happens for any other.
pub open spec fn after_wake<C>(state: ExecutorView<C>, id: u64) -> ExecutorView<C> {
    if state.alive(id) {
        ExecutorView {
            tasks: state.tasks,
            running: state.running,
            ready: state.ready.push(id),
            cached: state.cached,
            next_id: state.next_id,
        }
    } else {
        state
    }
}

/// The executor after it has handed out the first ready task, if there is
/// one.
pub open spec fn after_next_ready<C>(state: ExecutorView<C>) -> ExecutorView<C> {
    if state.ready.len() == 0 {
        state
    } else {
        ExecutorView {
            tasks: state.tasks.remove(state.ready[0]),
            running: Some(state.ready[0]),
            ready: state.ready.skip(1),
            cached: state.cached.insert(state.ready[0]),
            next_id: state.next_id,
        }
    }
}

/// The executor after the task that it had handed out has come back with the
/// outcome of its poll: a suspended task waits again, and a completed one is
/// gone from the tasks, the ready queue and the cached handles.
pub open spec fn after_settle<C>(
    state: ExecutorView<C>,
    computation: C,
    outcome: Poll<()>,
) -> ExecutorView<C> {
    match (state.running, outcome) {
        (None, _) => state,
        (Some(id), Poll::Pending) => ExecutorView {
            tasks: state.tasks.insert(id, computation),
            running: None,
            ready: state.ready,
            cached: state.cached,
            next_id: state.next_id,
        },
        (Some(id), Poll::Ready(_)) => ExecutorView {
            tasks: state.tasks,
            running: None,
            ready: without(state.ready, id),
            cached: state.cached.remove(id),
            next_id: state.next_id,
        },
    }
}

/// `without(ids, id)` holds no `id`, and nothing that `ids` does not hold.
pub proof fn lemma_without(ids: Seq<u64>, id: u64)
    ensures
        !without(ids, id).contains(id),
        forall|other: u64| #[trigger] without(ids, id).contains(other) ==> ids.contains(other),
        forall|other: u64|
            other != id && ids.contains(other) ==> #[trigger] without(ids, id).contains(other),
    decreases ids.len(),
{
    if ids.len() > 0 {
        let rest = ids.drop_last();
        let last = ids.last();
        lemma_without(rest, id);
        assert forall|other: u64| #[trigger] without(ids, id).contains(other) implies ids.contains(
            other,
        ) by {
            if without(rest, id).contains(other) {
                let i = choose|i: int| 0 <= i < rest.len() && rest[i] == other;
                assert(ids[i] == other);
            } else {
                assert(ids[ids.len() - 1] == other);
            }
        }
        assert forall|other: u64| other != id && ids.contains(other) implies #[trigger] without(
            ids,
            id,
        ).contains(other) by {
            let i = choose|i: int| 0 <= i < ids.len() && ids[i] == other;
            if i < rest.len() {
                assert(rest[i] == other);
                assert(without(rest, id).contains(other));
                if last != id {
                    let j = choose|j: int|
                        0 <= j < without(rest, id).len() && without(rest, id)[j] == other;
                    assert(without(ids, id)[j] == other);
                }
            } else {
                assert(without(ids, id).last() == other);
            }
        }
        if last != id {
            assert(!without(ids, id).contains(id)) by {
                if without(ids, id).contains(id) {
                    let j = choose|j: int| 0 <= j < without(ids, id).len() && without(ids, id)[j] == id;
                    if j < without(rest, id).len() {
                        assert(without(rest, id)[j] == id);
                    }
                }
            }
        }
    }
}

/// Spawning keeps the executor well formed.
pub proof fn lemma_spawn_keeps_wf<C>(state: ExecutorView<C>, computation: C)
    requires
        state.wf(),
        state.next_id < u64::MAX,
    ensures
        after_spawn(state, computation).wf(),
{
    let next = after_spawn(state, computation);
    assert forall|id: u64| #[trigger] next.alive(id) implies id < next.next_id by {
        if id != state.next_id {
            assert(state.alive(id));
        }
    }
    assert forall|i: int| 0 <= i < next.ready.len() implies next.alive(#[trigger] next.ready[i]) by {
        if i < state.ready.len() {
            assert(state.alive(state.ready[i]));
        }
    }
    assert forall|id: u64| #[trigger] next.cached.contains(id) implies next.alive(id) by {
        assert(state.alive(id));
    }
    if state.running is Some {
        assert(state.alive(state.running->0));
    }
}

/// Invoking a wake handle keeps the executor well formed.
pub proof fn lemma_wake_keeps_wf<C>(state: ExecutorView<C>, id: u64)
    requires
        state.wf(),
    ensures
        after_wake(state, id).wf(),
{
    let next = after_wake(state, id);
    assert forall|other: u64| #[trigger] next.alive(other) implies other < next.next_id by {
        assert(state.alive(other));
    }
    assert forall|i: int| 0 <= i < next.ready.len() implies next.alive(#[trigger] next.ready[i]) by {
        if i < state.ready.len() {
            assert(state.alive(state.ready[i]));
        }
    }
    assert forall|other: u64| #[trigger] next.cached.contains(other) implies next.alive(other) by {
        assert(state.alive(other));
    }
}

/// Handing out the first ready task keeps the executor well formed.
pub proof fn lemma_next_ready_keeps_wf<C>(state: ExecutorView<C>)
    requires
        state.wf(),
        state.running is None,
    ensures
        after_next_ready(state).wf(),
{
    let next = after_next_ready(state);
    if state.ready.len() > 0 {
        let first = state.ready[0];
        assert(state.alive(first));
        assert forall|id: u64| #[trigger] next.alive(id) implies id < next.next_id by {
            assert(state.alive(id));
        }
        assert forall|i: int| 0 <= i < next.ready.len() implies next.alive(
            #[trigger] next.ready[i],
        ) by {
            assert(state.alive(state.ready[i + 1]));
        }
        assert forall|id: u64| #[trigger] next.cached.contains(id) implies next.alive(id) by {
            if id != first {
                assert(state.alive(id));
            }
        }
    }
}

/// Taking back the polled task keeps the executor well formed.
pub proof fn lemma_settle_keeps_wf<C>(state: ExecutorView<C>, computation: C, outcome: Poll<()>)
    requires
        state.wf(),
    ensures
        after_settle(state, computation, outcome).wf(),
{
    let next = after_settle(state, computation, outcome);
    if state.running is Some {
        let polled = state.running->0;
        assert(state.alive(polled));
        lemma_without(state.ready, polled);
        assert forall|id: u64| #[trigger] next.alive(id) implies id < next.next_id by {
            assert(state.alive(id));
        }
        assert forall|i: int| 0 <= i < next.ready.len() implies next.alive(
            #[trigger] next.ready[i],
        ) by {
            let id = next.ready[i];
            assert(next.ready.contains(id));
            assert(state.ready.contains(id));
            let j = choose|j: int| 0 <= j < state.ready.len() && state.ready[j] == id;
            assert(state.alive(state.ready[j]));
        }
        assert forall|id: u64| #[trigger] next.cached.contains(id) implies next.alive(id) by {
            assert(state.alive(id));
        }
    }
}

/// A task that completes is gone for good: it is no longer alive, ready or
/// cached; invoking a handle of it changes nothing; and every identity minted
/// from then on differs from its own.
pub proof fn lemma_completed_task_is_gone<C>(state: ExecutorView<C>, computation: C)
    requires
        state.wf(),
        state.running is Some,
    ensures
        ({
            let id = state.running->0;
            let done = after_settle(state, computation, Poll::Ready(()));
            &&& !done.alive(id)
            &&& !done.ready.contains(id)
            &&& !done.cached.contains(id)
            &&& after_wake(done, id) == done
            &&& id < done.next_id
        }),
{
    let id = state.running->0;
    assert(state.alive(id));
    lemma_without(state.ready, id);
}

/// The life of a task that completes on its first poll, spawned while no
/// other task is ready: it is the next to be handed out, and once it is taken
/// back as completed the executor holds the tasks and cached handles that it
/// held before the spawn, and nothing is ready.
pub proof fn lemma_task_completing_at_once<C>(state: ExecutorView<C>, computation: C, polled: C)
    requires
        state.wf(),
        state.running is None,
        state.ready.len() == 0,
        state.next_id < u64::MAX,
    ensures
        ({
            let id = state.next_id;
            let handed = after_next_ready(after_spawn(state, computation));
            let done = after_settle(handed, polled, Poll::Ready(()));
            &&& handed.running == Some(id)
            &&& done.tasks == state.tasks
            &&& done.cached == state.cached
            &&& done.ready == Seq::<u64>::empty()
            &&& done.running is None
            &&& !done.alive(id)
        }),
{
    let id = state.next_id;
    let spawned = after_spawn(state, computation);
    let handed = after_next_ready(spawned);
    let done = after_settle(handed, polled, Poll::Ready(()));
    assert(state.alive(id) ==> id < state.next_id);
    assert(state.cached.contains(id) ==> state.alive(id));
    assert(spawned.ready =~= seq![id]);
    assert(handed.ready =~= Seq::<u64>::empty());
    assert(without(handed.ready, id) =~= Seq::<u64>::empty());
    assert(done.tasks =~= state.tasks);
    assert(done.cached =~= state.cached);
}

/// From an interrupt to a ready task: while the handle of a live task waits
/// in the wake cell and the queue has room, the interrupt bridge hands that
/// handle out with the code that it queues, and invoking it puts the task at
/// the end of the ready queue.
pub proof fn lemma_interrupt_readies_consumer<C>(
    channel: ChannelView<WakeHandle>,
    executor: ExecutorView<C>,
    handle: WakeHandle,
    code: u8,
)
    requires
        channel.queue is Some,
        channel.queue->0.len() < QUEUE_CAPACITY,
        channel.waker == Some(handle),
        executor.alive(handle.task()@),
    ensures
        signal_outcome(channel, code) == Signal::Delivered(Some(handle)),
        after_signal(channel, code).queue == Some(channel.queue->0.push(code)),
        after_wake(executor, handle.task()@).ready == executor.ready.push(handle.task()@),
{
}

/// Owns the spawned tasks and decides which is polled next.
pub struct Executor<C> {
    tasks: BTreeMap<u64, Task<C>>,
    task_queue: VecDeque<u64>,
    waker_cache: BTreeMap<u64, WakeHandle>,
    next_id: u64,
    running: Option<u64>,
}

impl<C> View for Executor<C> {
    type V = ExecutorView<C>;

    closed spec fn view(&self) -> ExecutorView<C> {
        ExecutorView {
            tasks: Map::new(
                |id: u64| self.tasks@.contains_key(id),
                |id: u64| self.tasks@[id].computation,
            ),
            running: self.running,
            ready: self.task_queue@,
            cached: self.waker_cache@.dom(),
            next_id: self.next_id,
        }
    }
}

impl<C> Executor<C> {
    /// The view is well formed, each task is filed under its own identity and
    /// each cached handle under the identity of the task that it wakes.
    pub closed spec fn wf(&self) -> bool {
        &&& self@.wf()
        &&& forall|id: u64| #[trigger]
            self.tasks@.contains_key(id) ==> self.tasks@[id].id == TaskId(id)
        &&& forall|id: u64| #[trigger]
            self.waker_cache@.contains_key(id) ==> self.waker_cache@[id].task == TaskId(id)
    }

    /// A well-formed executor has a well-formed view.
    pub proof fn lemma_wf_view(&self)
        requires
            self.wf(),
        ensures
            self@.wf(),
    {
    }

    /// An executor without tasks.
    pub fn new() -> (executor: Self)
        ensures
            executor.wf(),
            executor@.tasks == Map::<u64, C>::empty(),
            executor@.running is None,
            executor@.ready == Seq::<u64>::empty(),
            executor@.cached == Set::<u64>::empty(),
            executor@.next_id == 0,
    {
        let executor = Executor {
            tasks: BTreeMap::new(),
            task_queue: VecDeque::new(),
            waker_cache: BTreeMap::new(),
            next_id: 0,
            running: None,
        };
        assert(executor@.tasks =~= Map::<u64, C>::empty());
        assert(executor@.cached =~= Set::<u64>::empty());
        executor
    }

    /// Mints a new identity, wraps `computation` as a task under it, and puts
    /// the task among the tasks and at the end of the ready queue.
    pub fn spawn(&mut self, computation: C) -> (id: TaskId)
        requires
            old(self).wf(),
            old(self)@.next_id < u64::MAX,
        ensures
            final(self).wf(),
            id@ == old(self)@.next_id,
            final(self)@ == after_spawn(old(self)@, computation),
    {
        let number = self.next_id;
        let id = TaskId(number);
        self.next_id = number + 1;
        self.tasks.insert(number, Task { id, computation });
        self.task_queue.push_back(number);
        proof {
            assert(self@.tasks =~= old(self)@.tasks.insert(number, computation));
            lemma_spawn_keeps_wf(old(self)@, computation);
            assert(old(self)@.alive(number) ==> number < old(self)@.next_id);
        }
        id
    }

    /// Invokes a wake handle: the task that it names joins the end of the
    /// ready queue if it is alive. The handle of a completed task does
    /// nothing.
    pub fn wake(&mut self, handle: &WakeHandle)
        requires
            old(self).wf(),
        ensures
            final(self).wf(),
            final(self)@ == after_wake(old(self)@, handle.task()@),
    {
        let number = handle.task.0;
        let waiting = self.tasks.contains_key(&number);
        let polled = match self.running {
            Some(running) => running == number,
            None => false,
        };
        if waiting || polled {
            self.task_queue.push_back(number);
        }
        proof {
            lemma_wake_keeps_wf(old(self)@, number);
            assert(self@.tasks =~= old(self)@.tasks);
        }
    }

    /// Whether no task is ready, so that the processor may halt until the
    /// next interrupt.
    pub fn is_idle(&self) -> (idle: bool)
        ensures
            idle == (self@.ready.len() == 0),
    {
        self.task_queue.len() == 0
    }

    /// Hands out the first ready task to be polled, with its wake handle,
    /// which is made and cached on the task's first poll. Gives `None` where
    /// no task is ready.
    pub fn next_ready(&mut self) -> (job: Option<(Task<C>, WakeHandle)>)
        requires
            old(self).wf(),
            old(self)@.running is None,
        ensures
            final(self).wf(),
            final(self)@ == after_next_ready(old(self)@),
            job is Some <==> old(self)@.ready.len() > 0,
            job matches Some((task, handle)) ==> {
                &&& task.task_id()@ == old(self)@.ready[0]
                &&& task.computation() == old(self)@.tasks[old(self)@.ready[0]]
                &&& handle.task() == task.task_id()
            },
    {
        let number = match self.task_queue.pop_front() {
            Some(number) => number,
            None => {
                return None;
            },
        };
        assert(old(self)@.alive(number));
        let task = match self.tasks.remove(&number) {
            Some(task) => task,
            None => {
                return None;
            },
        };
        let handle = match self.waker_cache.get(&number) {
            Some(cached) => *cached,
            None => {
                let made = WakeHandle { task: TaskId(number) };
                self.waker_cache.insert(number, made);
                made
            },
        };
        self.running = Some(number);
        proof {
            assert(self@.tasks =~= old(self)@.tasks.remove(number));
            assert(self@.cached =~= old(self)@.cached.insert(number));
            assert(self@.ready =~= old(self)@.ready.skip(1));
            lemma_next_ready_keeps_wf(old(self)@);
        }
        Some((task, handle))
    }

    /// Takes back the task that was handed out, with the outcome of its
    /// poll. A suspended task waits in the executor until its handle is
    /// invoked. A completed task is destroyed: it leaves the tasks, the ready
    /// queue and the cached handles.
    pub fn settle(&mut self, task: Task<C>, outcome: Poll<()>)
        requires
            old(self).wf(),
            old(self)@.running == Some(task.task_id()@),
        ensures
            final(self).wf(),
            final(self)@ == after_settle(old(self)@, task.computation(), outcome),
    {
        let number = task.id.0;
        self.running = None;
        proof {
            lemma_settle_keeps_wf(old(self)@, task.computation(), outcome);
        }
        match outcome {
            Poll::Pending => {
                self.tasks.insert(number, task);
                proof {
                    assert(self@.tasks =~= old(self)@.tasks.insert(number, task.computation));
                    assert(self@.cached =~= old(self)@.cached);
                }
            },
            Poll::Ready(_) => {
                self.waker_cache.remove(&number);
                self.forget(number);
                proof {
                    assert(self@.tasks =~= old(self)@.tasks);
                    assert(self@.cached =~= old(self)@.cached.remove(number));
                }
            },
        }
    }

    /// Whether a task of this identity is alive: waiting in the executor or
    /// handed out to be polled.
    pub fn has_task(&self, id: TaskId) -> (alive: bool)
        ensures
            alive == self@.alive(id@),
    {
        let number = id.0;
        let waiting = self.tasks.contains_key(&number);
        let polled = match self.running {
            Some(running) => running == number,
            None => false,
        };
        waiting || polled
    }

    /// The number of identities minted so far, which is the number of the
    /// next.
    pub fn minted(&self) -> (count: u64)
        ensures
            count == self@.next_id,
    {
        self.next_id
    }

    /// Whether a task has been handed out and not yet taken back.
    pub fn is_polling(&self) -> (polling: bool)
        ensures
            polling == self@.running is Some,
    {
        self.running.is_some()
    }

    /// Whether a wake handle is cached for this identity.
    pub fn has_cached_handle(&self, id: TaskId) -> (cached: bool)
        ensures
            cached == self@.cached.contains(id@),
    {
        let number = id.0;
        self.waker_cache.contains_key(&number)
    }

    /// Whether this identity is in the ready queue.
    pub fn is_ready(&self, id: TaskId) -> (ready: bool)
        ensures
            ready == self@.ready.contains(id@),
    {
        let number = id.0;
        let mut i: usize = 0;
        while i < self.task_queue.len()
            invariant
                number == id@,
                i <= self.task_queue@.len(),
                forall|j: int| 0 <= j < i ==> self.task_queue@[j] != number,
            decreases self.task_queue@.len() - i,
        {
            if self.task_queue[i] == number {
                assert(self.task_queue@[i as int] == number);
                return true;
            }
            i += 1;
        }
        false
    }

    /// The number of entries in the ready queue.
    pub fn ready_count(&self) -> (count: usize)
        ensures
            count == self@.ready.len(),
    {
        self.task_queue.len()
    }

    /// Takes every occurrence of `number` out of the ready queue.
    fn forget(&mut self, number: u64)
        ensures
            final(self).task_queue@ == without(old(self).task_queue@, number),
            final(self).tasks == old(self).tasks,
            final(self).waker_cache == old(self).waker_cache,
            final(self).next_id == old(self).next_id,
            final(self).running == old(self).running,
    {
        let ghost before = self.task_queue@;
        let count = self.task_queue.len();
        let mut seen: usize = 0;
        while seen < count
            invariant
                count == before.len(),
                seen <= count,
                self.task_queue@ == before.skip(seen as int) + without(
                    before.take(seen as int),
                    number,
                ),
                self.tasks == old(self).tasks,
                self.waker_cache == old(self).waker_cache,
                self.next_id == old(self).next_id,
                self.running == old(self).running,
            decreases count - seen,
        {
            let front = self.task_queue.pop_front();
            proof {
                assert(before.take(seen + 1).drop_last() =~= before.take(seen as int));
                assert(before.take(seen + 1).last() == before[seen as int]);
            }
            match front {
                Some(other) => {
                    if other != number {
                        self.task_queue.push_back(other);
                    }
                },
                None => {},
            }
            seen += 1;
            assert(self.task_queue@ =~= before.skip(seen as int) + without(
                before.take(seen as int),
                number,
            ));
        }
        assert(before.take(count as int) =~= before);
        assert(self.task_queue@ =~= without(before, number));
    }
}

} // verus!
