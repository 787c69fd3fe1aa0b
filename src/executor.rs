//! Decisions of the cooperative task executor.
//!
//! The executor keeps the table of spawned tasks, the queue of ids that are
//! ready to be polled and one cached waker per parked task. Polling itself
//! happens outside: `next_ready` hands a ready task out of the table, the
//! caller polls it, and `finish_poll` either drops it (it completed) or parks
//! it again until its waker re-enqueues its id.
use vstd::prelude::*;
use std::collections::BTreeMap;
use crossbeam_queue::ArrayQueue;
use crate::queue::{id_queue_capacity, ids_empty, ids_full, new_id_queue, pop_id, push_id, queued_ids};

verus! {

/// Capacity of the ready queue: 8 KiB divided by the 56 bytes of an executor.
pub const MAX_PROCESSES: usize = 8192 / 56;

/// Identifier of a task; ids are handed out in increasing order.
#[derive(Clone, Copy, Debug, PartialEq, Eq, PartialOrd, Ord, Hash, Structural)]
pub struct TaskId(pub u64);

/// Source of fresh task ids.
pub struct TaskIds {
    next: u64,
}

impl TaskIds {
    /// The next id this source will hand out.
    pub closed spec fn upcoming(&self) -> u64 {
        self.next
    }

    /// Starts at id 0.
    pub fn new() -> (r: Self)
        ensures
            r.upcoming() == 0,
    {
        TaskIds { next: 0 }
    }

    /// A fresh id; the counter wraps around after `u64::MAX`.
    pub fn next_id(&mut self) -> (r: TaskId)
        ensures
            r == TaskId(old(self).upcoming()),
            final(self).upcoming() == old(self).upcoming().wrapping_add(1),
    {
        let id = self.next;
        self.next = self.next.wrapping_add(1);
        TaskId(id)
    }
}

/// What a poll of a task returned.
#[derive(Clone, Copy, Debug, PartialEq, Eq, Structural)]
pub enum PollOutcome {
    /// The task completed.
    Ready,
    /// The task waits for its waker.
    Pending,
}

/// What the executor does when it has drained its ready queue.
#[derive(Clone, Copy, Debug, PartialEq, Eq, Structural)]
pub enum IdleAction {
    /// Nothing is ready: halt until the next interrupt.
    Sleep,
    /// Some id was queued meanwhile: run again at once.
    Resume,
}

/// The ready queue after a waker enqueues `id`: the id is appended, or
/// dropped when the queue is full.
pub open spec fn wake_spec(queue: Seq<u64>, capacity: nat, id: u64) -> Seq<u64> {
    if queue.len() < capacity {
        queue.push(id)
    } else {
        queue
    }
}

/// Pops ids from the front of `queue`, skipping those of tasks that are no
/// longer live, until one of a live task comes out: that id and the queue
/// left behind.
pub open spec fn next_ready_spec(queue: Seq<u64>, live: Set<u64>) -> (Option<u64>, Seq<u64>)
    decreases queue.len(),
{
    if queue.len() == 0 {
        (None, queue)
    } else if live.contains(queue[0]) {
        (Some(queue[0]), queue.drop_first())
    } else {
        next_ready_spec(queue.drop_first(), live)
    }
}

/// Index of the first id at or after `i` whose task is live, or the queue
/// length.
pub open spec fn first_live_from(queue: Seq<u64>, live: Set<u64>, i: int) -> int
    decreases queue.len() - i,
{
    if i < 0 || i >= queue.len() {
        queue.len() as int
    } else if live.contains(queue[i]) {
        i
    } else {
        first_live_from(queue, live, i + 1)
    }
}

/// The live tasks after task `id` was polled: it stays when its poll
/// returned pending (it is in `pending`), and is dropped when it completed.
pub open spec fn after_poll(live: Set<u64>, pending: Set<u64>, id: u64) -> Set<u64> {
    if pending.contains(id) {
        live
    } else {
        live.remove(id)
    }
}

/// The ids handed out by up to `steps` calls of `next_ready` while nothing
/// is woken: the tasks in `pending` return pending when polled, all others
/// complete.
pub open spec fn poll_pass(queue: Seq<u64>, live: Set<u64>, pending: Set<u64>, steps: nat) -> Seq<
    u64,
>
    decreases steps,
{
    if steps == 0 {
        Seq::empty()
    } else {
        match next_ready_spec(queue, live).0 {
            None => Seq::empty(),
            Some(id) => seq![id] + poll_pass(
                next_ready_spec(queue, live).1,
                after_poll(live, pending, id),
                pending,
                (steps - 1) as nat,
            ),
        }
    }
}

proof fn lemma_first_live(queue: Seq<u64>, live: Set<u64>, i: int)
    requires
        0 <= i <= queue.len(),
    ensures
        i <= first_live_from(queue, live, i) <= queue.len(),
        first_live_from(queue, live, i) < queue.len() ==> live.contains(
            queue[first_live_from(queue, live, i)],
        ),
        forall|j: int|
            i <= j < first_live_from(queue, live, i) ==> !live.contains(#[trigger] queue[j]),
        next_ready_spec(queue.subrange(i, queue.len() as int), live) == (if first_live_from(
            queue,
            live,
            i,
        ) < queue.len() {
            (
                Some(queue[first_live_from(queue, live, i)]),
                queue.subrange(first_live_from(queue, live, i) + 1, queue.len() as int),
            )
        } else {
            (None, Seq::<u64>::empty())
        }),
    decreases queue.len() - i,
{
    let rest = queue.subrange(i, queue.len() as int);
    if i < queue.len() {
        assert(rest[0] == queue[i]);
        assert(rest.drop_first() =~= queue.subrange(i + 1, queue.len() as int));
        if !live.contains(queue[i]) {
            lemma_first_live(queue, live, i + 1);
        }
    } else {
        assert(rest =~= Seq::<u64>::empty());
    }
}

proof fn lemma_order_in_pass(
    q: Seq<u64>,
    live: Set<u64>,
    pending: Set<u64>,
    a: u64,
    b: u64,
    i: int,
    n: nat,
)
    requires
        a != b,
        live.contains(a),
        0 <= i < q.len(),
        q[i] == a,
        forall|j: int| 0 <= j <= i ==> q[j] != b,
    ensures
        forall|j: int|
            0 <= j < poll_pass(q, live, pending, n).len() && #[trigger] poll_pass(
                q,
                live,
                pending,
                n,
            )[j] == b ==> exists|k: int| 0 <= k < j && poll_pass(q, live, pending, n)[k] == a,
    decreases n,
{
    if n > 0 {
        lemma_first_live(q, live, 0);
        assert(q.subrange(0, q.len() as int) =~= q);
        let f = first_live_from(q, live, 0);
        let p = poll_pass(q, live, pending, n);
        if q[f] == a {
            assert forall|j: int| 0 <= j < p.len() && #[trigger] p[j] == b implies exists|k: int|
                0 <= k < j && p[k] == a by {
                assert(p[0] == a);
            }
        } else {
            assert(f < i);
            let id = q[f];
            let q2 = q.subrange(f + 1, q.len() as int);
            let live2 = after_poll(live, pending, id);
            assert(q2[i - f - 1] == a);
            lemma_order_in_pass(q2, live2, pending, a, b, i - f - 1, (n - 1) as nat);
            let tail_pass = poll_pass(q2, live2, pending, (n - 1) as nat);
            assert(p == seq![id] + tail_pass);
            assert forall|j: int| 0 <= j < p.len() && #[trigger] p[j] == b implies exists|k: int|
                0 <= k < j && p[k] == a by {
                assert(j >= 1);
                assert(tail_pass[j - 1] == b);
                let k2 = choose|k: int| 0 <= k < j - 1 && tail_pass[k] == a;
                assert(p[k2 + 1] == a);
            }
        }
    }
}

/// Spawning task `a` and then task `b`, with fresh ids, keeps their order:
/// in a pass over the ready queue, `b` is handed out only after `a` was.
pub proof fn lemma_spawn_order_kept(
    queue: Seq<u64>,
    live: Set<u64>,
    pending: Set<u64>,
    a: u64,
    b: u64,
    steps: nat,
)
    requires
        a != b,
        !live.contains(a),
        !live.contains(b),
        !queue.contains(b),
    ensures
        ({
            let p = poll_pass(queue.push(a).push(b), live.insert(a).insert(b), pending, steps);
            forall|j: int|
                0 <= j < p.len() && #[trigger] p[j] == b ==> exists|k: int| 0 <= k < j && p[k] == a
        }),
{
    let q = queue.push(a).push(b);
    assert forall|j: int| 0 <= j <= queue.len() implies q[j] != b by {
        if j < queue.len() {
            assert(q[j] == queue[j]);
        }
    }
    lemma_order_in_pass(q, live.insert(a).insert(b), pending, a, b, queue.len() as int, steps);
}

proof fn lemma_pass_avoids(q: Seq<u64>, live: Set<u64>, pending: Set<u64>, t: u64, n: nat)
    requires
        !q.contains(t),
    ensures
        !poll_pass(q, live, pending, n).contains(t),
    decreases n,
{
    if n > 0 {
        lemma_first_live(q, live, 0);
        assert(q.subrange(0, q.len() as int) =~= q);
        let f = first_live_from(q, live, 0);
        if f < q.len() {
            let q2 = q.subrange(f + 1, q.len() as int);
            assert(!q2.contains(t)) by {
                if q2.contains(t) {
                    let k = choose|k: int| 0 <= k < q2.len() && q2[k] == t;
                    assert(q[k + f + 1] == t);
                }
            }
            let live2 = after_poll(live, pending, q[f]);
            lemma_pass_avoids(q2, live2, pending, t, (n - 1) as nat);
            let p = poll_pass(q, live, pending, n);
            let tail_pass = poll_pass(q2, live2, pending, (n - 1) as nat);
            assert(p == seq![q[f]] + tail_pass);
            assert(q[f] != t);
            if p.contains(t) {
                let k = choose|k: int| 0 <= k < p.len() && p[k] == t;
                assert(tail_pass[k - 1] == t);
            }
        }
    }
}

proof fn lemma_handed_out_once(
    q: Seq<u64>,
    live: Set<u64>,
    pending: Set<u64>,
    id: u64,
    i: int,
    n: nat,
)
    requires
        live.contains(id),
        0 <= i < q.len(),
        q[i] == id,
        forall|j: int| 0 <= j < q.len() && j != i ==> q[j] != id,
        n > i,
    ensures
        poll_pass(q, live, pending, n).contains(id),
        forall|j1: int, j2: int|
            0 <= j1 < poll_pass(q, live, pending, n).len() && 0 <= j2 < poll_pass(
                q,
                live,
                pending,
                n,
            ).len() && #[trigger] poll_pass(q, live, pending, n)[j1] == id && #[trigger] poll_pass(
                q,
                live,
                pending,
                n,
            )[j2] == id ==> j1 == j2,
    decreases i,
{
    lemma_first_live(q, live, 0);
    assert(q.subrange(0, q.len() as int) =~= q);
    let f = first_live_from(q, live, 0);
    let p = poll_pass(q, live, pending, n);
    let q2 = q.subrange(f + 1, q.len() as int);
    let live2 = after_poll(live, pending, q[f]);
    let tail_pass = poll_pass(q2, live2, pending, (n - 1) as nat);
    assert(p == seq![q[f]] + tail_pass);
    if f == i {
        assert(!q2.contains(id)) by {
            if q2.contains(id) {
                let k = choose|k: int| 0 <= k < q2.len() && q2[k] == id;
                assert(q[k + f + 1] == id);
            }
        }
        lemma_pass_avoids(q2, live2, pending, id, (n - 1) as nat);
        assert(p[0] == id);
        assert forall|j1: int, j2: int|
            0 <= j1 < p.len() && 0 <= j2 < p.len() && #[trigger] p[j1] == id && #[trigger] p[j2]
                == id implies j1 == j2 by {
            if j1 > 0 {
                assert(tail_pass[j1 - 1] == id);
            }
            if j2 > 0 {
                assert(tail_pass[j2 - 1] == id);
            }
        }
    } else {
        assert(q2[i - f - 1] == id);
        lemma_handed_out_once(q2, live2, pending, id, i - f - 1, (n - 1) as nat);
        let k = choose|k: int| 0 <= k < tail_pass.len() && tail_pass[k] == id;
        assert(p[k + 1] == id);
        assert forall|j1: int, j2: int|
            0 <= j1 < p.len() && 0 <= j2 < p.len() && #[trigger] p[j1] == id && #[trigger] p[j2]
                == id implies j1 == j2 by {
            assert(j1 > 0 && j2 > 0);
            assert(tail_pass[j1 - 1] == id && tail_pass[j2 - 1] == id);
        }
    }
}

/// Waking a parked task once, when its id is not queued, puts the id in the
/// ready queue exactly once, at the tail; the next pass over the queue, with
/// no further wakes, hands the task out exactly once, whether that poll
/// completes it or leaves it pending again.
pub proof fn lemma_single_wake_requeues_once(
    queue: Seq<u64>,
    capacity: nat,
    live: Set<u64>,
    pending: Set<u64>,
    id: u64,
)
    requires
        live.contains(id),
        !queue.contains(id),
        queue.len() < capacity,
    ensures
        ({
            let q = wake_spec(queue, capacity, id);
            let p = poll_pass(q, live, pending, q.len());
            &&& q.len() == queue.len() + 1
            &&& q.last() == id
            &&& forall|j: int| 0 <= j < queue.len() ==> #[trigger] q[j] != id
            &&& p.contains(id)
            &&& forall|j1: int, j2: int|
                0 <= j1 < p.len() && 0 <= j2 < p.len() && #[trigger] p[j1] == id && #[trigger] p[j2]
                    == id ==> j1 == j2
        }),
{
    let q = wake_spec(queue, capacity, id);
    assert forall|j: int| 0 <= j < q.len() && j != queue.len() implies #[trigger] q[j] != id by {
        assert(q[j] == queue[j]);
    }
    lemma_handed_out_once(q, live, pending, id, queue.len() as int, q.len());
}

/// A wake that reaches the ready queue before the idle check makes the
/// check see a non-empty queue, so the executor resumes instead of sleeping.
pub proof fn lemma_wake_prevents_sleep(queue: Seq<u64>, capacity: nat, id: u64)
    requires
        queue.len() < capacity,
    ensures
        wake_spec(queue, capacity, id).len() != 0,
{
}

/// Table of tasks `T`, ready queue and cached wakers `W`.
pub struct Executor<T, W> {
    tasks: BTreeMap<u64, T>,
    task_queue: ArrayQueue<u64>,
    waker_cache: BTreeMap<u64, W>,
}

impl<T, W> Executor<T, W> {
    /// Spawned tasks that have not completed and are not being polled.
    pub closed spec fn tasks(&self) -> Map<u64, T> {
        self.tasks@
    }

    /// Ids waiting to be polled, oldest first.
    pub closed spec fn queue(&self) -> Seq<u64> {
        queued_ids(self.task_queue)
    }

    /// Capacity of the ready queue.
    pub closed spec fn capacity(&self) -> nat {
        id_queue_capacity(self.task_queue)
    }

    /// The waker built for each parked task.
    pub closed spec fn wakers(&self) -> Map<u64, W> {
        self.waker_cache@
    }

    /// An executor with no tasks and an empty ready queue.
    pub fn new() -> (r: Self)
        ensures
            r.tasks() == Map::<u64, T>::empty(),
            r.wakers() == Map::<u64, W>::empty(),
            r.queue() == Seq::<u64>::empty(),
            r.capacity() == MAX_PROCESSES,
    {
        Executor {
            tasks: BTreeMap::new(),
            task_queue: new_id_queue(MAX_PROCESSES),
            waker_cache: BTreeMap::new(),
        }
    }

    /// Whether `spawn(id, _)` may be called: the id is not in use and the
    /// ready queue has room.
    pub fn can_spawn(&self, id: TaskId) -> (r: bool)
        ensures
            r == (!self.tasks().contains_key(id.0) && self.queue().len() < self.capacity()),
    {
        !self.tasks.contains_key(&id.0) && !ids_full(&self.task_queue)
    }

    /// Registers `task` under `id` and queues it as ready.
    pub fn spawn(&mut self, id: TaskId, task: T)
        requires
            !old(self).tasks().contains_key(id.0),
            old(self).queue().len() < old(self).capacity(),
        ensures
            final(self).tasks() == old(self).tasks().insert(id.0, task),
            final(self).queue() == old(self).queue().push(id.0),
            final(self).capacity() == old(self).capacity(),
            final(self).wakers() == old(self).wakers(),
    {
        self.tasks.insert(id.0, task);
        let _ = push_id(&mut self.task_queue, id.0);
    }

    /// What a waker of task `id` does: queue the id again. When the queue is
    /// full the id is dropped and `false` comes back.
    pub fn wake(&mut self, id: TaskId) -> (r: bool)
        ensures
            final(self).queue() == wake_spec(old(self).queue(), old(self).capacity(), id.0),
            r == (old(self).queue().len() < old(self).capacity()),
            final(self).capacity() == old(self).capacity(),
            final(self).tasks() == old(self).tasks(),
            final(self).wakers() == old(self).wakers(),
    {
        match push_id(&mut self.task_queue, id.0) {
            Ok(()) => true,
            Err(_) => false,
        }
    }

    /// Takes the next ready task out of the table, with its cached waker if
    /// one was built. Ids of tasks that already completed are skipped.
    /// `None` once the ready queue is drained.
    pub fn next_ready(&mut self) -> (r: Option<(TaskId, T, Option<W>)>)
        ensures
            final(self).queue() == next_ready_spec(old(self).queue(), old(self).tasks().dom()).1,
            final(self).capacity() == old(self).capacity(),
            match next_ready_spec(old(self).queue(), old(self).tasks().dom()).0 {
                None => {
                    &&& r.is_none()
                    &&& final(self).tasks() == old(self).tasks()
                    &&& final(self).wakers() == old(self).wakers()
                },
                Some(id) => {
                    &&& r matches Some((tid, task, waker)) && tid == TaskId(id) && task == old(
                        self,
                    ).tasks()[id] && waker == (if old(self).wakers().contains_key(id) {
                        Some(old(self).wakers()[id])
                    } else {
                        None
                    })
                    &&& final(self).tasks() == old(self).tasks().remove(id)
                    &&& final(self).wakers() == old(self).wakers().remove(id)
                },
            },
    {
        loop
            invariant
                self.capacity() == old(self).capacity(),
                self.tasks() == old(self).tasks(),
                self.wakers() == old(self).wakers(),
                next_ready_spec(self.queue(), self.tasks().dom()) == next_ready_spec(
                    old(self).queue(),
                    old(self).tasks().dom(),
                ),
            decreases self.queue().len(),
        {
            let id = match pop_id(&mut self.task_queue) {
                Some(id) => id,
                None => return None,
            };
            match self.tasks.remove(&id) {
                Some(task) => {
                    let waker = self.waker_cache.remove(&id);
                    return Some((TaskId(id), task, waker));
                },
                None => {},
            }
        }
    }

    /// Ends the poll of a task that `next_ready` handed out: a completed
    /// task is dropped together with its waker, a pending one is parked
    /// again with the waker it was polled with.
    pub fn finish_poll(&mut self, id: TaskId, task: T, waker: W, outcome: PollOutcome)
        ensures
            final(self).queue() == old(self).queue(),
            final(self).capacity() == old(self).capacity(),
            outcome == PollOutcome::Ready ==> {
                &&& final(self).tasks() == old(self).tasks()
                &&& final(self).wakers() == old(self).wakers()
            },
            outcome == PollOutcome::Pending ==> {
                &&& final(self).tasks() == old(self).tasks().insert(id.0, task)
                &&& final(self).wakers() == old(self).wakers().insert(id.0, waker)
            },
    {
        match outcome {
            PollOutcome::Ready => {},
            PollOutcome::Pending => {
                self.tasks.insert(id.0, task);
                self.waker_cache.insert(id.0, waker);
            },
        }
    }

    /// The idle decision, taken with interrupts disabled: sleep only when
    /// the ready queue is empty.
    pub fn idle_action(&self) -> (r: IdleAction)
        ensures
            r == IdleAction::Sleep <==> self.queue().len() == 0,
    {
        if ids_empty(&self.task_queue) {
            IdleAction::Sleep
        } else {
            IdleAction::Resume
        }
    }

    /// Number of tasks in the table.
    pub fn task_count(&self) -> (r: usize)
        ensures
            r == self.tasks().len(),
    {
        self.tasks.len()
    }
}

} // verus!
