//! The mathematical model of the wait queues: waiters, queues as sequences,
//! and the manager as a map from key to queue.

use vstd::prelude::*;
use crate::key::FutexKey;

verus! {

/// A blocked task, as the queue manager holds it.
#[derive(Clone, Copy, Debug, PartialEq, Eq, Structural)]
pub struct Waiter {
    /// The futex that the task waits on.
    pub key: FutexKey,
    /// The tag that a wake's bitset must intersect.
    pub bitset: u32,
    /// The handle by which the scheduler suspends and resumes the task.
    pub task: u64,
    /// Monotonic time at which the waiter was queued, in nanoseconds.
    pub enqueued_at: u64,
}

/// All queues of one address-space table: key to FIFO sequence of waiters.
pub type QueueMap = Map<FutexKey, Seq<Waiter>>;

/// A wake with `bitset` affects `w`: the two share at least one set bit.
pub open spec fn intersects(w: Waiter, bitset: u32) -> bool {
    w.bitset & bitset != 0
}

/// The test "a wake with `bitset` affects this waiter".
pub open spec fn intersecting(bitset: u32) -> spec_fn(Waiter) -> bool {
    |w: Waiter| intersects(w, bitset)
}

/// The test "a wake with `bitset` does not affect this waiter".
pub open spec fn disjoint_from(bitset: u32) -> spec_fn(Waiter) -> bool {
    |w: Waiter| !intersects(w, bitset)
}

/// The test "this waiter is none of `gone`".
pub open spec fn not_in(gone: Seq<Waiter>) -> spec_fn(Waiter) -> bool {
    |w: Waiter| !gone.contains(w)
}

/// The test "this waiter does not belong to `task`".
pub open spec fn not_task(task: u64) -> spec_fn(Waiter) -> bool {
    |w: Waiter| w.task != task
}

/// The waiters of `q` that a wake with `bitset` may resume, in queue order.
pub open spec fn matching(q: Seq<Waiter>, bitset: u32) -> Seq<Waiter> {
    q.filter(intersecting(bitset))
}

/// The waiters that `wake(max, bitset)` resumes: the first `max` matching ones.
pub open spec fn woken_by(q: Seq<Waiter>, max: nat, bitset: u32) -> Seq<Waiter> {
    let c = matching(q, bitset);
    if c.len() <= max {
        c
    } else {
        c.take(max as int)
    }
}

/// `q` without the waiters listed in `gone`, order kept.
pub open spec fn without(q: Seq<Waiter>, gone: Seq<Waiter>) -> Seq<Waiter> {
    q.filter(not_in(gone))
}

/// What `wake(max, bitset)` leaves in the queue.
pub open spec fn left_by(q: Seq<Waiter>, max: nat, bitset: u32) -> Seq<Waiter> {
    without(q, woken_by(q, max, bitset))
}

/// `q` without the waiter of `task`, order kept.
pub open spec fn without_task(q: Seq<Waiter>, task: u64) -> Seq<Waiter> {
    q.filter(not_task(task))
}

/// `w` as it stands in the queue of `key`.
pub open spec fn rekey(w: Waiter, key: FutexKey) -> Waiter {
    Waiter { key, ..w }
}

/// The waiters of `s`, each moved to `key`.
pub open spec fn rekeyed(s: Seq<Waiter>, key: FutexKey) -> Seq<Waiter> {
    Seq::new(s.len(), |i: int| rekey(s[i], key))
}

/// No two waiters of `s` belong to the same task.
pub open spec fn distinct_tasks(s: Seq<Waiter>) -> bool {
    forall|i: int, j: int| 0 <= i < j < s.len() ==> (#[trigger] s[i]).task != (#[trigger] s[j]).task
}

/// Some waiter of `s` belongs to `task`.
pub open spec fn has_task(s: Seq<Waiter>, task: u64) -> bool {
    exists|i: int| 0 <= i < s.len() && (#[trigger] s[i]).task == task
}

/// The queue of `key`: empty where the map holds none.
pub open spec fn queue_at(m: QueueMap, key: FutexKey) -> Seq<Waiter> {
    if m.dom().contains(key) {
        m[key]
    } else {
        Seq::empty()
    }
}

/// `m` with the queue of `key` replaced by `q`; an empty queue is discarded.
pub open spec fn set_queue(m: QueueMap, key: FutexKey, q: Seq<Waiter>) -> QueueMap {
    if q.len() == 0 {
        m.remove(key)
    } else {
        m.insert(key, q)
    }
}

/// `task` waits in some queue of `m`.
pub open spec fn queued(m: QueueMap, task: u64) -> bool {
    exists|k: FutexKey| #[trigger] m.dom().contains(k) && has_task(m[k], task)
}

/// What holds of every table: no queue is empty, each waiter sits in the
/// queue of its own key, and no task waits twice.
pub open spec fn valid_queues(m: QueueMap) -> bool {
    &&& forall|k: FutexKey| #[trigger] m.dom().contains(k) ==> m[k].len() > 0
    &&& forall|k: FutexKey, i: int|
        m.dom().contains(k) && 0 <= i < m[k].len() ==> (#[trigger] m[k][i]).key == k
    &&& forall|k: FutexKey| #[trigger] m.dom().contains(k) ==> distinct_tasks(m[k])
    &&& forall|k1: FutexKey, k2: FutexKey, i1: int, i2: int|
        m.dom().contains(k1) && m.dom().contains(k2) && k1 != k2 && 0 <= i1 < m[k1].len() && 0
            <= i2 < m[k2].len() ==> (#[trigger] m[k1][i1]).task != (#[trigger] m[k2][i2]).task
}

/// How many waiters a requeue moves out of what the wake left: at most `max_move`.
pub open spec fn move_count(after: Seq<Waiter>, max_move: nat) -> nat {
    if after.len() <= max_move {
        after.len()
    } else {
        max_move
    }
}

/// The table after moving the first `n` waiters of `src` to the tail of `dst`.
pub open spec fn moved_table(m: QueueMap, src: FutexKey, dst: FutexKey, n: nat) -> QueueMap {
    let q = queue_at(m, src);
    set_queue(
        set_queue(m, src, q.skip(n as int)),
        dst,
        queue_at(m, dst) + rekeyed(q.take(n as int), dst),
    )
}

/// The table after `requeue`: first the wake at `src`, then the move of up
/// to `max_move` of the waiters that are left to the tail of `dst`. With
/// `src == dst` nothing moves.
pub open spec fn requeue_table(
    m: QueueMap,
    src: FutexKey,
    dst: FutexKey,
    max_move: nat,
    max_wake: nat,
    bitset: u32,
) -> QueueMap {
    let after = left_by(queue_at(m, src), max_wake, bitset);
    let m1 = set_queue(m, src, after);
    if src == dst {
        m1
    } else {
        moved_table(m1, src, dst, move_count(after, max_move))
    }
}

/// How many waiters `requeue` moves.
pub open spec fn requeue_moved(
    m: QueueMap,
    src: FutexKey,
    dst: FutexKey,
    max_move: nat,
    max_wake: nat,
    bitset: u32,
) -> nat {
    if src == dst {
        0
    } else {
        move_count(left_by(queue_at(m, src), max_wake, bitset), max_move)
    }
}

/// `m` with the waiter of `task` taken out of whatever queue holds it.
pub open spec fn drop_task(m: QueueMap, task: u64) -> QueueMap {
    Map::new(
        |k: FutexKey| m.dom().contains(k) && without_task(m[k], task).len() > 0,
        |k: FutexKey| without_task(m[k], task),
    )
}

/// `w` is a waiter of the table.
pub open spec fn in_table(m: QueueMap, w: Waiter) -> bool {
    m.dom().contains(w.key) && m[w.key].contains(w)
}

/// The waiter of `task` in `m`; meaningful where the task is queued.
pub open spec fn waiter_of(m: QueueMap, task: u64) -> Waiter {
    choose|w: Waiter| w.task == task && in_table(m, w)
}

/// The table after a task has started to wait: its waiter `w` stands at the
/// tail of the queue of `w.key`, and nowhere else.
pub open spec fn wait_table(m: QueueMap, w: Waiter) -> QueueMap {
    let m0 = drop_task(m, w.task);
    m0.insert(w.key, queue_at(m0, w.key).push(w))
}

/// A wait queued at `enqueued_at` with relative `timeout` has reached its
/// deadline at time `now`. Without a timeout it never does.
pub open spec fn expired(enqueued_at: u64, timeout: Option<u64>, now: u64) -> bool {
    match timeout {
        Some(d) => now - enqueued_at >= d,
        None => false,
    }
}

} // verus!
