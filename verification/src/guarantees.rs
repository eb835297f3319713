//! What the engine guarantees across calls, proved over the model that the
//! operations' contracts are stated in.

use vstd::prelude::*;
use crate::errors::SyscallError;
use crate::futex::{
    decoded, low32, robust_get_result, robust_set_result, robust_set_table, FutexCall,
    FUTEX_CMD_MASK, FUTEX_CMP_REQUEUE, FUTEX_WAKE_OP,
};
use crate::key::FutexKey;
use crate::lemmas::{
    lemma_drop_absent, lemma_drop_present, lemma_filter_all, lemma_filter_sub, lemma_waiter_of,
};
use crate::model::{
    disjoint_from, distinct_tasks, drop_task, has_task, intersecting, intersects, left_by,
    matching, not_in, not_task, queue_at, queued, rekey, rekeyed, requeue_table, set_queue,
    valid_queues, waiter_of, without_task, woken_by, QueueMap, Waiter,
};
use crate::robust::{robust_list_len, FutexRobustList};
use crate::waitwake::wait_status;

verus! {

proof fn lemma_filter_twice(s: Seq<Waiter>, p: spec_fn(Waiter) -> bool, r: spec_fn(Waiter) -> bool)
    requires
        forall|i: int| 0 <= i < s.len() && r(#[trigger] s[i]) ==> p(s[i]),
    ensures
        s.filter(p).filter(r) == s.filter(r),
    decreases s.len(),
{
    reveal(Seq::filter);
    if s.len() > 0 {
        let rest = s.drop_last();
        let last = s.last();
        assert forall|i: int| 0 <= i < rest.len() && r(#[trigger] rest[i]) implies p(rest[i]) by {
            assert(rest[i] == s[i]);
        }
        lemma_filter_twice(rest, p, r);
        assert(r(s[s.len() - 1]) ==> p(s[s.len() - 1]));
        if p(last) {
            rest.filter(p).lemma_filter_push(last, r);
        }
    }
}

/// No wakeup is lost: a waiter that is queued when a wake runs, whose bitset
/// intersects the wake's, is resumed by it, provided the wake's count is not
/// used up by matching waiters queued before it.
pub proof fn lemma_wake_reaches_waiter(q: Seq<Waiter>, i: int, max: nat, bitset: u32)
    requires
        0 <= i < q.len(),
        intersects(q[i], bitset),
        matching(q.take(i), bitset).len() < max,
    ensures
        woken_by(q, max, bitset).contains(q[i]),
{
    let head = q.take(i);
    let tail = q.skip(i + 1);
    let p = intersecting(bitset);
    assert(q =~= head.push(q[i]) + tail);
    head.lemma_filter_push(q[i], p);
    Seq::filter_distributes_over_add(head.push(q[i]), tail, p);
    let c = matching(q, bitset);
    let at = matching(head, bitset).len() as int;
    assert(c[at] == q[i]);
    if c.len() <= max {
        assert(woken_by(q, max, bitset)[at] == q[i]);
    } else {
        assert(c.take(max as int)[at] == q[i]);
    }
}

/// A wake with no limit to speak of resumes every waiter that it matches.
pub proof fn lemma_wake_all(q: Seq<Waiter>, max: nat, bitset: u32)
    requires
        q.len() <= max,
    ensures
        woken_by(q, max, bitset) == matching(q, bitset),
{
    q.lemma_filter_len(intersecting(bitset));
}

/// A wake leaves alone whoever starts to wait after it: the task is not
/// among the woken, and its waiter then stands at the tail of the queue.
pub proof fn lemma_later_waiter_untouched(
    m: QueueMap,
    key: FutexKey,
    w: Waiter,
    max: nat,
    bitset: u32,
)
    requires
        valid_queues(m),
        !queued(m, w.task),
    ensures
        !has_task(woken_by(queue_at(m, key), max, bitset), w.task),
        ({
            let after = set_queue(m, key, left_by(queue_at(m, key), max, bitset));
            let then = after.insert(key, queue_at(after, key).push(rekey(w, key)));
            queue_at(then, key).last() == rekey(w, key)
        }),
{
    let q = queue_at(m, key);
    let woken = woken_by(q, max, bitset);
    if has_task(woken, w.task) {
        let j = choose|j: int| 0 <= j < woken.len() && (#[trigger] woken[j]).task == w.task;
        assert(woken[j] == matching(q, bitset)[j]);
        assert(m.dom().contains(key));
        assert(distinct_tasks(q));
        lemma_filter_sub(q, intersecting(bitset));
        assert(q.contains(matching(q, bitset)[j]));
        let p = choose|p: int| 0 <= p < q.len() && q[p] == woken[j];
        assert(m[key][p].task == w.task);
        assert(has_task(m[key], w.task));
    }
}

/// Bitset filtering: a wake resumes at most as many waiters as asked, each
/// of them a waiter of the queue whose bitset intersects the wake's; the
/// waiters whose bitset is disjoint all stay, in their order.
pub proof fn lemma_wake_filters_by_bitset(q: Seq<Waiter>, max: nat, bitset: u32)
    requires
        distinct_tasks(q),
    ensures
        woken_by(q, max, bitset).len() <= max,
        forall|j: int|
            0 <= j < woken_by(q, max, bitset).len() ==> intersects(
                #[trigger] woken_by(q, max, bitset)[j],
                bitset,
            ) && q.contains(woken_by(q, max, bitset)[j]),
        left_by(q, max, bitset).filter(disjoint_from(bitset)) == q.filter(disjoint_from(bitset)),
        distinct_tasks(left_by(q, max, bitset)),
        forall|i: int|
            0 <= i < q.len() ==> (left_by(q, max, bitset).contains(#[trigger] q[i]) <==> !woken_by(
                q,
                max,
                bitset,
            ).contains(q[i])),
{
    let woken = woken_by(q, max, bitset);
    let c = matching(q, bitset);
    lemma_filter_sub(q, intersecting(bitset));
    assert forall|j: int| 0 <= j < woken.len() implies intersects(#[trigger] woken[j], bitset)
        && q.contains(woken[j]) by {
        assert(woken[j] == c[j]);
        assert(intersecting(bitset)(c[j]));
    }
    assert forall|i: int| 0 <= i < q.len() && disjoint_from(bitset)(#[trigger] q[i]) implies not_in(
        woken,
    )(q[i]) by {
        if woken.contains(q[i]) {
            let j = choose|j: int| 0 <= j < woken.len() && woken[j] == q[i];
            assert(intersects(woken[j], bitset));
        }
    }
    lemma_filter_twice(q, not_in(woken), disjoint_from(bitset));
    lemma_filter_sub(q, not_in(woken));
    let left = left_by(q, max, bitset);
    assert forall|i: int| 0 <= i < q.len() implies (left.contains(#[trigger] q[i])
        <==> !woken.contains(q[i])) by {
        if left.contains(q[i]) {
            let j = choose|j: int| 0 <= j < left.len() && left[j] == q[i];
            assert(not_in(woken)(left[j]));
        }
    }
}

/// A wait times out no earlier than its deadline: the status is `TimedOut`
/// only for a task that is still queued, with a timeout, once the time since
/// it was queued has reached that timeout.
pub proof fn lemma_timeout_not_early(
    m: QueueMap,
    task: u64,
    timeout: Option<u64>,
    now: u64,
    cancelled: bool,
)
    requires
        valid_queues(m),
        wait_status(m, task, timeout, now, cancelled) is TimedOut,
    ensures
        queued(m, task),
        timeout is Some,
        now >= waiter_of(m, task).enqueued_at + timeout->0,
{
}

/// A wait ends once: when its waiter has been taken off, by a wake or by the
/// wait itself, the task is queued nowhere, taking it off again changes
/// nothing, and from then on the wait counts as woken, deadline or not.
pub proof fn lemma_wait_ends_once(
    m: QueueMap,
    task: u64,
    timeout: Option<u64>,
    now: u64,
    cancelled: bool,
)
    requires
        valid_queues(m),
    ensures
        valid_queues(drop_task(m, task)),
        !queued(drop_task(m, task), task),
        drop_task(drop_task(m, task), task) == drop_task(m, task),
        wait_status(drop_task(m, task), task, timeout, now, cancelled) is Woken,
        !queued(m, task) ==> wait_status(m, task, timeout, now, cancelled) is Woken,
{
    if queued(m, task) {
        lemma_waiter_of(m, task);
        lemma_drop_present(m, waiter_of(m, task));
    } else {
        lemma_drop_absent(m, task);
    }
    lemma_drop_absent(drop_task(m, task), task);
}

/// Requeue keeps order: with nothing to wake, the first waiters of `src`, up
/// to `max_move`, go to the tail of `dst` in the order they had, under the
/// key of `dst`, and the others stay at `src` in theirs.
pub proof fn lemma_requeue_keeps_order(
    m: QueueMap,
    src: FutexKey,
    dst: FutexKey,
    max_move: nat,
    bitset: u32,
)
    requires
        valid_queues(m),
        src != dst,
    ensures
        ({
            let q = queue_at(m, src);
            let n = if q.len() <= max_move {
                q.len() as int
            } else {
                max_move as int
            };
            let t = requeue_table(m, src, dst, max_move, 0, bitset);
            &&& queue_at(t, src) == q.skip(n)
            &&& queue_at(t, dst) == queue_at(m, dst) + rekeyed(q.take(n), dst)
            &&& forall|k: FutexKey| k != src && k != dst ==> queue_at(t, k) == queue_at(m, k)
        }),
{
    let q = queue_at(m, src);
    let woken = woken_by(q, 0, bitset);
    assert(woken.len() == 0);
    assert forall|i: int| 0 <= i < q.len() implies not_in(woken)(#[trigger] q[i]) by {
        if woken.contains(q[i]) {
            let j = choose|j: int| 0 <= j < woken.len() && woken[j] == q[i];
        }
    }
    lemma_filter_all(q, not_in(woken));
    assert(left_by(q, 0, bitset) == q);
    let m1 = set_queue(m, src, q);
    assert(m1 =~= m);
    if m.dom().contains(dst) {
        assert(m[dst].len() > 0);
    }
}

/// The registry gives back what was registered: after a thread has set a
/// list head with the fixed length, its own query returns that head and
/// length. A query for another thread is refused with `EPERM`. A
/// registration with another length is refused with `EINVAL` and leaves the
/// registry as it was.
pub proof fn lemma_robust_round_trip(
    reg: Map<u64, FutexRobustList>,
    tid: u64,
    head: usize,
    len: usize,
    selector: usize,
    mapped: bool,
)
    ensures
        len == robust_list_len() ==> robust_set_result(len, true) == Ok::<isize, SyscallError>(0)
            && robust_get_result(robust_set_table(reg, tid, head, len, true), tid, 0, true) == Ok::<
            FutexRobustList,
            SyscallError,
        >(FutexRobustList { head, len }),
        low32(selector) != 0 ==> robust_get_result(reg, tid, selector, mapped) == Err::<
            FutexRobustList,
            SyscallError,
        >(SyscallError::EPERM),
        len != robust_list_len() ==> robust_set_result(len, mapped) == Err::<isize, SyscallError>(
            SyscallError::EINVAL,
        ) && robust_set_table(reg, tid, head, len, mapped) == reg,
{
    assert(0usize & 0xffff_ffff == 0) by (bit_vector);
}

/// The two commands that are named but not implemented, requeue with
/// comparison and wake with operation, are refused with `ENOSYS` whatever
/// the other arguments are; a refused call touches no queue, and it is never
/// handed a registry.
pub proof fn lemma_unsupported_commands(args: [usize; 6])
    requires
        low32(args[1]) & FUTEX_CMD_MASK == FUTEX_CMP_REQUEUE || low32(args[1]) & FUTEX_CMD_MASK
            == FUTEX_WAKE_OP,
    ensures
        decoded(args) == Err::<FutexCall, SyscallError>(SyscallError::ENOSYS),
{
}

/// Removal is idempotent: once the waiter of a task is out of a queue,
/// removing it again leaves the queue as it is.
pub proof fn lemma_remove_idempotent(q: Seq<Waiter>, task: u64)
    ensures
        !has_task(without_task(q, task), task),
        without_task(without_task(q, task), task) == without_task(q, task),
{
    let once = without_task(q, task);
    assert forall|i: int| 0 <= i < once.len() implies not_task(task)(#[trigger] once[i]) by {
        q.lemma_filter_pred(not_task(task), i);
    }
    lemma_filter_all(once, not_task(task));
}

} // verus!
