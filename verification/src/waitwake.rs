//! The futex operations: wait, wake, requeue.
//!
//! A wait has two halves. [`futex_wait`] checks the futex word and queues the
//! caller; the caller's owner then suspends the task. Whenever the task runs
//! again, [`futex_wait_complete`] says how the wait ended, or that it has not.

use vstd::prelude::*;
use crate::errors::{SyscallError, SyscallResult};
use crate::key::FutexKey;
use crate::lemmas::{lemma_drop_absent, lemma_drop_present};
use crate::model::{
    drop_task, expired, left_by, queue_at, queued, requeue_moved, requeue_table, set_queue,
    wait_table, waiter_of, woken_by, QueueMap, Waiter,
};
use crate::queue::WaitQueues;

verus! {

/// The bitset that every waiter with a bit set shares a bit with.
pub const FUTEX_BITSET_MATCH_ANY: u32 = 0xffff_ffff;

/// How a wait stands when its task runs again.
#[derive(Clone, Copy, Debug, PartialEq, Eq, Structural)]
pub enum WaitStatus {
    /// A wake took the waiter off its queue: the wait succeeded.
    Woken,
    /// The deadline passed with the waiter still queued; it has been removed.
    TimedOut,
    /// The wait was cancelled with the waiter still queued; it has been removed.
    Interrupted,
    /// Nothing has ended the wait: the task is to be suspended again.
    Pending,
}

impl WaitStatus {
    /// What the wait returns to its caller, once it has ended.
    pub open spec fn spec_result(self) -> Option<SyscallResult> {
        match self {
            WaitStatus::Woken => Some(Ok(0isize)),
            WaitStatus::TimedOut => Some(Err(SyscallError::ETIMEDOUT)),
            WaitStatus::Interrupted => Some(Err(SyscallError::EINTR)),
            WaitStatus::Pending => None,
        }
    }

    /// What the wait returns to its caller: `None` while it is pending.
    pub fn result(self) -> (r: Option<SyscallResult>)
        ensures
            r == self.spec_result(),
    {
        match self {
            WaitStatus::Woken => Some(Ok(0)),
            WaitStatus::TimedOut => Some(Err(SyscallError::ETIMEDOUT)),
            WaitStatus::Interrupted => Some(Err(SyscallError::EINTR)),
            WaitStatus::Pending => None,
        }
    }
}

/// How a wait of `task` stands in table `m` at time `now`.
///
/// A task that is no longer queued was woken, whatever else happened since:
/// whoever takes the waiter off first wins. A task still queued has timed out
/// once its deadline is reached, is interrupted if cancelled, and is pending
/// otherwise.
pub open spec fn wait_status(
    m: QueueMap,
    task: u64,
    timeout: Option<u64>,
    now: u64,
    cancelled: bool,
) -> WaitStatus {
    if !queued(m, task) {
        WaitStatus::Woken
    } else if expired(waiter_of(m, task).enqueued_at, timeout, now) {
        WaitStatus::TimedOut
    } else if cancelled {
        WaitStatus::Interrupted
    } else {
        WaitStatus::Pending
    }
}

/// Takes the waiter of `task` off whatever queue holds it.
fn cancel_wait(queues: &mut WaitQueues, task: u64)
    requires
        old(queues).wf(),
    ensures
        final(queues).wf(),
        final(queues)@ == drop_task(old(queues)@, task),
        !queued(final(queues)@, task),
{
    match queues.locate(task) {
        None => {
            proof {
                lemma_drop_absent(queues@, task);
            }
        },
        Some(w) => {
            proof {
                lemma_drop_present(queues@, w);
            }
            queues.remove(w.key, task);
        },
    }
}

/// First half of a wait, to be called with the table locked and `observed`
/// read from the futex word under that same lock.
///
/// If the word no longer holds `expected`, fails with `EAGAIN` and queues
/// nothing. Otherwise queues a waiter for `task` at the tail of the queue of
/// `key`, stamped with `now`, and returns it; the task is then to be
/// suspended. Should the task still have a waiter from an earlier wait, that
/// one is dropped first, so that no task ever waits twice.
pub fn futex_wait(
    queues: &mut WaitQueues,
    key: FutexKey,
    task: u64,
    expected: u32,
    observed: u32,
    bitset: u32,
    now: u64,
) -> (r: Result<Waiter, SyscallError>)
    requires
        old(queues).wf(),
    ensures
        final(queues).wf(),
        observed != expected ==> r == Err::<Waiter, SyscallError>(SyscallError::EAGAIN) && final(queues)@ == old(queues)@,
        observed == expected ==> r == Ok::<Waiter, SyscallError>(
            Waiter { key, bitset, task, enqueued_at: now },
        ) && final(queues)@ == wait_table(
            old(queues)@,
            Waiter { key, bitset, task, enqueued_at: now },
        ),
{
    if observed != expected {
        return Err(SyscallError::EAGAIN);
    }
    let waiter = Waiter { key, bitset, task, enqueued_at: now };
    cancel_wait(queues, task);
    queues.enqueue(key, waiter);
    Ok(waiter)
}

/// Second half of a wait, to be called with the table locked whenever the
/// suspended task runs again: after a wake, when its timer fired, or when it
/// was cancelled.
///
/// `timeout` is the limit that the wait was started with, `now` the monotonic
/// time, `cancelled` whether the wait is to be given up. The result is
/// [`wait_status`]; unless it is `Pending`, the task is queued nowhere
/// afterwards.
pub fn futex_wait_complete(
    queues: &mut WaitQueues,
    task: u64,
    timeout: Option<u64>,
    now: u64,
    cancelled: bool,
) -> (r: WaitStatus)
    requires
        old(queues).wf(),
    ensures
        final(queues).wf(),
        r == wait_status(old(queues)@, task, timeout, now, cancelled),
        r is Pending ==> final(queues)@ == old(queues)@,
        !(r is Pending) ==> final(queues)@ == drop_task(old(queues)@, task) && !queued(final(queues)@, task),
        r is TimedOut ==> timeout is Some && now - waiter_of(old(queues)@, task).enqueued_at
            >= timeout->0,
{
    match queues.locate(task) {
        None => {
            proof {
                lemma_drop_absent(queues@, task);
            }
            WaitStatus::Woken
        },
        Some(w) => {
            proof {
                lemma_drop_present(queues@, w);
            }
            let due = match timeout {
                Some(d) => now >= w.enqueued_at && now - w.enqueued_at >= d,
                None => false,
            };
            if due {
                queues.remove(w.key, task);
                WaitStatus::TimedOut
            } else if cancelled {
                queues.remove(w.key, task);
                WaitStatus::Interrupted
            } else {
                WaitStatus::Pending
            }
        },
    }
}

/// Wakes up to `max_count` waiters of `key`, the earliest first, whatever
/// their bitset (a waiter with no bit set is never woken). Returns the woken
/// waiters for the caller to resume; with nobody waiting, none.
pub fn futex_wake(queues: &mut WaitQueues, key: FutexKey, max_count: u32) -> (woken: Vec<Waiter>)
    requires
        old(queues).wf(),
    ensures
        final(queues).wf(),
        woken@ == woken_by(queue_at(old(queues)@, key), max_count as nat, FUTEX_BITSET_MATCH_ANY),
        woken@.len() <= max_count,
        final(queues)@ == set_queue(
            old(queues)@,
            key,
            left_by(queue_at(old(queues)@, key), max_count as nat, FUTEX_BITSET_MATCH_ANY),
        ),
{
    queues.wake(key, max_count, FUTEX_BITSET_MATCH_ANY)
}

/// Wakes up to `max_count` waiters of `key` whose bitset intersects
/// `bitset`, the earliest first. Returns the woken waiters for the caller to
/// resume.
pub fn futex_wake_bitset(
    queues: &mut WaitQueues,
    key: FutexKey,
    max_count: u32,
    bitset: u32,
) -> (woken: Vec<Waiter>)
    requires
        old(queues).wf(),
    ensures
        final(queues).wf(),
        woken@ == woken_by(queue_at(old(queues)@, key), max_count as nat, bitset),
        woken@.len() <= max_count,
        final(queues)@ == set_queue(
            old(queues)@,
            key,
            left_by(queue_at(old(queues)@, key), max_count as nat, bitset),
        ),
{
    queues.wake(key, max_count, bitset)
}

/// Requeue, to be called with the table locked and `observed` read from the
/// futex word at `src` under that same lock.
///
/// If the word no longer holds `expected`, fails with `EAGAIN` before any
/// queue is touched. Otherwise wakes up to `max_wake` waiters of `src`, then
/// moves up to `max_move` of those left to the tail of `dst` in their order.
/// Returns the woken waiters, for the caller to resume, and the number moved.
pub fn futex_requeue(
    queues: &mut WaitQueues,
    src: FutexKey,
    dst: FutexKey,
    max_wake: u32,
    max_move: u32,
    expected: u32,
    observed: u32,
) -> (r: Result<(Vec<Waiter>, usize), SyscallError>)
    requires
        old(queues).wf(),
    ensures
        final(queues).wf(),
        observed != expected ==> r == Err::<(Vec<Waiter>, usize), SyscallError>(
            SyscallError::EAGAIN,
        ) && final(queues)@ == old(queues)@,
        observed == expected ==> r is Ok && r->Ok_0.0@ == woken_by(
            queue_at(old(queues)@, src),
            max_wake as nat,
            FUTEX_BITSET_MATCH_ANY,
        ) && r->Ok_0.1 == requeue_moved(
            old(queues)@,
            src,
            dst,
            max_move as nat,
            max_wake as nat,
            FUTEX_BITSET_MATCH_ANY,
        ) && final(queues)@ == requeue_table(
            old(queues)@,
            src,
            dst,
            max_move as nat,
            max_wake as nat,
            FUTEX_BITSET_MATCH_ANY,
        ),
{
    if observed != expected {
        return Err(SyscallError::EAGAIN);
    }
    Ok(queues.requeue(src, dst, max_move, max_wake, FUTEX_BITSET_MATCH_ANY))
}

} // verus!
