use linux_syscall_api::errors::SyscallError;
use linux_syscall_api::key::{futex_get_key, FutexKey, FLAGS_SHARED};
use linux_syscall_api::model::Waiter;
use linux_syscall_api::queue::WaitQueues;
use linux_syscall_api::waitwake::{
    futex_requeue, futex_wait, futex_wait_complete, futex_wake, futex_wake_bitset, WaitStatus,
    FUTEX_BITSET_MATCH_ANY,
};

fn key(addr: usize) -> FutexKey {
    futex_get_key(addr, 0, 1).key
}

fn waiter(k: FutexKey, task: u64, bitset: u32) -> Waiter {
    Waiter { key: k, bitset, task, enqueued_at: 0 }
}

fn tasks(ws: &[Waiter]) -> Vec<u64> {
    ws.iter().map(|w| w.task).collect()
}

fn three_at(k: FutexKey) -> WaitQueues {
    let mut q = WaitQueues::new();
    q.enqueue(k, waiter(k, 1, 0xffff_ffff));
    q.enqueue(k, waiter(k, 2, 0xffff_ffff));
    q.enqueue(k, waiter(k, 3, 0xffff_ffff));
    q
}

#[test]
fn key_is_address_and_space() {
    let a = futex_get_key(0x1000, 0, 7);
    assert_eq!(a.key, FutexKey { space: 7, addr: 0x1000 });
    assert!(!a.degraded);
    assert_ne!(a.key, futex_get_key(0x1004, 0, 7).key);
    assert_ne!(a.key, futex_get_key(0x1000, 0, 8).key);
}

#[test]
fn shared_key_degrades_to_private() {
    let p = futex_get_key(0x2000, 0, 3);
    let s = futex_get_key(0x2000, FLAGS_SHARED, 3);
    assert_eq!(p.key, s.key);
    assert!(s.degraded);
    assert!(!p.degraded);
    // another address space never links, shared or not
    assert_ne!(s.key, futex_get_key(0x2000, FLAGS_SHARED, 4).key);
}

#[test]
fn new_table_is_empty() {
    let q = WaitQueues::new();
    assert!(q.is_empty());
    assert!(q.waiters(key(0x10)).is_empty());
    assert_eq!(q.locate(1), None);
}

#[test]
fn enqueue_appends_in_order() {
    let k = key(0x10);
    let q = three_at(k);
    assert!(!q.is_empty());
    assert_eq!(tasks(&q.waiters(k)), vec![1, 2, 3]);
    assert!(q.waiters(key(0x14)).is_empty());
}

#[test]
fn enqueue_stores_under_the_queue_key() {
    let k = key(0x10);
    let other = key(0x20);
    let mut q = WaitQueues::new();
    q.enqueue(k, waiter(other, 5, 1));
    let ws = q.waiters(k);
    assert_eq!(ws.len(), 1);
    assert_eq!(ws[0], Waiter { key: k, bitset: 1, task: 5, enqueued_at: 0 });
    assert!(q.waiters(other).is_empty());
    assert_eq!(q.locate(5), Some(ws[0]));
}

#[test]
fn remove_is_idempotent() {
    let k = key(0x10);
    let mut q = three_at(k);
    assert!(q.remove(k, 2));
    assert_eq!(tasks(&q.waiters(k)), vec![1, 3]);
    assert!(!q.remove(k, 2));
    assert_eq!(tasks(&q.waiters(k)), vec![1, 3]);
    assert!(!q.remove(key(0x99), 1));
    assert_eq!(tasks(&q.waiters(k)), vec![1, 3]);
}

#[test]
fn emptied_queue_is_discarded() {
    let k = key(0x10);
    let mut q = WaitQueues::new();
    q.enqueue(k, waiter(k, 1, 1));
    assert!(!q.is_empty());
    assert!(q.remove(k, 1));
    assert!(q.is_empty());
}

#[test]
fn wake_takes_earliest_up_to_count() {
    let k = key(0x10);
    let mut q = three_at(k);
    let woken = q.wake(k, 2, FUTEX_BITSET_MATCH_ANY);
    assert_eq!(tasks(&woken), vec![1, 2]);
    assert_eq!(tasks(&q.waiters(k)), vec![3]);
    let woken = q.wake(k, 5, FUTEX_BITSET_MATCH_ANY);
    assert_eq!(tasks(&woken), vec![3]);
    assert!(q.is_empty());
}

#[test]
fn wake_of_zero_wakes_nobody() {
    let k = key(0x10);
    let mut q = three_at(k);
    assert!(q.wake(k, 0, FUTEX_BITSET_MATCH_ANY).is_empty());
    assert_eq!(tasks(&q.waiters(k)), vec![1, 2, 3]);
}

#[test]
fn wake_on_other_key_touches_nothing() {
    let k = key(0x10);
    let mut q = three_at(k);
    assert!(q.wake(key(0x14), 10, FUTEX_BITSET_MATCH_ANY).is_empty());
    assert_eq!(tasks(&q.waiters(k)), vec![1, 2, 3]);
}

#[test]
fn wake_filters_by_bitset() {
    let k = key(0x10);
    let mut q = WaitQueues::new();
    q.enqueue(k, waiter(k, 1, 0b0001));
    q.enqueue(k, waiter(k, 2, 0b0010));
    q.enqueue(k, waiter(k, 3, 0b0101));
    q.enqueue(k, waiter(k, 4, 0b1000));
    q.enqueue(k, waiter(k, 5, 0b0001));
    let woken = q.wake(k, 10, 0b0001);
    assert_eq!(tasks(&woken), vec![1, 3, 5]);
    // the disjoint ones stay, in their order
    assert_eq!(tasks(&q.waiters(k)), vec![2, 4]);
}

#[test]
fn wake_skips_non_matching_in_place() {
    let k = key(0x10);
    let mut q = WaitQueues::new();
    q.enqueue(k, waiter(k, 1, 0b10));
    q.enqueue(k, waiter(k, 2, 0b01));
    q.enqueue(k, waiter(k, 3, 0b10));
    q.enqueue(k, waiter(k, 4, 0b01));
    let woken = q.wake(k, 1, 0b01);
    assert_eq!(tasks(&woken), vec![2]);
    assert_eq!(tasks(&q.waiters(k)), vec![1, 3, 4]);
}

#[test]
fn waiter_without_bits_is_never_woken() {
    let k = key(0x10);
    let mut q = WaitQueues::new();
    q.enqueue(k, waiter(k, 1, 0));
    assert!(q.wake(k, 1, FUTEX_BITSET_MATCH_ANY).is_empty());
    assert_eq!(tasks(&q.waiters(k)), vec![1]);
}

#[test]
fn wake_resumes_waiter_queued_before_it() {
    let k = key(0x10);
    let mut q = WaitQueues::new();
    q.enqueue(k, waiter(k, 9, 0b100));
    let woken = q.wake(k, 1, 0b110);
    assert_eq!(tasks(&woken), vec![9]);
    assert_eq!(q.locate(9), None);
}

#[test]
fn wake_leaves_waiter_queued_after_it() {
    let k = key(0x10);
    let mut q = WaitQueues::new();
    q.enqueue(k, waiter(k, 1, 1));
    let woken = q.wake(k, 10, FUTEX_BITSET_MATCH_ANY);
    assert_eq!(tasks(&woken), vec![1]);
    q.enqueue(k, waiter(k, 2, 1));
    assert_eq!(tasks(&q.waiters(k)), vec![2]);
    assert!(q.locate(2).is_some());
}

#[test]
fn requeue_moves_first_two_in_order() {
    let k1 = key(0x10);
    let k2 = key(0x20);
    let mut q = three_at(k1);
    let (woken, moved) = q.requeue(k1, k2, 2, 0, FUTEX_BITSET_MATCH_ANY);
    assert!(woken.is_empty());
    assert_eq!(moved, 2);
    assert_eq!(tasks(&q.waiters(k2)), vec![1, 2]);
    assert_eq!(tasks(&q.waiters(k1)), vec![3]);
    // moved waiters now stand under the second key
    assert!(q.waiters(k2).iter().all(|w| w.key == k2));
    assert_eq!(q.locate(1).map(|w| w.key), Some(k2));
}

#[test]
fn requeue_appends_behind_waiters_of_destination() {
    let k1 = key(0x10);
    let k2 = key(0x20);
    let mut q = three_at(k1);
    q.enqueue(k2, waiter(k2, 7, 1));
    let (woken, moved) = q.requeue(k1, k2, 10, 1, FUTEX_BITSET_MATCH_ANY);
    assert_eq!(tasks(&woken), vec![1]);
    assert_eq!(moved, 2);
    assert_eq!(tasks(&q.waiters(k2)), vec![7, 2, 3]);
    assert!(q.waiters(k1).is_empty());
}

#[test]
fn requeue_wakes_by_bitset_then_moves_the_rest() {
    let k1 = key(0x10);
    let k2 = key(0x20);
    let mut q = WaitQueues::new();
    q.enqueue(k1, waiter(k1, 1, 0b10));
    q.enqueue(k1, waiter(k1, 2, 0b01));
    q.enqueue(k1, waiter(k1, 3, 0b10));
    let (woken, moved) = q.requeue(k1, k2, 1, 5, 0b01);
    assert_eq!(tasks(&woken), vec![2]);
    assert_eq!(moved, 1);
    assert_eq!(tasks(&q.waiters(k2)), vec![1]);
    assert_eq!(tasks(&q.waiters(k1)), vec![3]);
}

#[test]
fn requeue_to_same_key_only_wakes() {
    let k = key(0x10);
    let mut q = three_at(k);
    let (woken, moved) = q.requeue(k, k, 2, 1, FUTEX_BITSET_MATCH_ANY);
    assert_eq!(tasks(&woken), vec![1]);
    assert_eq!(moved, 0);
    assert_eq!(tasks(&q.waiters(k)), vec![2, 3]);
}

#[test]
fn requeue_of_zero_moves_nobody() {
    let k1 = key(0x10);
    let k2 = key(0x20);
    let mut q = three_at(k1);
    let (woken, moved) = q.requeue(k1, k2, 0, 0, FUTEX_BITSET_MATCH_ANY);
    assert!(woken.is_empty());
    assert_eq!(moved, 0);
    assert_eq!(tasks(&q.waiters(k1)), vec![1, 2, 3]);
    assert!(q.waiters(k2).is_empty());
}

#[test]
fn requeue_from_empty_source() {
    let k1 = key(0x10);
    let k2 = key(0x20);
    let mut q = WaitQueues::new();
    q.enqueue(k2, waiter(k2, 7, 1));
    let (woken, moved) = q.requeue(k1, k2, 3, 3, FUTEX_BITSET_MATCH_ANY);
    assert!(woken.is_empty());
    assert_eq!(moved, 0);
    assert_eq!(tasks(&q.waiters(k2)), vec![7]);
}

#[test]
fn wait_retries_when_value_changed() {
    let k = key(0x10);
    let mut q = WaitQueues::new();
    let r = futex_wait(&mut q, k, 1, 5, 6, FUTEX_BITSET_MATCH_ANY, 100);
    assert_eq!(r, Err(SyscallError::EAGAIN));
    assert!(q.is_empty());
}

#[test]
fn wait_queues_when_value_matches() {
    let k = key(0x10);
    let mut q = WaitQueues::new();
    let r = futex_wait(&mut q, k, 1, 5, 5, 0b11, 100);
    let w = Waiter { key: k, bitset: 0b11, task: 1, enqueued_at: 100 };
    assert_eq!(r, Ok(w));
    assert_eq!(q.waiters(k), vec![w]);
}

#[test]
fn wait_again_replaces_stale_waiter() {
    let k1 = key(0x10);
    let k2 = key(0x20);
    let mut q = WaitQueues::new();
    futex_wait(&mut q, k1, 1, 0, 0, 1, 10).unwrap();
    futex_wait(&mut q, k1, 2, 0, 0, 1, 11).unwrap();
    futex_wait(&mut q, k2, 1, 0, 0, 1, 12).unwrap();
    assert_eq!(tasks(&q.waiters(k1)), vec![2]);
    assert_eq!(tasks(&q.waiters(k2)), vec![1]);
    futex_wait(&mut q, k1, 2, 0, 0, 1, 13).unwrap();
    assert_eq!(q.waiters(k1), vec![Waiter { key: k1, bitset: 1, task: 2, enqueued_at: 13 }]);
}

#[test]
fn wake_then_complete_is_success() {
    let k = key(0x10);
    let mut q = WaitQueues::new();
    futex_wait(&mut q, k, 1, 5, 5, FUTEX_BITSET_MATCH_ANY, 100).unwrap();
    assert_eq!(tasks(&futex_wake(&mut q, k, 1)), vec![1]);
    let s = futex_wait_complete(&mut q, 1, None, 200, false);
    assert_eq!(s, WaitStatus::Woken);
    assert_eq!(s.result(), Some(Ok(0)));
}

#[test]
fn wait_is_pending_before_deadline() {
    let k = key(0x10);
    let mut q = WaitQueues::new();
    futex_wait(&mut q, k, 1, 5, 5, FUTEX_BITSET_MATCH_ANY, 100).unwrap();
    let s = futex_wait_complete(&mut q, 1, Some(50), 149, false);
    assert_eq!(s, WaitStatus::Pending);
    assert_eq!(s.result(), None);
    assert_eq!(tasks(&q.waiters(k)), vec![1]);
    // without a timeout it never times out
    assert_eq!(futex_wait_complete(&mut q, 1, None, u64::MAX, false), WaitStatus::Pending);
}

#[test]
fn wait_times_out_at_deadline_and_removes_itself() {
    let k = key(0x10);
    let mut q = WaitQueues::new();
    futex_wait(&mut q, k, 1, 5, 5, FUTEX_BITSET_MATCH_ANY, 100).unwrap();
    let s = futex_wait_complete(&mut q, 1, Some(50), 150, false);
    assert_eq!(s, WaitStatus::TimedOut);
    assert_eq!(s.result(), Some(Err(SyscallError::ETIMEDOUT)));
    assert!(q.is_empty());
    // a wake that comes late finds nobody
    assert!(futex_wake(&mut q, k, 1).is_empty());
}

#[test]
fn zero_timeout_fires_at_once() {
    let k = key(0x10);
    let mut q = WaitQueues::new();
    futex_wait(&mut q, k, 1, 5, 5, FUTEX_BITSET_MATCH_ANY, 100).unwrap();
    assert_eq!(futex_wait_complete(&mut q, 1, Some(0), 100, false), WaitStatus::TimedOut);
}

#[test]
fn clock_before_enqueue_is_not_a_timeout() {
    let k = key(0x10);
    let mut q = WaitQueues::new();
    futex_wait(&mut q, k, 1, 5, 5, FUTEX_BITSET_MATCH_ANY, 100).unwrap();
    assert_eq!(futex_wait_complete(&mut q, 1, Some(10), 99, false), WaitStatus::Pending);
}

#[test]
fn racing_wake_wins_over_timeout() {
    let k = key(0x10);
    let mut q = WaitQueues::new();
    futex_wait(&mut q, k, 1, 5, 5, FUTEX_BITSET_MATCH_ANY, 100).unwrap();
    // the wake takes the waiter just as the timer fires
    assert_eq!(tasks(&futex_wake(&mut q, k, 1)), vec![1]);
    let s = futex_wait_complete(&mut q, 1, Some(50), 1000, false);
    assert_eq!(s, WaitStatus::Woken);
    assert!(q.is_empty());
}

#[test]
fn racing_timeout_wins_over_wake() {
    let k = key(0x10);
    let mut q = WaitQueues::new();
    futex_wait(&mut q, k, 1, 5, 5, FUTEX_BITSET_MATCH_ANY, 100).unwrap();
    assert_eq!(futex_wait_complete(&mut q, 1, Some(50), 1000, false), WaitStatus::TimedOut);
    assert!(futex_wake(&mut q, k, 1).is_empty());
    // once ended, the wait stays ended
    assert_eq!(futex_wait_complete(&mut q, 1, Some(50), 1000, false), WaitStatus::Woken);
}

#[test]
fn cancelled_wait_is_interrupted_and_removed() {
    let k = key(0x10);
    let mut q = WaitQueues::new();
    futex_wait(&mut q, k, 1, 5, 5, FUTEX_BITSET_MATCH_ANY, 100).unwrap();
    let s = futex_wait_complete(&mut q, 1, Some(500), 150, true);
    assert_eq!(s, WaitStatus::Interrupted);
    assert_eq!(s.result(), Some(Err(SyscallError::EINTR)));
    assert!(q.is_empty());
}

#[test]
fn timeout_takes_precedence_over_cancel() {
    let k = key(0x10);
    let mut q = WaitQueues::new();
    futex_wait(&mut q, k, 1, 5, 5, FUTEX_BITSET_MATCH_ANY, 100).unwrap();
    assert_eq!(futex_wait_complete(&mut q, 1, Some(5), 150, true), WaitStatus::TimedOut);
}

#[test]
fn requeued_waiter_times_out_from_new_queue() {
    let k1 = key(0x10);
    let k2 = key(0x20);
    let mut q = WaitQueues::new();
    futex_wait(&mut q, k1, 1, 5, 5, FUTEX_BITSET_MATCH_ANY, 100).unwrap();
    let r = futex_requeue(&mut q, k1, k2, 0, 1, 5, 5).unwrap();
    assert!(r.0.is_empty());
    assert_eq!(r.1, 1);
    assert_eq!(tasks(&q.waiters(k2)), vec![1]);
    assert_eq!(futex_wait_complete(&mut q, 1, Some(10), 110, false), WaitStatus::TimedOut);
    assert!(q.is_empty());
}

#[test]
fn requeue_retries_before_touching_queues() {
    let k1 = key(0x10);
    let k2 = key(0x20);
    let mut q = three_at(k1);
    let r = futex_requeue(&mut q, k1, k2, 1, 1, 5, 6);
    assert_eq!(r.err(), Some(SyscallError::EAGAIN));
    assert_eq!(tasks(&q.waiters(k1)), vec![1, 2, 3]);
    assert!(q.waiters(k2).is_empty());
}

#[test]
fn requeue_wakes_then_moves() {
    let k1 = key(0x10);
    let k2 = key(0x20);
    let mut q = three_at(k1);
    let (woken, moved) = futex_requeue(&mut q, k1, k2, 1, 1, 5, 5).unwrap();
    assert_eq!(tasks(&woken), vec![1]);
    assert_eq!(moved, 1);
    assert_eq!(tasks(&q.waiters(k1)), vec![3]);
    assert_eq!(tasks(&q.waiters(k2)), vec![2]);
}

#[test]
fn wake_bitset_operation_filters() {
    let k = key(0x10);
    let mut q = WaitQueues::new();
    futex_wait(&mut q, k, 1, 0, 0, 0b01, 1).unwrap();
    futex_wait(&mut q, k, 2, 0, 0, 0b10, 2).unwrap();
    assert_eq!(tasks(&futex_wake_bitset(&mut q, k, 5, 0b10)), vec![2]);
    assert_eq!(tasks(&q.waiters(k)), vec![1]);
    assert!(futex_wake_bitset(&mut q, k, 5, 0).is_empty());
}

#[test]
fn end_to_end_wait_then_wake() {
    let k = key(0x4000);
    let mut q = WaitQueues::new();
    // T1 waits while the word holds 5
    let mut word: u32 = 5;
    let w = futex_wait(&mut q, k, 1, 5, word, FUTEX_BITSET_MATCH_ANY, 10).unwrap();
    assert_eq!(w.task, 1);
    assert_eq!(futex_wait_complete(&mut q, 1, None, 11, false), WaitStatus::Pending);
    // T2 writes 6 and wakes one
    word = 6;
    let woken = futex_wake_bitset(&mut q, k, 1, FUTEX_BITSET_MATCH_ANY);
    assert_eq!(woken, vec![w]);
    // T1 resumes with success, once
    assert_eq!(futex_wait_complete(&mut q, 1, None, 12, false).result(), Some(Ok(0)));
    // the queue is empty now: a second wake finds nobody
    assert_eq!(futex_wake(&mut q, k, 1).len(), 0);
    assert!(q.is_empty());
    // and a new wait on the old value is told to retry
    assert_eq!(futex_wait(&mut q, k, 1, 5, word, 1, 13), Err(SyscallError::EAGAIN));
}
