//! The wait queue manager: per key, the FIFO queue of blocked waiters.

use vstd::prelude::*;
use crate::key::FutexKey;
use crate::lemmas::{
    lemma_append_valid, lemma_filter_sub, lemma_shrink_valid, lemma_wake_step, lemma_waiter_of,
    lemma_waiter_unique,
};
use crate::model::{
    distinct_tasks, has_task, in_table, left_by, move_count, moved_table, not_in, not_task, queue_at, queued,
    rekey, rekeyed, requeue_moved, requeue_table, set_queue, valid_queues, without, without_task,
    waiter_of, woken_by, QueueMap, Waiter,
};

verus! {

/// The queue of one key. It exists only while it holds a waiter.
struct WaitQueue {
    key: FutexKey,
    waiters: Vec<Waiter>,
}

/// All wait queues of one table, owned by whoever owns the address space.
pub struct WaitQueues {
    queues: Vec<WaitQueue>,
}

/// Queue `i` of `qs` is the queue of `k`.
spec fn holds(qs: Seq<WaitQueue>, i: int, k: FutexKey) -> bool {
    0 <= i < qs.len() && qs[i].key == k
}

/// No key has two queues.
spec fn keys_distinct(qs: Seq<WaitQueue>) -> bool {
    forall|i: int, j: int| 0 <= i < j < qs.len() ==> (#[trigger] qs[i]).key != (#[trigger] qs[j]).key
}

/// The table that the stored queues stand for.
spec fn table_of(qs: Seq<WaitQueue>) -> QueueMap {
    Map::new(
        |k: FutexKey| exists|i: int| holds(qs, i, k),
        |k: FutexKey| qs[choose|i: int| holds(qs, i, k)].waiters@,
    )
}

proof fn lemma_table_at(qs: Seq<WaitQueue>, i: int)
    requires
        keys_distinct(qs),
        0 <= i < qs.len(),
    ensures
        table_of(qs).dom().contains(qs[i].key),
        table_of(qs)[qs[i].key] == qs[i].waiters@,
{
    let k = qs[i].key;
    assert(holds(qs, i, k));
    let c = choose|c: int| holds(qs, c, k);
    if c < i {
        assert(qs[c].key != qs[i].key);
    } else if i < c {
        assert(qs[i].key != qs[c].key);
    }
}

proof fn lemma_table_absent(qs: Seq<WaitQueue>, k: FutexKey)
    requires
        forall|i: int| 0 <= i < qs.len() ==> (#[trigger] qs[i]).key != k,
    ensures
        !table_of(qs).dom().contains(k),
{
    if table_of(qs).dom().contains(k) {
        let c = choose|c: int| holds(qs, c, k);
        assert(qs[c].key != k);
    }
}

proof fn lemma_table_update(qs: Seq<WaitQueue>, i: int, q: WaitQueue)
    requires
        keys_distinct(qs),
        0 <= i < qs.len(),
        q.key == qs[i].key,
    ensures
        keys_distinct(qs.update(i, q)),
        table_of(qs.update(i, q)) == table_of(qs).insert(q.key, q.waiters@),
{
    let ns = qs.update(i, q);
    assert forall|a: int, b: int| 0 <= a < b < ns.len() implies (#[trigger] ns[a]).key != (
    #[trigger] ns[b]).key by {
        assert(qs[a].key != qs[b].key);
    }
    let t = table_of(qs).insert(q.key, q.waiters@);
    assert forall|k: FutexKey| table_of(ns).dom().contains(k) <==> t.dom().contains(k) by {
        if table_of(ns).dom().contains(k) {
            let c = choose|c: int| holds(ns, c, k);
            assert(holds(qs, c, k));
        }
        if t.dom().contains(k) && k != q.key {
            let c = choose|c: int| holds(qs, c, k);
            assert(holds(ns, c, k));
        }
        if k == q.key {
            assert(holds(ns, i, k));
        }
    }
    assert forall|k: FutexKey| table_of(ns).dom().contains(k) implies #[trigger] table_of(ns)[k]
        == t[k] by {
        let c = choose|c: int| holds(ns, c, k);
        lemma_table_at(ns, c);
        if k != q.key {
            assert(holds(qs, c, k));
            lemma_table_at(qs, c);
        } else {
            if c < i {
                assert(ns[c].key != ns[i].key);
            } else if i < c {
                assert(ns[i].key != ns[c].key);
            }
        }
    }
    assert(table_of(ns) =~= t);
}

proof fn lemma_table_remove(qs: Seq<WaitQueue>, i: int)
    requires
        keys_distinct(qs),
        0 <= i < qs.len(),
    ensures
        keys_distinct(qs.remove(i)),
        table_of(qs.remove(i)) == table_of(qs).remove(qs[i].key),
{
    let ns = qs.remove(i);
    let gone = qs[i].key;
    assert forall|a: int, b: int| 0 <= a < b < ns.len() implies (#[trigger] ns[a]).key != (
    #[trigger] ns[b]).key by {
        let a0 = if a < i { a } else { a + 1 };
        let b0 = if b < i { b } else { b + 1 };
        assert(ns[a] == qs[a0] && ns[b] == qs[b0]);
        assert(qs[a0].key != qs[b0].key);
    }
    let t = table_of(qs).remove(gone);
    assert forall|k: FutexKey| table_of(ns).dom().contains(k) <==> t.dom().contains(k) by {
        if table_of(ns).dom().contains(k) {
            let c = choose|c: int| holds(ns, c, k);
            let c0 = if c < i { c } else { c + 1 };
            assert(ns[c] == qs[c0]);
            assert(holds(qs, c0, k));
            if c0 < i {
                assert(qs[c0].key != qs[i].key);
            } else {
                assert(qs[i].key != qs[c0].key);
            }
        }
        if t.dom().contains(k) {
            let c = choose|c: int| holds(qs, c, k);
            let c1 = if c < i { c } else { c - 1 };
            assert(ns[c1] == qs[c]);
            assert(holds(ns, c1, k));
        }
    }
    assert forall|k: FutexKey| table_of(ns).dom().contains(k) implies #[trigger] table_of(ns)[k]
        == t[k] by {
        let c = choose|c: int| holds(ns, c, k);
        let c0 = if c < i { c } else { c + 1 };
        assert(ns[c] == qs[c0]);
        lemma_table_at(ns, c);
        lemma_table_at(qs, c0);
    }
    assert(table_of(ns) =~= t);
}

proof fn lemma_table_push(qs: Seq<WaitQueue>, q: WaitQueue)
    requires
        keys_distinct(qs),
        !table_of(qs).dom().contains(q.key),
    ensures
        keys_distinct(qs.push(q)),
        table_of(qs.push(q)) == table_of(qs).insert(q.key, q.waiters@),
{
    let ns = qs.push(q);
    assert forall|a: int, b: int| 0 <= a < b < ns.len() implies (#[trigger] ns[a]).key != (
    #[trigger] ns[b]).key by {
        if b < qs.len() {
            assert(qs[a].key != qs[b].key);
        } else {
            if qs[a].key == q.key {
                assert(holds(qs, a, q.key));
            }
        }
    }
    let t = table_of(qs).insert(q.key, q.waiters@);
    assert forall|k: FutexKey| table_of(ns).dom().contains(k) <==> t.dom().contains(k) by {
        if table_of(ns).dom().contains(k) {
            let c = choose|c: int| holds(ns, c, k);
            if c < qs.len() {
                assert(holds(qs, c, k));
            }
        }
        if t.dom().contains(k) && k != q.key {
            let c = choose|c: int| holds(qs, c, k);
            assert(holds(ns, c, k));
        }
        if k == q.key {
            assert(holds(ns, qs.len() as int, k));
        }
    }
    assert forall|k: FutexKey| table_of(ns).dom().contains(k) implies #[trigger] table_of(ns)[k]
        == t[k] by {
        let c = choose|c: int| holds(ns, c, k);
        lemma_table_at(ns, c);
        if c < qs.len() {
            assert(holds(qs, c, k));
            lemma_table_at(qs, c);
        }
    }
    assert(table_of(ns) =~= t);
}

impl View for WaitQueues {
    type V = QueueMap;

    /// The table as a map from key to queue; a key with no waiter is absent.
    closed spec fn view(&self) -> QueueMap {
        table_of(self.queues@)
    }
}

impl WaitQueues {
    /// The stored queues are consistent with one another.
    pub closed spec fn rep_wf(&self) -> bool {
        keys_distinct(self.queues@)
    }

    /// Well-formedness: what every operation expects and keeps.
    pub open spec fn wf(&self) -> bool {
        self.rep_wf() && valid_queues(self@)
    }

    /// A table with no queue.
    pub fn new() -> (r: Self)
        ensures
            r.wf(),
            r@ == Map::<FutexKey, Seq<Waiter>>::empty(),
    {
        let r = WaitQueues { queues: Vec::new() };
        proof {
            assert forall|k: FutexKey| !table_of(r.queues@).dom().contains(k) by {
                lemma_table_absent(r.queues@, k);
            }
            assert(r@ =~= Map::<FutexKey, Seq<Waiter>>::empty());
        }
        r
    }

    /// Whether no task waits on any key.
    pub fn is_empty(&self) -> (r: bool)
        requires
            self.wf(),
        ensures
            r <==> self@ == Map::<FutexKey, Seq<Waiter>>::empty(),
    {
        proof {
            if self.queues@.len() == 0 {
                assert forall|k: FutexKey| !table_of(self.queues@).dom().contains(k) by {
                    lemma_table_absent(self.queues@, k);
                }
                assert(self@ =~= Map::<FutexKey, Seq<Waiter>>::empty());
            } else {
                lemma_table_at(self.queues@, 0);
            }
        }
        self.queues.len() == 0
    }

    fn find(&self, key: FutexKey) -> (r: Option<usize>)
        requires
            self.rep_wf(),
        ensures
            match r {
                Some(i) => i < self.queues@.len() && self.queues@[i as int].key == key
                    && self@.dom().contains(key) && self@[key] == self.queues@[i as int].waiters@,
                None => !self@.dom().contains(key),
            },
    {
        let mut i: usize = 0;
        while i < self.queues.len()
            invariant
                i <= self.queues@.len(),
                self.rep_wf(),
                forall|j: int| 0 <= j < i ==> (#[trigger] self.queues@[j]).key != key,
            decreases self.queues@.len() - i,
        {
            if self.queues[i].key == key {
                proof {
                    lemma_table_at(self.queues@, i as int);
                }
                return Some(i);
            }
            i += 1;
        }
        proof {
            lemma_table_absent(self.queues@, key);
        }
        None
    }

    fn set_waiters(&mut self, i: usize, waiters: Vec<Waiter>)
        requires
            old(self).rep_wf(),
            i < old(self).queues@.len(),
        ensures
            final(self).rep_wf(),
            final(self)@ == set_queue(old(self)@, old(self).queues@[i as int].key, waiters@),
    {
        let key = self.queues[i].key;
        if waiters.len() == 0 {
            proof {
                lemma_table_remove(self.queues@, i as int);
            }
            self.queues.remove(i);
        } else {
            let q = WaitQueue { key, waiters };
            proof {
                lemma_table_update(self.queues@, i as int, q);
            }
            self.queues.set(i, q);
        }
    }

    /// The waiters of `key`, first come first.
    pub fn waiters(&self, key: FutexKey) -> (r: Vec<Waiter>)
        requires
            self.wf(),
        ensures
            r@ == queue_at(self@, key),
    {
        let mut r: Vec<Waiter> = Vec::new();
        match self.find(key) {
            None => {},
            Some(i) => {
                let n = self.queues[i].waiters.len();
                let mut j: usize = 0;
                while j < n
                    invariant
                        j <= n,
                        i < self.queues@.len(),
                        n == self.queues@[i as int].waiters@.len(),
                        r@ == self.queues@[i as int].waiters@.take(j as int),
                    decreases n - j,
                {
                    r.push(self.queues[i].waiters[j]);
                    j += 1;
                    assert(r@ =~= self.queues@[i as int].waiters@.take(j as int));
                }
                assert(r@ =~= self.queues@[i as int].waiters@);
            },
        }
        r
    }

    /// The waiter of `task`, if it waits anywhere.
    pub fn locate(&self, task: u64) -> (r: Option<Waiter>)
        requires
            self.wf(),
        ensures
            r == (if queued(self@, task) {
                Some(waiter_of(self@, task))
            } else {
                None
            }),
            r matches Some(w) ==> w.task == task && in_table(self@, w),
    {
        let mut i: usize = 0;
        while i < self.queues.len()
            invariant
                i <= self.queues@.len(),
                self.wf(),
                forall|a: int| 0 <= a < i ==> !has_task((#[trigger] self.queues@[a]).waiters@, task),
            decreases self.queues@.len() - i,
        {
            let n = self.queues[i].waiters.len();
            let mut j: usize = 0;
            while j < n
                invariant
                    j <= n,
                    i < self.queues@.len(),
                    self.wf(),
                    n == self.queues@[i as int].waiters@.len(),
                    forall|b: int| 0 <= b < j ==> (#[trigger] self.queues@[i as int].waiters@[b]).task
                        != task,
                decreases n - j,
            {
                let w = self.queues[i].waiters[j];
                if w.task == task {
                    proof {
                        lemma_table_at(self.queues@, i as int);
                        let k = self.queues@[i as int].key;
                        assert(self@[k][j as int] == w);
                        assert(w.key == k);
                        assert(has_task(self@[k], task));
                        assert(self@.dom().contains(k));
                        assert(in_table(self@, w));
                        lemma_waiter_of(self@, task);
                        lemma_waiter_unique(self@, w, waiter_of(self@, task));
                    }
                    return Some(w);
                }
                j += 1;
            }
            i += 1;
        }
        proof {
            if queued(self@, task) {
                let k = choose|k: FutexKey| #[trigger] self@.dom().contains(k) && has_task(self@[k], task);
                let c = choose|c: int| holds(self.queues@, c, k);
                lemma_table_at(self.queues@, c);
                assert(!has_task(self.queues@[c].waiters@, task));
            }
        }
        None
    }

    /// Appends `waiter` to the tail of the queue of `key`, which is created
    /// if the key had none. The waiter is stored under `key`.
    ///
    /// The task must not be waiting already: a waiter is in at most one queue.
    pub fn enqueue(&mut self, key: FutexKey, waiter: Waiter)
        requires
            old(self).wf(),
            !queued(old(self)@, waiter.task),
        ensures
            final(self).wf(),
            final(self)@ == old(self)@.insert(key, queue_at(old(self)@, key).push(rekey(waiter, key))),
    {
        let w = Waiter { key, bitset: waiter.bitset, task: waiter.task, enqueued_at: waiter.enqueued_at };
        proof {
            lemma_append_valid(self@, key, seq![w]);
            assert(queue_at(self@, key) + seq![w] =~= queue_at(self@, key).push(w));
        }
        match self.find(key) {
            Some(i) => {
                let ghost before = self.queues@;
                self.queues[i].waiters.push(w);
                proof {
                    assert(self.queues@ =~= before.update(i as int, self.queues@[i as int]));
                    lemma_table_update(before, i as int, self.queues@[i as int]);
                }
            },
            None => {
                let mut waiters: Vec<Waiter> = Vec::new();
                waiters.push(w);
                let q = WaitQueue { key, waiters };
                proof {
                    lemma_table_push(self.queues@, q);
                    assert(q.waiters@ =~= Seq::<Waiter>::empty().push(w));
                }
                self.queues.push(q);
            },
        }
    }

    /// Removes the waiter of `task` from the queue of `key` if it is still
    /// there, and says whether it was. Removing twice is harmless.
    pub fn remove(&mut self, key: FutexKey, task: u64) -> (r: bool)
        requires
            old(self).wf(),
        ensures
            final(self).wf(),
            r == has_task(queue_at(old(self)@, key), task),
            final(self)@ == set_queue(old(self)@, key, without_task(queue_at(old(self)@, key), task)),
            !r ==> final(self)@ == old(self)@,
    {
        match self.find(key) {
            None => {
                proof {
                    reveal(Seq::filter);
                    assert(without_task(Seq::<Waiter>::empty(), task) =~= Seq::<Waiter>::empty());
                    assert(self@.remove(key) =~= self@);
                }
                false
            },
            Some(i) => {
                let n = self.queues[i].waiters.len();
                let ghost q = self.queues@[i as int].waiters@;
                let mut kept: Vec<Waiter> = Vec::new();
                let mut found = false;
                let mut j: usize = 0;
                proof {
                    reveal(Seq::filter);
                    assert(q.take(0).filter(not_task(task)) =~= Seq::<Waiter>::empty());
                }
                while j < n
                    invariant
                        j <= n,
                        i < self.queues@.len(),
                        q == self.queues@[i as int].waiters@,
                        n == q.len(),
                        kept@ == without_task(q.take(j as int), task),
                        found == has_task(q.take(j as int), task),
                        !found ==> kept@ == q.take(j as int),
                    decreases n - j,
                {
                    let w = self.queues[i].waiters[j];
                    proof {
                        let p = q.take(j as int);
                        let upto = q.take(j as int + 1);
                        assert(upto =~= p.push(w));
                        p.lemma_filter_push(w, not_task(task));
                        if has_task(upto, task) {
                            let t = choose|t: int| 0 <= t < upto.len() && (#[trigger] upto[t]).task == task;
                            if t < j {
                                assert(p[t].task == task);
                            }
                        }
                        if has_task(p, task) {
                            let t = choose|t: int| 0 <= t < p.len() && (#[trigger] p[t]).task == task;
                            assert(upto[t].task == task);
                        }
                        if w.task == task {
                            assert(upto[j as int].task == task);
                        }
                    }
                    if w.task == task {
                        found = true;
                    } else {
                        kept.push(w);
                    }
                    j += 1;
                }
                proof {
                    assert(q.take(n as int) =~= q);
                    assert(self@.dom().contains(key));
                    assert(distinct_tasks(q));
                    lemma_filter_sub(q, not_task(task));
                    lemma_shrink_valid(self@, key, kept@);
                    if !found {
                        assert(self@.insert(key, q) =~= self@);
                    }
                }
                if found {
                    self.set_waiters(i, kept);
                }
                found
            },
        }
    }

    /// Scans the queue of `key` front to back and takes off the first
    /// `max_count` waiters whose bitset intersects `bitset`. Returns them, in
    /// queue order, for the caller to resume; the others keep their order.
    pub fn wake(&mut self, key: FutexKey, max_count: u32, bitset: u32) -> (woken: Vec<Waiter>)
        requires
            old(self).wf(),
        ensures
            final(self).wf(),
            woken@ == woken_by(queue_at(old(self)@, key), max_count as nat, bitset),
            final(self)@ == set_queue(
                old(self)@,
                key,
                left_by(queue_at(old(self)@, key), max_count as nat, bitset),
            ),
            woken@.len() <= max_count,
    {
        let mut woken: Vec<Waiter> = Vec::new();
        match self.find(key) {
            None => {
                proof {
                    reveal(Seq::filter);
                    let e = Seq::<Waiter>::empty();
                    assert(woken_by(e, max_count as nat, bitset) =~= e);
                    assert(left_by(e, max_count as nat, bitset) =~= e);
                    assert(self@.remove(key) =~= self@);
                }
            },
            Some(i) => {
                let n = self.queues[i].waiters.len();
                let ghost q = self.queues@[i as int].waiters@;
                let mut kept: Vec<Waiter> = Vec::new();
                let mut j: usize = 0;
                proof {
                    reveal(Seq::filter);
                    let e = q.take(0);
                    assert(woken_by(e, max_count as nat, bitset) =~= Seq::<Waiter>::empty());
                    assert(without(e, woken@) =~= Seq::<Waiter>::empty());
                    assert(self@.dom().contains(key));
                    assert(distinct_tasks(q));
                }
                while j < n
                    invariant
                        j <= n,
                        i < self.queues@.len(),
                        q == self.queues@[i as int].waiters@,
                        n == q.len(),
                        distinct_tasks(q),
                        woken@ == woken_by(q.take(j as int), max_count as nat, bitset),
                        kept@ == without(q.take(j as int), woken@),
                        woken@.len() <= max_count,
                    decreases n - j,
                {
                    let w = self.queues[i].waiters[j];
                    proof {
                        lemma_wake_step(q, j as int, max_count as nat, bitset);
                    }
                    if woken.len() < max_count as usize && (w.bitset & bitset) != 0 {
                        woken.push(w);
                    } else {
                        kept.push(w);
                    }
                    j += 1;
                }
                proof {
                    assert(q.take(n as int) =~= q);
                    lemma_filter_sub(q, not_in(woken@));
                    lemma_shrink_valid(self@, key, kept@);
                }
                self.set_waiters(i, kept);
            },
        }
        woken
    }

    /// Moves the first waiters of `src`, at most `max_move`, to the tail of
    /// `dst`, in their order, and returns how many moved.
    fn move_front(&mut self, src: FutexKey, dst: FutexKey, max_move: u32) -> (k: usize)
        requires
            old(self).wf(),
            src != dst,
        ensures
            final(self).wf(),
            k == move_count(queue_at(old(self)@, src), max_move as nat),
            final(self)@ == moved_table(old(self)@, src, dst, k as nat),
    {
        let ghost m = self@;
        match self.find(src) {
            None => {
                proof {
                    let e = Seq::<Waiter>::empty();
                    assert(e.skip(0) =~= e);
                    assert(queue_at(m, dst) + rekeyed(e.take(0), dst) =~= queue_at(m, dst));
                    assert(moved_table(m, src, dst, 0) =~= m);
                }
                0
            },
            Some(i) => {
                let n = self.queues[i].waiters.len();
                let k: usize = if (max_move as usize) < n {
                    max_move as usize
                } else {
                    n
                };
                let ghost q = self.queues@[i as int].waiters@;
                let mut moved: Vec<Waiter> = Vec::new();
                let mut rest: Vec<Waiter> = Vec::new();
                let mut j: usize = 0;
                while j < n
                    invariant
                        j <= n,
                        k <= n,
                        i < self.queues@.len(),
                        q == self.queues@[i as int].waiters@,
                        n == q.len(),
                        j <= k ==> moved@ =~= rekeyed(q.take(j as int), dst) && rest@.len() == 0,
                        j > k ==> moved@ =~= rekeyed(q.take(k as int), dst) && rest@ =~= q.subrange(
                            k as int,
                            j as int,
                        ),
                    decreases n - j,
                {
                    let w = self.queues[i].waiters[j];
                    if j < k {
                        moved.push(
                            Waiter {
                                key: dst,
                                bitset: w.bitset,
                                task: w.task,
                                enqueued_at: w.enqueued_at,
                            },
                        );
                    } else {
                        rest.push(w);
                    }
                    j += 1;
                }
                proof {
                    assert(moved@ =~= rekeyed(q.take(k as int), dst));
                    assert(rest@ =~= q.skip(k as int));
                    assert(m.dom().contains(src));
                    assert(distinct_tasks(q));
                    assert forall|t: int| 0 <= t < rest@.len() implies q.contains(
                        #[trigger] rest@[t],
                    ) by {
                        assert(q[k + t] == rest@[t]);
                    }
                    assert forall|a: int, b: int| 0 <= a < b < rest@.len() implies (
                    #[trigger] rest@[a]).task != (#[trigger] rest@[b]).task by {
                        assert(q[k + a].task != q[k + b].task);
                    }
                    lemma_shrink_valid(m, src, rest@);
                }
                self.set_waiters(i, rest);
                let ghost m2 = self@;
                proof {
                    assert forall|a: int, b: int| 0 <= a < b < moved@.len() implies (
                    #[trigger] moved@[a]).task != (#[trigger] moved@[b]).task by {
                        assert(q[a].task != q[b].task);
                    }
                    assert forall|t: int| 0 <= t < moved@.len() implies !queued(
                        m2,
                        (#[trigger] moved@[t]).task,
                    ) by {
                        let task = moved@[t].task;
                        assert(q[t].task == task);
                        if queued(m2, task) {
                            let k2 = choose|k2: FutexKey| #[trigger]
                                m2.dom().contains(k2) && has_task(m2[k2], task);
                            let p = choose|p: int| 0 <= p < m2[k2].len() && (#[trigger] m2[k2][p]).task
                                == task;
                            if k2 == src {
                                assert(m2[k2][p] == q[k + p]);
                                assert(q[t].task != q[k + p].task);
                            } else {
                                assert(m.dom().contains(k2));
                                assert(m2[k2] == m[k2]);
                                assert(m[src][t].task != m[k2][p].task);
                            }
                        }
                    }
                    lemma_append_valid(m2, dst, moved@);
                    assert(queue_at(m2, dst) == queue_at(m, dst));
                    if moved@.len() == 0 {
                        assert(queue_at(m2, dst) + moved@ =~= queue_at(m2, dst));
                        assert(set_queue(m2, dst, queue_at(m2, dst)) =~= m2);
                    }
                }
                if moved.len() > 0 {
                    match self.find(dst) {
                        Some(d) => {
                            let ghost before = self.queues@;
                            self.queues[d].waiters.append(&mut moved);
                            proof {
                                assert(self.queues@ =~= before.update(d as int, self.queues@[d as int]));
                                lemma_table_update(before, d as int, self.queues@[d as int]);
                            }
                        },
                        None => {
                            let q2 = WaitQueue { key: dst, waiters: moved };
                            proof {
                                lemma_table_push(self.queues@, q2);
                                assert(Seq::<Waiter>::empty() + q2.waiters@ =~= q2.waiters@);
                            }
                            self.queues.push(q2);
                        },
                    }
                }
                k
            },
        }
    }

    /// First wakes up to `max_wake` waiters of `src` whose bitset intersects
    /// `bitset`, as [`WaitQueues::wake`] does; then moves up to `max_move` of
    /// the waiters that are left, from the front, to the tail of `dst`,
    /// keeping their order. Returns the woken waiters and the number moved.
    /// Where `src` and `dst` are the same key, it only wakes.
    pub fn requeue(
        &mut self,
        src: FutexKey,
        dst: FutexKey,
        max_move: u32,
        max_wake: u32,
        bitset: u32,
    ) -> (r: (Vec<Waiter>, usize))
        requires
            old(self).wf(),
        ensures
            final(self).wf(),
            r.0@ == woken_by(queue_at(old(self)@, src), max_wake as nat, bitset),
            r.0@.len() <= max_wake,
            r.1 == requeue_moved(old(self)@, src, dst, max_move as nat, max_wake as nat, bitset),
            r.1 <= max_move,
            final(self)@ == requeue_table(
                old(self)@,
                src,
                dst,
                max_move as nat,
                max_wake as nat,
                bitset,
            ),
    {
        let woken = self.wake(src, max_wake, bitset);
        if src == dst {
            return (woken, 0);
        }
        let moved = self.move_front(src, dst, max_move);
        (woken, moved)
    }
}

} // verus!
