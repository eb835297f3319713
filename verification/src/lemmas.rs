//! Facts about queues as sequences, and about tables as maps, that the
//! queue manager's proofs rest on.

use vstd::prelude::*;
use crate::key::FutexKey;
use crate::model::{
    distinct_tasks, drop_task, has_task, in_table, intersecting, intersects, matching, not_in,
    not_task, queue_at, queued, set_queue, valid_queues, waiter_of, without, without_task,
    woken_by, QueueMap, Waiter,
};

verus! {

/// Two predicates that agree on every element of `s` filter it alike.
pub proof fn lemma_filter_agree(
    s: Seq<Waiter>,
    pa: spec_fn(Waiter) -> bool,
    pb: spec_fn(Waiter) -> bool,
)
    requires
        forall|i: int| 0 <= i < s.len() ==> pa(#[trigger] s[i]) == pb(s[i]),
    ensures
        s.filter(pa) == s.filter(pb),
    decreases s.len(),
{
    reveal(Seq::filter);
    if s.len() > 0 {
        let rest = s.drop_last();
        assert forall|i: int| 0 <= i < rest.len() implies pa(#[trigger] rest[i]) == pb(rest[i]) by {
            assert(rest[i] == s[i]);
        }
        lemma_filter_agree(rest, pa, pb);
        assert(pa(s[s.len() - 1]) == pb(s[s.len() - 1]));
    }
}

/// Filtering keeps only waiters of the queue and never makes a task occur twice.
pub proof fn lemma_filter_sub(s: Seq<Waiter>, p: spec_fn(Waiter) -> bool)
    requires
        distinct_tasks(s),
    ensures
        distinct_tasks(s.filter(p)),
        forall|j: int| 0 <= j < s.filter(p).len() ==> s.contains(#[trigger] s.filter(p)[j]),
        forall|j: int| 0 <= j < s.filter(p).len() ==> p(#[trigger] s.filter(p)[j]),
        forall|i: int| 0 <= i < s.len() && p(s[i]) ==> s.filter(p).contains(#[trigger] s[i]),
        s.filter(p).len() <= s.len(),
    decreases s.len(),
{
    reveal(Seq::filter);
    let f = s.filter(p);
    if s.len() > 0 {
        let rest = s.drop_last();
        let last = s.last();
        assert forall|i: int, j: int| 0 <= i < j < rest.len() implies (#[trigger] rest[i]).task != (
        #[trigger] rest[j]).task by {
            assert(rest[i] == s[i] && rest[j] == s[j]);
        }
        lemma_filter_sub(rest, p);
        let g = rest.filter(p);
        assert forall|j: int| 0 <= j < f.len() implies s.contains(#[trigger] f[j]) by {
            if j < g.len() {
                assert(f[j] == g[j]);
                assert(rest.contains(g[j]));
                let k = choose|k: int| 0 <= k < rest.len() && rest[k] == g[j];
                assert(s[k] == g[j]);
            } else {
                assert(f[j] == s[s.len() - 1]);
            }
        }
        assert forall|j: int| 0 <= j < f.len() implies p(#[trigger] f[j]) by {
            if j < g.len() {
                assert(f[j] == g[j]);
            }
        }
        assert forall|i: int| 0 <= i < s.len() && p(s[i]) implies f.contains(#[trigger] s[i]) by {
            if i < rest.len() {
                assert(rest[i] == s[i]);
                assert(g.contains(rest[i]));
                let k = choose|k: int| 0 <= k < g.len() && g[k] == rest[i];
                assert(f[k] == s[i]);
            } else {
                assert(f[f.len() - 1] == s[i]);
            }
        }
        assert forall|i: int, j: int| 0 <= i < j < f.len() implies (#[trigger] f[i]).task != (
        #[trigger] f[j]).task by {
            if j < g.len() {
                assert(f[i] == g[i] && f[j] == g[j]);
            } else {
                assert(f[i] == g[i]);
                assert(rest.contains(g[i]));
                let k = choose|k: int| 0 <= k < rest.len() && rest[k] == g[i];
                assert(s[k] == g[i]);
                assert(s[k].task != s[s.len() - 1].task);
            }
        }
    }
}

/// Replacing a queue by some of its own waiters, no task twice, keeps the
/// table valid.
pub proof fn lemma_shrink_valid(m: QueueMap, key: FutexKey, s: Seq<Waiter>)
    requires
        valid_queues(m),
        distinct_tasks(s),
        forall|j: int| 0 <= j < s.len() ==> queue_at(m, key).contains(#[trigger] s[j]),
    ensures
        valid_queues(set_queue(m, key, s)),
{
    let n = set_queue(m, key, s);
    let q = queue_at(m, key);
    assert forall|k: FutexKey, i: int| n.dom().contains(k) && 0 <= i < n[k].len() implies (
    #[trigger] n[k][i]).key == k by {
        if k == key {
            assert(q.contains(s[i]));
            let p = choose|p: int| 0 <= p < q.len() && q[p] == s[i];
            assert(m[key][p].key == key);
        } else {
            assert(m.dom().contains(k));
            assert(m[k][i].key == k);
        }
    }
    assert forall|k: FutexKey| #[trigger] n.dom().contains(k) implies distinct_tasks(n[k]) by {
        if k != key {
            assert(m.dom().contains(k));
        }
    }
    assert forall|k: FutexKey| #[trigger] n.dom().contains(k) implies n[k].len() > 0 by {
        if k != key {
            assert(m.dom().contains(k));
        }
    }
    assert forall|k1: FutexKey, k2: FutexKey, i1: int, i2: int|
        n.dom().contains(k1) && n.dom().contains(k2) && k1 != k2 && 0 <= i1 < n[k1].len() && 0
            <= i2 < n[k2].len() implies (#[trigger] n[k1][i1]).task != (#[trigger] n[k2][i2]).task by {
        if k1 == key {
            assert(q.contains(s[i1]));
            let p = choose|p: int| 0 <= p < q.len() && q[p] == s[i1];
            assert(m[k1][p].task != m[k2][i2].task);
        } else if k2 == key {
            assert(q.contains(s[i2]));
            let p = choose|p: int| 0 <= p < q.len() && q[p] == s[i2];
            assert(m[k1][i1].task != m[k2][p].task);
        } else {
            assert(m[k1][i1].task != m[k2][i2].task);
        }
    }
}

/// Appending waiters of tasks that wait nowhere, keyed to the queue they
/// join, keeps the table valid.
pub proof fn lemma_append_valid(m: QueueMap, key: FutexKey, add: Seq<Waiter>)
    requires
        valid_queues(m),
        distinct_tasks(add),
        forall|j: int| 0 <= j < add.len() ==> (#[trigger] add[j]).key == key,
        forall|j: int| 0 <= j < add.len() ==> !queued(m, (#[trigger] add[j]).task),
    ensures
        valid_queues(set_queue(m, key, queue_at(m, key) + add)),
{
    let q = queue_at(m, key);
    let s = q + add;
    let n = set_queue(m, key, s);
    assert forall|k: FutexKey, i: int| n.dom().contains(k) && 0 <= i < n[k].len() implies (
    #[trigger] n[k][i]).key == k by {
        if k == key {
            if i < q.len() {
                assert(m[key][i].key == key);
            } else {
                assert(s[i] == add[i - q.len()]);
            }
        } else {
            assert(m[k][i].key == k);
        }
    }
    assert forall|k: FutexKey| #[trigger] n.dom().contains(k) implies n[k].len() > 0 by {
        if k != key {
            assert(m.dom().contains(k));
        }
    }
    assert forall|k: FutexKey| #[trigger] n.dom().contains(k) implies distinct_tasks(n[k]) by {
        if k != key {
            assert(m.dom().contains(k));
        } else {
            assert forall|i: int, j: int| 0 <= i < j < s.len() implies (#[trigger] s[i]).task != (
            #[trigger] s[j]).task by {
                if j < q.len() {
                    assert(m.dom().contains(key));
                    assert(distinct_tasks(m[key]));
                    assert(s[i] == q[i] && s[j] == q[j]);
                } else if i < q.len() {
                    assert(s[j] == add[j - q.len()]);
                    assert(s[i] == q[i]);
                    if q[i].task == add[j - q.len()].task {
                        assert(m.dom().contains(key));
                        assert(has_task(m[key], add[j - q.len()].task));
                        assert(queued(m, add[j - q.len()].task));
                    }
                } else {
                    assert(s[i] == add[i - q.len()] && s[j] == add[j - q.len()]);
                }
            }
        }
    }
    assert forall|k1: FutexKey, k2: FutexKey, i1: int, i2: int|
        n.dom().contains(k1) && n.dom().contains(k2) && k1 != k2 && 0 <= i1 < n[k1].len() && 0
            <= i2 < n[k2].len() implies (#[trigger] n[k1][i1]).task != (#[trigger] n[k2][i2]).task by {
        if k1 == key {
            if i1 < q.len() {
                assert(s[i1] == m[k1][i1]);
                assert(m[k1][i1].task != m[k2][i2].task);
            } else {
                assert(s[i1] == add[i1 - q.len()]);
                if add[i1 - q.len()].task == m[k2][i2].task {
                    assert(has_task(m[k2], add[i1 - q.len()].task));
                    assert(queued(m, add[i1 - q.len()].task));
                }
            }
        } else if k2 == key {
            if i2 < q.len() {
                assert(s[i2] == m[k2][i2]);
                assert(m[k1][i1].task != m[k2][i2].task);
            } else {
                assert(s[i2] == add[i2 - q.len()]);
                if add[i2 - q.len()].task == m[k1][i1].task {
                    assert(has_task(m[k1], add[i2 - q.len()].task));
                    assert(queued(m, add[i2 - q.len()].task));
                }
            }
        } else {
            assert(m[k1][i1].task != m[k2][i2].task);
        }
    }
}

/// One step of a front-to-back wake scan: how the woken and the remaining
/// waiters of the first `j + 1` relate to those of the first `j`.
pub proof fn lemma_wake_step(q: Seq<Waiter>, j: int, max: nat, bitset: u32)
    requires
        0 <= j < q.len(),
        distinct_tasks(q),
    ensures
        woken_by(q.take(j), max, bitset).len() <= max,
        woken_by(q.take(j), max, bitset).len() < max && intersects(q[j], bitset) ==> {
            &&& woken_by(q.take(j + 1), max, bitset) == woken_by(q.take(j), max, bitset).push(q[j])
            &&& without(q.take(j + 1), woken_by(q.take(j + 1), max, bitset)) == without(
                q.take(j),
                woken_by(q.take(j), max, bitset),
            )
        },
        !(woken_by(q.take(j), max, bitset).len() < max && intersects(q[j], bitset)) ==> {
            &&& woken_by(q.take(j + 1), max, bitset) == woken_by(q.take(j), max, bitset)
            &&& without(q.take(j + 1), woken_by(q.take(j + 1), max, bitset)) == without(
                q.take(j),
                woken_by(q.take(j), max, bitset),
            ).push(q[j])
        },
{
    let p = q.take(j);
    let next = q.take(j + 1);
    let x = q[j];
    assert(next =~= p.push(x));
    let c = matching(p, bitset);
    let more = matching(next, bitset);
    let w = woken_by(p, max, bitset);
    let grown = woken_by(next, max, bitset);
    p.lemma_filter_push(x, intersecting(bitset));
    assert forall|a: int, b: int| 0 <= a < b < p.len() implies (#[trigger] p[a]).task != (
    #[trigger] p[b]).task by {
        assert(p[a] == q[a] && p[b] == q[b]);
    }
    lemma_filter_sub(p, intersecting(bitset));
    // no waiter of the first j is the one at j
    assert forall|t: int| 0 <= t < p.len() implies #[trigger] p[t] != x by {
        assert(p[t] == q[t]);
        assert(q[t].task != q[j].task);
    }
    assert(!p.contains(x));
    // the woken ones so far are among the first j
    assert forall|t: int| 0 <= t < w.len() implies p.contains(#[trigger] w[t]) by {
        assert(w[t] == c[t]);
    }
    assert(!w.contains(x)) by {
        if w.contains(x) {
            let t = choose|t: int| 0 <= t < w.len() && w[t] == x;
            assert(p.contains(w[t]));
        }
    }
    if w.len() < max && intersects(x, bitset) {
        assert(c.len() < max);
        assert(w == c);
        assert(more == c.push(x));
        assert(grown == w.push(x));
        assert(grown[grown.len() - 1] == x);
        assert(grown.contains(x));
        p.lemma_filter_push(x, not_in(grown));
        assert forall|t: int| 0 <= t < p.len() implies not_in(grown)(#[trigger] p[t]) == not_in(w)(
            p[t],
        ) by {
            let y = p[t];
            if grown.contains(y) {
                let u = choose|u: int| 0 <= u < grown.len() && grown[u] == y;
                if u < w.len() {
                    assert(w[u] == y);
                } else {
                    assert(y == x);
                }
            }
            if w.contains(y) {
                let u = choose|u: int| 0 <= u < w.len() && w[u] == y;
                assert(grown[u] == y);
            }
        }
        lemma_filter_agree(p, not_in(grown), not_in(w));
    } else {
        if intersects(x, bitset) {
            assert(more == c.push(x));
            assert(c.len() >= max);
            if c.len() == max {
                assert(more.take(max as int) =~= c);
            } else {
                assert(more.take(max as int) =~= c.take(max as int));
            }
        }
        assert(grown == w);
        p.lemma_filter_push(x, not_in(w));
    }
}

/// A predicate that holds of every element filters nothing out.
pub proof fn lemma_filter_all(s: Seq<Waiter>, p: spec_fn(Waiter) -> bool)
    requires
        forall|i: int| 0 <= i < s.len() ==> p(#[trigger] s[i]),
    ensures
        s.filter(p) == s,
    decreases s.len(),
{
    reveal(Seq::filter);
    if s.len() > 0 {
        let rest = s.drop_last();
        assert forall|i: int| 0 <= i < rest.len() implies p(#[trigger] rest[i]) by {
            assert(rest[i] == s[i]);
        }
        lemma_filter_all(rest, p);
        assert(p(s[s.len() - 1]));
        assert(rest.push(s.last()) =~= s);
    }
}

/// In a valid table a task has at most one waiter.
pub proof fn lemma_waiter_unique(m: QueueMap, a: Waiter, b: Waiter)
    requires
        valid_queues(m),
        in_table(m, a),
        in_table(m, b),
        a.task == b.task,
    ensures
        a == b,
{
    let i = choose|i: int| 0 <= i < m[a.key].len() && m[a.key][i] == a;
    let j = choose|j: int| 0 <= j < m[b.key].len() && m[b.key][j] == b;
    if a.key != b.key {
        assert(m[a.key][i].task != m[b.key][j].task);
    } else if i < j {
        assert(distinct_tasks(m[a.key]));
        assert(m[a.key][i].task != m[a.key][j].task);
    } else if j < i {
        assert(distinct_tasks(m[a.key]));
        assert(m[a.key][j].task != m[a.key][i].task);
    }
}

/// A queued task has a waiter in the table, and only one.
pub proof fn lemma_waiter_of(m: QueueMap, task: u64)
    requires
        valid_queues(m),
        queued(m, task),
    ensures
        waiter_of(m, task).task == task,
        in_table(m, waiter_of(m, task)),
{
    let k = choose|k: FutexKey| #[trigger] m.dom().contains(k) && has_task(m[k], task);
    let i = choose|i: int| 0 <= i < m[k].len() && (#[trigger] m[k][i]).task == task;
    let w = m[k][i];
    assert(w.key == k);
    assert(m[w.key].contains(w));
    assert(w.task == task && in_table(m, w));
}

/// Dropping a task that does not wait changes nothing.
pub proof fn lemma_drop_absent(m: QueueMap, task: u64)
    requires
        valid_queues(m),
        !queued(m, task),
    ensures
        drop_task(m, task) == m,
{
    let d = drop_task(m, task);
    assert forall|k: FutexKey| m.dom().contains(k) implies without_task(m[k], task) == m[k] by {
        assert forall|i: int| 0 <= i < m[k].len() implies not_task(task)(#[trigger] m[k][i]) by {
            if m[k][i].task == task {
                assert(has_task(m[k], task));
            }
        }
        lemma_filter_all(m[k], not_task(task));
    }
    assert(d =~= m);
}

/// Dropping the task of a waiter `w` of the table takes `w` out of its own
/// queue and touches no other; the table stays valid and the task no longer
/// waits.
pub proof fn lemma_drop_present(m: QueueMap, w: Waiter)
    requires
        valid_queues(m),
        in_table(m, w),
    ensures
        drop_task(m, w.task) == set_queue(m, w.key, without_task(m[w.key], w.task)),
        valid_queues(drop_task(m, w.task)),
        !queued(drop_task(m, w.task), w.task),
{
    let task = w.task;
    let d = drop_task(m, task);
    let n = set_queue(m, w.key, without_task(m[w.key], task));
    let i = choose|i: int| 0 <= i < m[w.key].len() && m[w.key][i] == w;
    assert forall|k: FutexKey| m.dom().contains(k) && k != w.key implies without_task(m[k], task)
        == m[k] by {
        assert forall|j: int| 0 <= j < m[k].len() implies not_task(task)(#[trigger] m[k][j]) by {
            assert(m[k][j].task != m[w.key][i].task);
        }
        lemma_filter_all(m[k], not_task(task));
    }
    assert(d =~= n);
    assert(distinct_tasks(m[w.key]));
    lemma_filter_sub(m[w.key], not_task(task));
    lemma_shrink_valid(m, w.key, without_task(m[w.key], task));
    if queued(d, task) {
        let k = choose|k: FutexKey| #[trigger] d.dom().contains(k) && has_task(d[k], task);
        let j = choose|j: int| 0 <= j < d[k].len() && (#[trigger] d[k][j]).task == task;
        assert(distinct_tasks(m[k]));
        lemma_filter_sub(m[k], not_task(task));
        assert(not_task(task)(d[k][j]));
    }
}

} // verus!
