use vstd::prelude::*;
use crate::crawl::{
    pending, record_of, resolves_to, successes, waits_after, window_count, SiteStrategy,
};
use crate::models::{ParsedModel, RecordModel, TaskModel};

verus! {

proof fn lemma_first_accepting(strategies: Seq<SiteStrategy>, url: Seq<char>, i: int)
    requires
        0 <= i < strategies.len(),
        strategies[i].accepts(url),
    ensures
        exists|k: int| k <= i && resolves_to(strategies, url, k),
    decreases i,
{
    if forall|j: int| 0 <= j < i ==> !(#[trigger] strategies[j]).accepts(url) {
        assert(resolves_to(strategies, url, i));
    } else {
        let j = choose|j: int| 0 <= j < i && (#[trigger] strategies[j]).accepts(url);
        lemma_first_accepting(strategies, url, j);
    }
}

/// Resolution is deterministic and the first registered match wins: where
/// strategies `i < j` both take `url`, exactly one strategy is resolved, it
/// comes no later than `i`, and it is not `j`.
pub proof fn law_first_registered_wins(strategies: Seq<SiteStrategy>, url: Seq<char>, i: int, j: int)
    requires
        0 <= i < j < strategies.len(),
        strategies[i].accepts(url),
        strategies[j].accepts(url),
    ensures
        exists|k: int| k <= i && resolves_to(strategies, url, k),
        forall|k: int| #[trigger] resolves_to(strategies, url, k) ==> k <= i,
        !resolves_to(strategies, url, j),
        forall|k1: int, k2: int| resolves_to(strategies, url, k1) && resolves_to(strategies, url, k2) ==> k1 == k2,
{
    lemma_first_accepting(strategies, url, i);
    assert forall|k1: int, k2: int| resolves_to(strategies, url, k1) && resolves_to(strategies, url, k2) implies k1 == k2 by {
        if k1 < k2 {
            assert(!strategies[k1].accepts(url));
        } else if k2 < k1 {
            assert(!strategies[k2].accepts(url));
        }
    }
}

/// How many of the first `upto` windows, of `count`, are followed by a wait.
pub open spec fn wait_count(upto: int, count: int) -> int
    decreases upto,
{
    if upto <= 0 {
        0
    } else {
        wait_count(upto - 1, count) + if waits_after(upto - 1, count) { 1int } else { 0int }
    }
}

proof fn lemma_wait_count(upto: int, count: int)
    requires
        0 <= upto < count,
    ensures
        wait_count(upto, count) == upto,
    decreases upto,
{
    if upto > 0 {
        lemma_wait_count(upto - 1, count);
    }
}

/// The batch partition: `n` tasks in windows of `size` make the ceiling of
/// `n / size` windows, and the scheduler waits exactly once fewer than
/// there are windows, never after the last.
pub proof fn law_batch_partition(n: int, size: int)
    requires
        n >= 0,
        size > 0,
    ensures
        n > 0 ==> (window_count(n, size) - 1) * size < n && n <= window_count(n, size) * size,
        n == 0 ==> window_count(n, size) == 0,
        window_count(n, size) > 0 ==> wait_count(window_count(n, size), window_count(n, size)) == window_count(n, size) - 1,
        window_count(n, size) > 0 ==> !waits_after(window_count(n, size) - 1, window_count(n, size)),
{
    let w = window_count(n, size);
    if n > 0 {
        let q = (n + size - 1) / size;
        let r = (n + size - 1) % size;
        assert(n + size - 1 == q * size + r && 0 <= r < size) by {
            vstd::arithmetic::div_mod::lemma_fundamental_div_mod(n + size - 1, size);
        }
        assert((q - 1) * size < n && n <= q * size) by (nonlinear_arith)
            requires n + size - 1 == q * size + r, 0 <= r < size, size > 0;
    } else {
        assert(w == 0) by (nonlinear_arith)
            requires n == 0, size > 0, w == (n + size - 1) / size;
    }
    if w > 0 {
        lemma_wait_count(w - 1, w);
    }
}

proof fn lemma_successes_all_some(ts: Seq<TaskModel>, os: Seq<Option<ParsedModel>>)
    requires
        ts.len() <= os.len(),
        forall|i: int| 0 <= i < ts.len() ==> (#[trigger] os[i]) is Some,
    ensures
        successes(ts, os).len() == ts.len(),
    decreases ts.len(),
{
    if ts.len() > 0 {
        lemma_successes_all_some(ts.drop_last(), os);
    }
}

proof fn lemma_successes_all_none(ts: Seq<TaskModel>, os: Seq<Option<ParsedModel>>)
    requires
        ts.len() <= os.len(),
        forall|i: int| 0 <= i < ts.len() ==> (#[trigger] os[i]) is None,
    ensures
        successes(ts, os).len() == 0,
    decreases ts.len(),
{
    if ts.len() > 0 {
        lemma_successes_all_none(ts.drop_last(), os);
    }
}

proof fn lemma_successes_has(ts: Seq<TaskModel>, os: Seq<Option<ParsedModel>>, i: int)
    requires
        ts.len() <= os.len(),
        0 <= i < ts.len(),
        os[i] is Some,
    ensures
        successes(ts, os).contains(record_of(ts[i], os[i]->0)),
    decreases ts.len(),
{
    let front = successes(ts.drop_last(), os);
    if i == ts.len() - 1 {
        assert(successes(ts, os).last() == record_of(ts[i], os[i]->0));
    } else {
        lemma_successes_has(ts.drop_last(), os, i);
        let k = choose|k: int| 0 <= k < front.len() && front[k] == record_of(ts[i], os[i]->0);
        match os[ts.len() - 1] {
            Some(p) => assert(successes(ts, os)[k] == front[k]),
            None => {},
        }
    }
}

proof fn lemma_successes_from(ts: Seq<TaskModel>, os: Seq<Option<ParsedModel>>, r: RecordModel)
    requires
        ts.len() <= os.len(),
        successes(ts, os).contains(r),
    ensures
        exists|i: int| 0 <= i < ts.len() && #[trigger] os[i] is Some && r == record_of(ts[i], os[i]->0),
    decreases ts.len(),
{
    let front = successes(ts.drop_last(), os);
    let last = ts.len() - 1;
    match os[last] {
        Some(p) => {
            if r == record_of(ts[last], p) {
                assert(os[last] is Some);
            } else {
                let k = choose|k: int| 0 <= k < successes(ts, os).len() && successes(ts, os)[k] == r;
                assert(k < front.len());
                assert(front[k] == r);
                lemma_successes_from(ts.drop_last(), os, r);
                let i = choose|i: int| 0 <= i < ts.drop_last().len() && #[trigger] os[i] is Some
                    && r == record_of(ts.drop_last()[i], os[i]->0);
                assert(ts.drop_last()[i] == ts[i]);
            }
        },
        None => {
            lemma_successes_from(ts.drop_last(), os, r);
            let i = choose|i: int| 0 <= i < ts.drop_last().len() && #[trigger] os[i] is Some
                && r == record_of(ts.drop_last()[i], os[i]->0);
            assert(ts.drop_last()[i] == ts[i]);
        },
    }
}

proof fn lemma_successes_one_failure(ts: Seq<TaskModel>, os: Seq<Option<ParsedModel>>, f: int)
    requires
        ts.len() <= os.len(),
        0 <= f < ts.len(),
        os[f] is None,
        forall|i: int| 0 <= i < ts.len() && i != f ==> (#[trigger] os[i]) is Some,
    ensures
        successes(ts, os).len() == ts.len() - 1,
    decreases ts.len(),
{
    if f == ts.len() - 1 {
        lemma_successes_all_some(ts.drop_last(), os);
    } else {
        lemma_successes_one_failure(ts.drop_last(), os, f);
    }
}

/// One failure stays in its place: where exactly the fetch of task `f` of a
/// window fails, the window writes a record for every other task, one each,
/// and none carries the failed task's key unless another task shares it.
pub proof fn law_failure_isolated(ts: Seq<TaskModel>, os: Seq<Option<ParsedModel>>, f: int)
    requires
        ts.len() == os.len(),
        0 <= f < ts.len(),
        os[f] is None,
        forall|i: int| 0 <= i < ts.len() && i != f ==> (#[trigger] os[i]) is Some,
    ensures
        successes(ts, os).len() == ts.len() - 1,
        forall|i: int| 0 <= i < ts.len() && i != f ==> successes(ts, os).contains(
            #[trigger] record_of(ts[i], os[i]->0)),
        (forall|i: int| 0 <= i < ts.len() && i != f ==> (#[trigger] ts[i]).1 != ts[f].1) ==> forall|r: RecordModel|
            #[trigger] successes(ts, os).contains(r) ==> r.1 != ts[f].1,
{
    lemma_successes_one_failure(ts, os, f);
    assert forall|i: int| 0 <= i < ts.len() && i != f implies successes(ts, os).contains(
        #[trigger] record_of(ts[i], os[i]->0)) by {
        lemma_successes_has(ts, os, i);
    }
    if forall|i: int| 0 <= i < ts.len() && i != f ==> (#[trigger] ts[i]).1 != ts[f].1 {
        assert forall|r: RecordModel| #[trigger] successes(ts, os).contains(r) implies r.1 != ts[f].1 by {
            lemma_successes_from(ts, os, r);
            let i = choose|i: int| 0 <= i < ts.len() && #[trigger] os[i] is Some && r == record_of(ts[i], os[i]->0);
            assert(i != f);
        }
    }
}

/// The keys of a list of records.
pub open spec fn keys_of(rs: Seq<RecordModel>) -> Seq<i32> {
    rs.map_values(|r: RecordModel| r.1)
}

/// The records that one crawl writes, where `outcome` is what fetching each
/// task gives: those of the pending tasks whose fetch succeeded.
pub open spec fn run_records(ts: Seq<TaskModel>, existing: Seq<i32>, outcome: spec_fn(TaskModel) -> Option<ParsedModel>) -> Seq<RecordModel> {
    let p = pending(ts, existing);
    successes(p, p.map_values(outcome))
}

proof fn lemma_pending_from(ts: Seq<TaskModel>, existing: Seq<i32>, t: TaskModel)
    requires
        pending(ts, existing).contains(t),
    ensures
        ts.contains(t),
        !existing.contains(t.1),
    decreases ts.len(),
{
    let p = pending(ts, existing);
    let front = pending(ts.drop_last(), existing);
    let k = choose|k: int| 0 <= k < p.len() && p[k] == t;
    if !existing.contains(ts.last().1) && k == p.len() - 1 {
        assert(ts[ts.len() - 1] == t);
    } else {
        assert(front[k] == t);
        lemma_pending_from(ts.drop_last(), existing, t);
        let m = choose|m: int| 0 <= m < ts.drop_last().len() && ts.drop_last()[m] == t;
        assert(ts[m] == t);
    }
}

proof fn lemma_pending_has(ts: Seq<TaskModel>, existing: Seq<i32>, i: int)
    requires
        0 <= i < ts.len(),
        !existing.contains(ts[i].1),
    ensures
        pending(ts, existing).contains(ts[i]),
    decreases ts.len(),
{
    let front = pending(ts.drop_last(), existing);
    if i == ts.len() - 1 {
        assert(pending(ts, existing).last() == ts[i]);
    } else {
        lemma_pending_has(ts.drop_last(), existing, i);
        let k = choose|k: int| 0 <= k < front.len() && front[k] == ts.drop_last()[i];
        if !existing.contains(ts.last().1) {
            assert(pending(ts, existing)[k] == front[k]);
        }
    }
}

/// Rerunning a crawl adds nothing: after a run has written its records, a
/// second run over the same listing, with every fetch giving what it gave
/// before, finds nothing to write.
pub proof fn law_rerun_writes_nothing(ts: Seq<TaskModel>, existing: Seq<i32>, outcome: spec_fn(TaskModel) -> Option<ParsedModel>)
    ensures
        run_records(ts, existing + keys_of(run_records(ts, existing, outcome)), outcome).len() == 0,
{
    let first = run_records(ts, existing, outcome);
    let existing2 = existing + keys_of(first);
    let pend_a = pending(ts, existing);
    let pend_b = pending(ts, existing2);
    let outs_a = pend_a.map_values(outcome);
    let outs_b = pend_b.map_values(outcome);
    assert forall|i: int| 0 <= i < pend_b.len() implies (#[trigger] outs_b[i]) is None by {
        let t = pend_b[i];
        assert(pend_b.contains(t));
        lemma_pending_from(ts, existing2, t);
        if outcome(t) is Some {
            assert(!existing.contains(t.1)) by {
                if existing.contains(t.1) {
                    let m = choose|m: int| 0 <= m < existing.len() && existing[m] == t.1;
                    assert(existing2[m] == t.1);
                }
            }
            let m = choose|m: int| 0 <= m < ts.len() && ts[m] == t;
            lemma_pending_has(ts, existing, m);
            let k = choose|k: int| 0 <= k < pend_a.len() && pend_a[k] == t;
            assert(outs_a[k] == outcome(t));
            lemma_successes_has(pend_a, outs_a, k);
            let rec = record_of(pend_a[k], outs_a[k]->0);
            let q = choose|q: int| 0 <= q < first.len() && first[q] == rec;
            assert(keys_of(first)[q] == t.1);
            assert(existing2[existing.len() + q] == t.1);
            assert(existing2.contains(t.1));
        }
    }
    lemma_successes_all_none(pend_b, outs_b);
}

proof fn lemma_successes_prefix(ts: Seq<TaskModel>, os: Seq<Option<ParsedModel>>, os2: Seq<Option<ParsedModel>>)
    requires
        ts.len() <= os.len(),
        ts.len() <= os2.len(),
        forall|i: int| 0 <= i < ts.len() ==> os[i] == os2[i],
    ensures
        successes(ts, os) == successes(ts, os2),
    decreases ts.len(),
{
    if ts.len() > 0 {
        lemma_successes_prefix(ts.drop_last(), os, os2);
    }
}

/// Writing window by window writes what the whole list would: the records
/// of tasks cut at `m` are the records of the part before `m` followed by
/// those of the part from `m` on.
pub proof fn law_windows_compose(ts: Seq<TaskModel>, os: Seq<Option<ParsedModel>>, m: int)
    requires
        ts.len() == os.len(),
        0 <= m <= ts.len(),
    ensures
        successes(ts, os) == successes(ts.subrange(0, m), os.subrange(0, m)) + successes(
            ts.subrange(m, ts.len() as int),
            os.subrange(m, os.len() as int),
        ),
    decreases ts.len(),
{
    let n = ts.len() as int;
    if m == n {
        assert(ts.subrange(0, m) =~= ts);
        assert(os.subrange(0, m) =~= os);
        assert(successes(ts.subrange(m, n), os.subrange(m, n)) =~= Seq::<RecordModel>::empty());
        assert(successes(ts, os) + Seq::<RecordModel>::empty() =~= successes(ts, os));
    } else {
        let t1 = ts.drop_last();
        let outs_a = os.drop_last();
        law_windows_compose(t1, outs_a, m);
        lemma_successes_prefix(t1, os, outs_a);
        assert(t1.subrange(0, m) =~= ts.subrange(0, m));
        assert(outs_a.subrange(0, m) =~= os.subrange(0, m));
        let right = ts.subrange(m, n);
        let oright = os.subrange(m, n);
        assert(right.drop_last() =~= t1.subrange(m, n - 1));
        lemma_successes_prefix(right.drop_last(), oright, outs_a.subrange(m, n - 1));
        assert(right.last() == ts.last());
        assert(oright[right.len() - 1] == os[n - 1]);
        let a = successes(ts.subrange(0, m), os.subrange(0, m));
        let b = successes(t1.subrange(m, n - 1), outs_a.subrange(m, n - 1));
        match os[n - 1] {
            Some(p) => {
                assert((a + b).push(record_of(ts.last(), p)) =~= a + b.push(record_of(ts.last(), p)));
            },
            None => {},
        }
    }
}

} // verus!
