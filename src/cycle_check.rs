//! Validation of the dependency graph among the workloads of a desired state.
//!
//! Nodes are the workloads; an edge runs from a workload to each workload it
//! depends on. A dependency on a name that is not a workload is no edge.
use vstd::prelude::*;

use crate::keyed::{find_key, keys_unique};
use crate::state::{workloads_view, State, WorkloadsView};
use crate::stored_workload_spec::StoredWorkloadSpec;

verus! {

/// Workload `i` names workload `j` among its dependencies.
pub open spec fn depends_on(ws: WorkloadsView, i: int, j: int) -> bool {
    &&& 0 <= i < ws.len()
    &&& 0 <= j < ws.len()
    &&& exists|d: int|
        0 <= d < ws[i].1.dependencies.len() && #[trigger] ws[i].1.dependencies[d].0@ == ws[j].0@
}

/// A walk of at least one edge along dependencies.
pub open spec fn is_dependency_path(ws: WorkloadsView, p: Seq<int>) -> bool {
    &&& p.len() >= 2
    &&& forall|k: int| 0 <= k < p.len() - 1 ==> depends_on(ws, #[trigger] p[k], p[k + 1])
}

/// Workload `i` lies on a cycle: some walk leads from it back to it.
pub open spec fn on_cycle(ws: WorkloadsView, i: int) -> bool {
    exists|p: Seq<int>| is_dependency_path(ws, p) && p[0] == i && p.last() == i
}

/// No workload lies on a cycle.
pub open spec fn acyclic(ws: WorkloadsView) -> bool {
    forall|i: int| 0 <= i < ws.len() ==> !on_cycle(ws, i)
}

/// The workload named in a cycle error.
#[derive(Debug, PartialEq, Eq)]
pub struct CycleError {
    pub workload_name: String,
}

pub open spec fn count_true(s: Seq<bool>) -> nat
    decreases s.len(),
{
    if s.len() == 0 {
        0
    } else {
        count_true(s.drop_last()) + if s.last() {
            1nat
        } else {
            0nat
        }
    }
}

proof fn lemma_count_set(s: Seq<bool>, i: int)
    requires
        0 <= i < s.len(),
        !s[i],
    ensures
        count_true(s.update(i, true)) == count_true(s) + 1,
    decreases s.len(),
{
    let t = s.update(i, true);
    if i == s.len() - 1 {
        assert(t.drop_last() =~= s.drop_last());
    } else {
        assert(t.drop_last() =~= s.drop_last().update(i, true));
        lemma_count_set(s.drop_last(), i);
    }
}

proof fn lemma_count_bound(s: Seq<bool>)
    ensures
        count_true(s) <= s.len(),
        (exists|i: int| 0 <= i < s.len() && !s[i]) ==> count_true(s) < s.len(),
    decreases s.len(),
{
    if s.len() > 0 {
        lemma_count_bound(s.drop_last());
        if exists|i: int| 0 <= i < s.len() && !s[i] {
            let i = choose|i: int| 0 <= i < s.len() && !s[i];
            if i < s.len() - 1 {
                assert(!s.drop_last()[i]);
            }
        }
    }
}

/// Along a walk whose nodes all carry a rank that drops along every edge, the rank
/// of each later node is below that of the first.
proof fn lemma_rank_drops(ws: WorkloadsView, rank: Seq<int>, p: Seq<int>, k: int)
    requires
        is_dependency_path(ws, p),
        rank.len() == ws.len(),
        forall|i: int, j: int| depends_on(ws, i, j) ==> rank[j] < rank[i],
        1 <= k < p.len(),
    ensures
        rank[p[k]] < rank[p[0]],
    decreases k,
{
    assert(depends_on(ws, p[k - 1], p[k]));
    if k > 1 {
        lemma_rank_drops(ws, rank, p, k - 1);
    }
}

/// `n` marks, none set.
fn unset_marks(n: usize) -> (r: Vec<bool>)
    ensures
        r@.len() == n,
        forall|m: int| 0 <= m < n ==> !r@[m],
        count_true(r@) == 0,
{
    let mut r: Vec<bool> = Vec::new();
    let mut k: usize = 0;
    while k < n
        invariant
            k <= n,
            r@.len() == k,
            forall|m: int| 0 <= m < k ==> !r@[m],
            count_true(r@) == 0,
        decreases n - k,
    {
        let ghost before = r@;
        r.push(false);
        assert(r@.drop_last() =~= before);
        k = k + 1;
    }
    r
}

/// A dependency of workload `i` that is not yet done, if there is one.
fn blocking_dependency(ws: &Vec<(String, StoredWorkloadSpec)>, done: &Vec<bool>, i: usize) -> (r:
    Option<usize>)
    requires
        keys_unique(workloads_view(ws@)),
        done@.len() == ws@.len(),
        i < ws@.len(),
    ensures
        match r {
            Some(j) => depends_on(workloads_view(ws@), i as int, j as int) && !done@[j as int],
            None => forall|j: int|
                depends_on(workloads_view(ws@), i as int, j) ==> done@[j],
        },
{
    let ghost wv = workloads_view(ws@);
    let deps = &ws[i].1.dependencies;
    assert(deps@ == wv[i as int].1.dependencies);
    let mut d: usize = 0;
    while d < deps.len()
        invariant
            wv == workloads_view(ws@),
            keys_unique(wv),
            done@.len() == ws@.len(),
            deps@ == wv[i as int].1.dependencies,
            i < ws@.len(),
            d <= deps@.len(),
            forall|e: int, j: int|
                #![trigger deps@[e], wv[j]]
                0 <= e < d && 0 <= j < wv.len() && deps@[e].0@ == wv[j].0@ ==> done@[j],
        decreases deps@.len() - d,
    {
        match find_key(ws, deps[d].0.as_str()) {
            Some(j) => {
                assert(wv[j as int].0@ == deps@[d as int].0@);
                if !done[j] {
                    assert(depends_on(wv, i as int, j as int));
                    return Some(j);
                }
            },
            None => {
                assert forall|j: int| 0 <= j < wv.len() implies wv[j].0@ != deps@[d as int].0@ by {
                    assert(ws@[j].0@ == wv[j].0@);
                }
            },
        }
        d = d + 1;
    }
    None
}

/// Some workload that is not done and whose dependencies are all done, if any.
fn find_ready(ws: &Vec<(String, StoredWorkloadSpec)>, done: &Vec<bool>) -> (r: Option<usize>)
    requires
        keys_unique(workloads_view(ws@)),
        done@.len() == ws@.len(),
    ensures
        match r {
            Some(i) => i < ws@.len() && !done@[i as int] && forall|j: int|
                depends_on(workloads_view(ws@), i as int, j) ==> done@[j],
            None => forall|i: int|
                0 <= i < ws@.len() && !done@[i] ==> exists|j: int|
                    depends_on(workloads_view(ws@), i, j) && !done@[j],
        },
{
    let mut i: usize = 0;
    while i < ws.len()
        invariant
            keys_unique(workloads_view(ws@)),
            done@.len() == ws@.len(),
            i <= ws@.len(),
            forall|k: int|
                0 <= k < i && !done@[k] ==> exists|j: int|
                    depends_on(workloads_view(ws@), k, j) && !done@[j],
        decreases ws@.len() - i,
    {
        if !done[i] {
            match blocking_dependency(ws, done, i) {
                None => {
                    return Some(i);
                },
                Some(j) => {},
            }
        }
        i = i + 1;
    }
    None
}

/// Walks from a workload that is not done along dependencies that are not done, where
/// every such workload has one, until a workload repeats; that workload is on a cycle.
fn find_cycle_member(ws: &Vec<(String, StoredWorkloadSpec)>, done: &Vec<bool>, start: usize) -> (r:
    usize)
    requires
        keys_unique(workloads_view(ws@)),
        done@.len() == ws@.len(),
        start < ws@.len(),
        !done@[start as int],
        forall|i: int|
            0 <= i < ws@.len() && !done@[i] ==> exists|j: int|
                depends_on(workloads_view(ws@), i, j) && !done@[j],
    ensures
        r < ws@.len(),
        on_cycle(workloads_view(ws@), r as int),
{
    let ghost wv = workloads_view(ws@);
    let n = ws.len();
    let mut on_path = unset_marks(n);
    let ghost mut path: Seq<int> = Seq::empty();
    let mut path_len: usize = 0;
    let mut cur = start;
    while !on_path[cur]
        invariant
            wv == workloads_view(ws@),
            keys_unique(wv),
            n == ws@.len(),
            done@.len() == n,
            on_path@.len() == n,
            cur < n,
            !done@[cur as int],
            forall|i: int|
                0 <= i < n && !done@[i] ==> exists|j: int| depends_on(wv, i, j) && !done@[j],
            path_len == path.len(),
            path_len == count_true(on_path@),
            forall|m: int| 0 <= m < path.len() ==> 0 <= #[trigger] path[m] < n,
            forall|i: int|
                0 <= i < n ==> (on_path@[i] <==> exists|m: int|
                    0 <= m < path.len() && #[trigger] path[m] == i),
            forall|m: int| 0 <= m < path.len() - 1 ==> depends_on(wv, #[trigger] path[m], path[m + 1]),
            path.len() > 0 ==> depends_on(wv, path.last(), cur as int),
        decreases n - path_len,
    {
        proof {
            lemma_count_set(on_path@, cur as int);
            lemma_count_bound(on_path@.update(cur as int, true));
        }
        let ghost old_path = path;
        on_path.set(cur, true);
        proof {
            path = path.push(cur as int);
            assert forall|i: int|
                0 <= i < n implies (on_path@[i] <==> exists|m: int|
                    0 <= m < path.len() && #[trigger] path[m] == i) by {
                if on_path@[i] && i != cur {
                    let m = choose|m: int| 0 <= m < old_path.len() && old_path[m] == i;
                    assert(path[m] == i);
                }
                if i == cur {
                    assert(path[path.len() - 1] == i);
                }
                if exists|m: int| 0 <= m < path.len() && #[trigger] path[m] == i {
                    let m = choose|m: int| 0 <= m < path.len() && #[trigger] path[m] == i;
                    if m < old_path.len() {
                        assert(old_path[m] == i);
                    }
                }
            }
            assert forall|m: int| 0 <= m < path.len() - 1 implies depends_on(
                wv,
                #[trigger] path[m],
                path[m + 1],
            ) by {
                if m < old_path.len() - 1 {
                    assert(path[m] == old_path[m] && path[m + 1] == old_path[m + 1]);
                } else {
                    assert(path[m] == old_path.last());
                }
            }
        }
        path_len = path_len + 1;
        match blocking_dependency(ws, done, cur) {
            Some(j) => {
                cur = j;
            },
            None => {
                proof {
                    let j = choose|j: int| depends_on(wv, cur as int, j) && !done@[j];
                    assert(false);
                }
            },
        }
    }
    proof {
        let m = choose|m: int| 0 <= m < path.len() && #[trigger] path[m] == cur as int;
        let cyc = path.subrange(m, path.len() as int).push(cur as int);
        assert(cyc[0] == cur as int);
        assert(cyc.last() == cur as int);
        assert forall|t: int| 0 <= t < cyc.len() - 1 implies depends_on(
            wv,
            #[trigger] cyc[t],
            cyc[t + 1],
        ) by {
            if t < cyc.len() - 2 {
                assert(cyc[t] == path[m + t] && cyc[t + 1] == path[m + t + 1]);
            } else {
                assert(cyc[t] == path.last());
            }
        }
        assert(is_dependency_path(wv, cyc));
    }
    cur
}

/// Succeeds exactly when the dependency graph of the state's workloads has no cycle;
/// otherwise names a workload that lies on one.
pub fn check(state: &State) -> (r: Result<(), CycleError>)
    requires
        keys_unique(state@.workloads),
    ensures
        r is Ok <==> acyclic(state@.workloads),
        r matches Err(e) ==> exists|i: int|
            0 <= i < state@.workloads.len() && state@.workloads[i].0@ == e.workload_name@
                && on_cycle(state@.workloads, i),
{
    let ws = &state.workloads;
    let ghost wv = workloads_view(ws@);
    let n = ws.len();
    let mut done = unset_marks(n);
    let ghost mut rank: Seq<int> = Seq::new(n as nat, |x: int| 0);
    let mut count: usize = 0;
    loop
        invariant
            wv == workloads_view(ws@),
            keys_unique(wv),
            n == ws@.len(),
            done@.len() == n,
            rank.len() == n,
            count == count_true(done@),
            count <= n,
            forall|i: int| 0 <= i < n && done@[i] ==> rank[i] < count,
            forall|i: int, j: int|
                depends_on(wv, i, j) && done@[i] ==> done@[j] && rank[j] < rank[i],
        ensures
            done@.len() == n,
            forall|i: int|
                0 <= i < n && !done@[i] ==> exists|j: int| depends_on(wv, i, j) && !done@[j],
            forall|i: int, j: int|
                depends_on(wv, i, j) && done@[i] ==> done@[j] && rank[j] < rank[i],
        decreases n - count,
    {
        match find_ready(ws, &done) {
            Some(i) => {
                proof {
                    lemma_count_set(done@, i as int);
                    lemma_count_bound(done@.update(i as int, true));
                    rank = rank.update(i as int, count as int);
                }
                done.set(i, true);
                count = count + 1;
            },
            None => {
                break ;
            },
        }
    }
    let mut s: usize = 0;
    while s < n
        invariant
            s <= n,
            wv == workloads_view(ws@),
            state@.workloads == wv,
            keys_unique(wv),
            n == ws@.len(),
            done@.len() == n,
            forall|m: int| 0 <= m < s ==> done@[m],
            forall|i: int|
                0 <= i < n && !done@[i] ==> exists|j: int| depends_on(wv, i, j) && !done@[j],
        decreases n - s,
    {
        if !done[s] {
            let c = find_cycle_member(ws, &done, s);
            proof {
                assert(on_cycle(wv, c as int));
                assert(0 <= c < wv.len());
                assert(wv[c as int].0 == ws@[c as int].0);
                assert(!acyclic(wv));
            }
            return Err(CycleError { workload_name: ws[c].0.clone() });
        }
        s = s + 1;
    }
    proof {
        assert forall|i: int| 0 <= i < wv.len() implies !on_cycle(wv, i) by {
            if on_cycle(wv, i) {
                let p = choose|p: Seq<int>| is_dependency_path(wv, p) && p[0] == i && p.last() == i;
                lemma_rank_drops(wv, rank, p, p.len() - 1);
            }
        }
    }
    Ok(())
}

} // verus!
