//! The add/delete delta between two sets of workloads, by instance identity.
use vstd::prelude::*;

use crate::keyed::{find_key, has_key, key_index, keys_unique, lemma_key_index_unique};
use crate::objects::{
    config_digest, deleted_view, specs_view, AddCondition, DeleteCondition, DeletedWorkload,
    WorkloadInstanceName, WorkloadSpec, WorkloadSpecView,
};
use crate::state::{workloads_view, WorkloadsView};
use crate::stored_workload_spec::{to_workload_spec, workload_spec_of, StoredWorkloadSpec, StoredWorkloadSpecView};

verus! {

/// The instance that a named stored workload stands for.
pub open spec fn instance_of(e: (String, StoredWorkloadSpecView)) -> WorkloadInstanceName {
    WorkloadInstanceName {
        workload_name: e.0,
        agent_name: e.1.agent,
        config_hash: config_digest(e.1.runtime_config@),
    }
}

/// `m` holds, under the name of `e`, the very instance that `e` stands for.
pub open spec fn instance_kept(m: WorkloadsView, e: (String, StoredWorkloadSpecView)) -> bool {
    exists|i: int| 0 <= i < m.len() && m[i].0@ == e.0@ && instance_of(m[i])@ == instance_of(e)@
}

pub open spec fn not_kept_in(m: WorkloadsView) -> spec_fn((String, StoredWorkloadSpecView)) -> bool {
    |e: (String, StoredWorkloadSpecView)| !instance_kept(m, e)
}

pub open spec fn as_workload_spec() -> spec_fn((String, StoredWorkloadSpecView)) -> WorkloadSpecView {
    |e: (String, StoredWorkloadSpecView)| workload_spec_of(e.0, e.1)
}

/// Workload `w` waits for `name` to be running before it starts.
pub open spec fn waits_for_running(w: (String, StoredWorkloadSpecView), name: Seq<char>) -> bool {
    exists|d: int|
        0 <= d < w.1.dependencies.len() && #[trigger] w.1.dependencies[d].0@ == name
            && w.1.dependencies[d].1 == AddCondition::AddCondRunning
}

pub open spec fn waits_for(name: Seq<char>) -> spec_fn((String, StoredWorkloadSpecView)) -> bool {
    |w: (String, StoredWorkloadSpecView)| waits_for_running(w, name)
}

pub open spec fn as_delete_condition() -> spec_fn((String, StoredWorkloadSpecView)) -> (String, DeleteCondition) {
    |w: (String, StoredWorkloadSpecView)| (w.0, DeleteCondition::DelCondNotPendingNorRunning)
}

/// Before `name` is removed, each workload of `ws` that waited for it to run must have
/// left the pending and running states.
pub open spec fn delete_conditions(ws: WorkloadsView, name: Seq<char>) -> Seq<(String, DeleteCondition)> {
    ws.filter(waits_for(name)).map_values(as_delete_condition())
}

pub open spec fn as_deleted(ws: WorkloadsView) -> spec_fn((String, StoredWorkloadSpecView)) -> (WorkloadInstanceName, Seq<(String, DeleteCondition)>) {
    |e: (String, StoredWorkloadSpecView)| (instance_of(e), delete_conditions(ws, e.0@))
}

/// Workloads of `new` whose instance `old` does not hold, in the order of `new`.
pub open spec fn added_spec(old: WorkloadsView, new: WorkloadsView) -> Seq<WorkloadSpecView> {
    new.filter(not_kept_in(old)).map_values(as_workload_spec())
}

/// Instances of `old` that `new` does not hold, in the order of `old`, each with the
/// conditions that its dependents in `old` put on its removal.
pub open spec fn deleted_spec(old: WorkloadsView, new: WorkloadsView) -> Seq<(WorkloadInstanceName, Seq<(String, DeleteCondition)>)> {
    old.filter(not_kept_in(new)).map_values(as_deleted(old))
}

pub proof fn lemma_filter_map_step<A, B>(s: Seq<A>, i: int, p: spec_fn(A) -> bool, f: spec_fn(A) -> B)
    requires
        0 <= i < s.len(),
    ensures
        s.subrange(0, i + 1).filter(p).map_values(f) == if p(s[i]) {
            s.subrange(0, i).filter(p).map_values(f).push(f(s[i]))
        } else {
            s.subrange(0, i).filter(p).map_values(f)
        },
{
    reveal(Seq::filter);
    let t = s.subrange(0, i + 1);
    assert(t.drop_last() =~= s.subrange(0, i));
    assert(t.last() == s[i]);
    if p(s[i]) {
        assert(t.filter(p) == s.subrange(0, i).filter(p).push(s[i]));
        assert(t.filter(p).map_values(f) =~= s.subrange(0, i).filter(p).map_values(f).push(f(s[i])));
    }
}

pub proof fn lemma_filter_map_empty<A, B>(s: Seq<A>, p: spec_fn(A) -> bool, f: spec_fn(A) -> B)
    ensures
        s.subrange(0, 0).filter(p).map_values(f) == Seq::<B>::empty(),
{
    reveal(Seq::filter);
    assert(s.subrange(0, 0).filter(p).map_values(f) =~= Seq::<B>::empty());
}

/// Whether workload `w` waits for `name` to be running.
fn waits_for_running_exec(w: &(String, StoredWorkloadSpec), name: &str) -> (r: bool)
    ensures
        r == waits_for_running((w.0, w.1@), name@),
{
    let deps = &w.1.dependencies;
    let mut d: usize = 0;
    while d < deps.len()
        invariant
            deps@ == w.1.dependencies@,
            d <= deps@.len(),
            forall|e: int|
                0 <= e < d ==> !(#[trigger] deps@[e].0@ == name@ && deps@[e].1
                    == AddCondition::AddCondRunning),
        decreases deps@.len() - d,
    {
        if crate::keyed::str_eq(deps[d].0.as_str(), name) && deps[d].1 == AddCondition::AddCondRunning {
            return true;
        }
        d = d + 1;
    }
    false
}

/// The removal conditions that the workloads of `ws` put on `name`.
pub fn compute_delete_conditions(ws: &Vec<(String, StoredWorkloadSpec)>, name: &str) -> (r: Vec<
    (String, DeleteCondition),
>)
    ensures
        r@ == delete_conditions(workloads_view(ws@), name@),
{
    let ghost wv = workloads_view(ws@);
    let mut r: Vec<(String, DeleteCondition)> = Vec::new();
    let mut i: usize = 0;
    proof {
        lemma_filter_map_empty(wv, waits_for(name@), as_delete_condition());
    }
    while i < ws.len()
        invariant
            wv == workloads_view(ws@),
            i <= ws@.len(),
            r@ == wv.subrange(0, i as int).filter(waits_for(name@)).map_values(
                as_delete_condition(),
            ),
        decreases ws@.len() - i,
    {
        proof {
            lemma_filter_map_step(wv, i as int, waits_for(name@), as_delete_condition());
            assert(wv[i as int] == (ws@[i as int].0, ws@[i as int].1@));
        }
        if waits_for_running_exec(&ws[i], name) {
            r.push((ws[i].0.clone(), DeleteCondition::DelCondNotPendingNorRunning));
        }
        i = i + 1;
    }
    assert(wv.subrange(0, ws@.len() as int) =~= wv);
    r
}

/// Whether `m` holds the instance that entry `e` stands for under its name.
fn instance_kept_exec(m: &Vec<(String, StoredWorkloadSpec)>, e: &(String, StoredWorkloadSpec)) -> (r:
    bool)
    requires
        keys_unique(workloads_view(m@)),
    ensures
        r == instance_kept(workloads_view(m@), (e.0, e.1@)),
{
    let ghost mv = workloads_view(m@);
    match find_key(m, e.0.as_str()) {
        Some(i) => {
            let same = crate::keyed::str_eq(m[i].1.agent.as_str(), e.1.agent.as_str())
                && crate::objects::compute_config_hash(m[i].1.runtime_config.as_str())
                == crate::objects::compute_config_hash(e.1.runtime_config.as_str());
            proof {
                assert(mv[i as int] == (m@[i as int].0, m@[i as int].1@));
                if instance_kept(mv, (e.0, e.1@)) {
                    let k = choose|k: int|
                        0 <= k < mv.len() && mv[k].0@ == e.0@ && instance_of(mv[k])@ == instance_of(
                            (e.0, e.1@),
                        )@;
                    assert(mv[k].0@ == mv[i as int].0@);
                }
            }
            same
        },
        None => {
            proof {
                if instance_kept(mv, (e.0, e.1@)) {
                    let k = choose|k: int|
                        0 <= k < mv.len() && mv[k].0@ == e.0@ && instance_of(mv[k])@ == instance_of(
                            (e.0, e.1@),
                        )@;
                    assert(m@[k].0@ == e.0@);
                }
            }
            false
        },
    }
}

/// The workloads to add and the instances to delete when `old` is replaced by `new`.
pub fn compute_delta(old: &Vec<(String, StoredWorkloadSpec)>, new: &Vec<(String, StoredWorkloadSpec)>) -> (r: (
    Vec<WorkloadSpec>,
    Vec<DeletedWorkload>,
))
    requires
        keys_unique(workloads_view(old@)),
        keys_unique(workloads_view(new@)),
    ensures
        specs_view(r.0@) == added_spec(workloads_view(old@), workloads_view(new@)),
        deleted_view(r.1@) == deleted_spec(workloads_view(old@), workloads_view(new@)),
{
    let ghost ov = workloads_view(old@);
    let ghost nv = workloads_view(new@);
    let mut added: Vec<WorkloadSpec> = Vec::new();
    let mut j: usize = 0;
    proof {
        lemma_filter_map_empty(nv, not_kept_in(ov), as_workload_spec());
        assert(specs_view(added@) =~= Seq::<WorkloadSpecView>::empty());
    }
    while j < new.len()
        invariant
            ov == workloads_view(old@),
            nv == workloads_view(new@),
            keys_unique(ov),
            j <= new@.len(),
            specs_view(added@) == nv.subrange(0, j as int).filter(not_kept_in(ov)).map_values(
                as_workload_spec(),
            ),
        decreases new@.len() - j,
    {
        proof {
            lemma_filter_map_step(nv, j as int, not_kept_in(ov), as_workload_spec());
            assert(nv[j as int] == (new@[j as int].0, new@[j as int].1@));
        }
        if !instance_kept_exec(old, &new[j]) {
            let w = to_workload_spec(&new[j].0, &new[j].1);
            let ghost before = added@;
            added.push(w);
            proof {
                assert(specs_view(added@) =~= specs_view(before).push(w@));
            }
        }
        j = j + 1;
    }
    assert(nv.subrange(0, new@.len() as int) =~= nv);
    let mut deleted: Vec<DeletedWorkload> = Vec::new();
    let mut i: usize = 0;
    proof {
        lemma_filter_map_empty(ov, not_kept_in(nv), as_deleted(ov));
        assert(deleted_view(deleted@) =~= Seq::empty());
    }
    while i < old.len()
        invariant
            ov == workloads_view(old@),
            nv == workloads_view(new@),
            keys_unique(nv),
            i <= old@.len(),
            deleted_view(deleted@) == ov.subrange(0, i as int).filter(not_kept_in(nv)).map_values(
                as_deleted(ov),
            ),
        decreases old@.len() - i,
    {
        proof {
            lemma_filter_map_step(ov, i as int, not_kept_in(nv), as_deleted(ov));
            assert(ov[i as int] == (old@[i as int].0, old@[i as int].1@));
        }
        if !instance_kept_exec(new, &old[i]) {
            let w = DeletedWorkload {
                instance_name: WorkloadInstanceName::new(
                    old[i].0.clone(),
                    old[i].1.agent.clone(),
                    old[i].1.runtime_config.as_str(),
                ),
                dependencies: compute_delete_conditions(old, old[i].0.as_str()),
            };
            let ghost before = deleted@;
            deleted.push(w);
            proof {
                assert(deleted_view(deleted@) =~= deleted_view(before).push(w@));
            }
        }
        i = i + 1;
    }
    assert(ov.subrange(0, old@.len() as int) =~= ov);
    (added, deleted)
}

} // verus!
