//! Laws of the reconciler, proved over the contracts of `ServerState::update`.
use vstd::prelude::*;

use crate::delta::{
    added_spec, as_deleted, as_workload_spec, deleted_spec, instance_kept, instance_of,
    not_kept_in,
};
use crate::keyed::keys_unique;
use crate::objects::{config_digest, deleted_view, specs_view, DeletedWorkload, WorkloadSpec};
use crate::server_state::{update_outcome, UpdateStateError};
use crate::state::{StateView, WorkloadsView};
use crate::stored_workload_spec::{workload_spec_of, StoredWorkloadSpecView};

verus! {

proof fn lemma_filter_none<A>(s: Seq<A>, p: spec_fn(A) -> bool)
    requires
        forall|i: int| 0 <= i < s.len() ==> !p(#[trigger] s[i]),
    ensures
        s.filter(p) == Seq::<A>::empty(),
    decreases s.len(),
{
    reveal(Seq::filter);
    if s.len() > 0 {
        assert forall|i: int| 0 <= i < s.drop_last().len() implies !p(#[trigger] s.drop_last()[i]) by {
            assert(s.drop_last()[i] == s[i]);
        }
        lemma_filter_none(s.drop_last(), p);
        assert(!p(s[s.len() - 1]));
    }
}

proof fn lemma_filter_single<A>(s: Seq<A>, p: spec_fn(A) -> bool, k: int)
    requires
        0 <= k < s.len(),
        p(s[k]),
        forall|i: int| 0 <= i < s.len() && i != k ==> !p(#[trigger] s[i]),
    ensures
        s.filter(p) == seq![s[k]],
    decreases s.len(),
{
    reveal(Seq::filter);
    let t = s.drop_last();
    if k == s.len() - 1 {
        assert forall|i: int| 0 <= i < t.len() implies !p(#[trigger] t[i]) by {
            assert(t[i] == s[i]);
        }
        lemma_filter_none(t, p);
        assert(s.filter(p) =~= seq![s[k]]);
    } else {
        assert forall|i: int| 0 <= i < t.len() && i != k implies !p(#[trigger] t[i]) by {
            assert(t[i] == s[i]);
        }
        assert(t[k] == s[k]);
        lemma_filter_single(t, p, k);
        assert(!p(s[s.len() - 1]));
    }
}

/// Every workload of a map keeps its own instance.
proof fn lemma_all_kept(ws: WorkloadsView)
    ensures
        added_spec(ws, ws) == Seq::<crate::objects::WorkloadSpecView>::empty(),
        deleted_spec(ws, ws).len() == 0,
{
    assert forall|i: int| 0 <= i < ws.len() implies !(#[trigger] not_kept_in(ws)(ws[i])) by {
        assert(instance_kept(ws, ws[i]));
    }
    lemma_filter_none(ws, not_kept_in(ws));
    assert(added_spec(ws, ws) =~= Seq::<crate::objects::WorkloadSpecView>::empty());
}

/// A rejected update leaves the held state as it was.
pub proof fn lemma_rejected_update_keeps_state(
    cur: StateView,
    candidate: StateView,
    r: Result<Option<(Vec<WorkloadSpec>, Vec<DeletedWorkload>)>, UpdateStateError>,
    next: StateView,
)
    requires
        update_outcome(cur, candidate, r, next),
        r is Err,
    ensures
        next == cur,
{
}

/// Applying the same full state twice: the second update is accepted with no delta and
/// changes nothing; the first one reported a delta exactly when some instance differed.
pub proof fn lemma_update_idempotent(
    cur: StateView,
    s: StateView,
    r1: Result<Option<(Vec<WorkloadSpec>, Vec<DeletedWorkload>)>, UpdateStateError>,
    mid: StateView,
    r2: Result<Option<(Vec<WorkloadSpec>, Vec<DeletedWorkload>)>, UpdateStateError>,
    next: StateView,
)
    requires
        update_outcome(cur, s, r1, mid),
        r1 is Ok,
        update_outcome(mid, s, r2, next),
    ensures
        mid == s,
        r2 == Ok::<Option<(Vec<WorkloadSpec>, Vec<DeletedWorkload>)>, UpdateStateError>(None),
        next == s,
        r1->Ok_0 is Some <==> (added_spec(cur.workloads, s.workloads).len() > 0 || deleted_spec(
            cur.workloads,
            s.workloads,
        ).len() > 0),
{
    lemma_all_kept(s.workloads);
}

/// The workloads `ws` with the spec of workload `k` replaced by `spec`.
pub open spec fn with_spec(ws: WorkloadsView, k: int, spec: StoredWorkloadSpecView) -> WorkloadsView {
    ws.update(k, (ws[k].0, spec))
}

proof fn lemma_others_kept(ws: WorkloadsView, k: int, spec: StoredWorkloadSpecView)
    requires
        keys_unique(ws),
        0 <= k < ws.len(),
        spec.agent@ == ws[k].1.agent@,
    ensures
        forall|i: int| 0 <= i < ws.len() && i != k ==> !(#[trigger] not_kept_in(ws)(with_spec(ws, k, spec)[i])),
        forall|i: int| 0 <= i < ws.len() && i != k ==> !(#[trigger] not_kept_in(with_spec(ws, k, spec))(ws[i])),
{
    let n = with_spec(ws, k, spec);
    assert forall|i: int| 0 <= i < ws.len() && i != k implies !(#[trigger] not_kept_in(ws)(n[i])) by {
        assert(n[i] == ws[i]);
        assert(instance_kept(ws, n[i]));
    }
    assert forall|i: int| 0 <= i < ws.len() && i != k implies !(#[trigger] not_kept_in(n)(ws[i])) by {
        assert(n[i] == ws[i]);
        assert(instance_kept(n, ws[i]));
    }
}

/// Changing only the runtime configuration of workload `k`, so that its digest changes,
/// makes an accepted update delete exactly its old instance and add exactly its new one.
pub proof fn lemma_config_change_replaces_instance(
    cur: StateView,
    candidate: StateView,
    k: int,
    spec: StoredWorkloadSpecView,
    r: Result<Option<(Vec<WorkloadSpec>, Vec<DeletedWorkload>)>, UpdateStateError>,
    next: StateView,
)
    requires
        keys_unique(cur.workloads),
        0 <= k < cur.workloads.len(),
        spec.agent@ == cur.workloads[k].1.agent@,
        config_digest(spec.runtime_config@) != config_digest(cur.workloads[k].1.runtime_config@),
        candidate.workloads == with_spec(cur.workloads, k, spec),
        update_outcome(cur, candidate, r, next),
        r is Ok,
    ensures
        r->Ok_0 matches Some((a, d)) && specs_view(a@) == seq![
            workload_spec_of(cur.workloads[k].0, spec),
        ] && deleted_view(d@) == seq![as_deleted(cur.workloads)(cur.workloads[k])],
{
    let o = cur.workloads;
    let n = candidate.workloads;
    lemma_others_kept(o, k, spec);
    assert(n[k] == (o[k].0, spec));
    assert(!instance_kept(o, n[k])) by {
        if instance_kept(o, n[k]) {
            let j = choose|j: int| 0 <= j < o.len() && o[j].0@ == n[k].0@ && instance_of(o[j])@ == instance_of(n[k])@;
            if j != k {
                if j < k { assert(o[j].0@ != o[k].0@); } else { assert(o[k].0@ != o[j].0@); }
            }
        }
    }
    assert(!instance_kept(n, o[k])) by {
        if instance_kept(n, o[k]) {
            let j = choose|j: int| 0 <= j < n.len() && n[j].0@ == o[k].0@ && instance_of(n[j])@ == instance_of(o[k])@;
            if j != k {
                assert(n[j] == o[j]);
                if j < k { assert(o[j].0@ != o[k].0@); } else { assert(o[k].0@ != o[j].0@); }
            }
        }
    }
    lemma_filter_single(n, not_kept_in(o), k);
    lemma_filter_single(o, not_kept_in(n), k);
    assert(added_spec(o, n) =~= seq![workload_spec_of(o[k].0, spec)]);
    assert(deleted_spec(o, n) =~= seq![as_deleted(o)(o[k])]);
}

/// Changing workload `k` only outside its identity (same agent, same configuration
/// digest) makes an accepted update report no delta.
pub proof fn lemma_cosmetic_change_no_delta(
    cur: StateView,
    candidate: StateView,
    k: int,
    spec: StoredWorkloadSpecView,
    r: Result<Option<(Vec<WorkloadSpec>, Vec<DeletedWorkload>)>, UpdateStateError>,
    next: StateView,
)
    requires
        keys_unique(cur.workloads),
        0 <= k < cur.workloads.len(),
        spec.agent@ == cur.workloads[k].1.agent@,
        config_digest(spec.runtime_config@) == config_digest(cur.workloads[k].1.runtime_config@),
        candidate.workloads == with_spec(cur.workloads, k, spec),
        update_outcome(cur, candidate, r, next),
        r is Ok,
    ensures
        r == Ok::<Option<(Vec<WorkloadSpec>, Vec<DeletedWorkload>)>, UpdateStateError>(None),
        next == candidate,
{
    let o = cur.workloads;
    let n = candidate.workloads;
    lemma_others_kept(o, k, spec);
    assert(n[k] == (o[k].0, spec));
    assert(instance_kept(o, n[k]));
    assert(instance_kept(n, o[k]));
    lemma_filter_none(n, not_kept_in(o));
    lemma_filter_none(o, not_kept_in(n));
    assert(added_spec(o, n) =~= Seq::<crate::objects::WorkloadSpecView>::empty());
    assert(deleted_spec(o, n).len() == 0);
}

} // verus!
