//! The state reconciler: owns the authoritative desired state and changes it only
//! through `update`, which validates a candidate completely before taking it.
use vstd::prelude::*;

use crate::cycle_check::{acyclic, check, on_cycle};
use crate::delta::{
    added_spec, as_workload_spec, compute_delta, deleted_spec, lemma_filter_map_empty,
    lemma_filter_map_step,
};
use crate::field_mask::{parse_field_mask, path_of, FieldPath, PathView};
use crate::keyed::{
    clone_string_pairs, entries_view, find_key, has_key, key_index, keys_unique,
    lemma_key_index_unique, remove_key, remove_spec, upsert, upsert_spec,
};
use crate::keyed::str_eq;
use crate::objects::{
    clone_workload_states, deleted_view, specs_view, DeletedWorkload, WorkloadSpec,
    WorkloadSpecView, WorkloadState,
};
use crate::workload_state_db::WorkloadStateDB;
use crate::state::{
    clone_workloads, compatible_format, state_wf, workloads_view, CompleteState,
    CompleteStateView, State, StateView, WorkloadsView,
};
use crate::stored_workload_spec::{
    reference_entry_error, reference_entry_ok, to_workload_spec, StoredWorkloadSpec,
    StoredWorkloadSpecView,
};

verus! {

/// Why an update was rejected.
#[derive(Debug, PartialEq, Eq)]
pub enum UpdateStateError {
    /// A mask that addresses nothing that can be updated.
    FieldNotFound(String),
    /// A config alias or config key with characters outside the allowed set.
    ResultInvalid(String),
    /// A workload on a dependency cycle.
    CycleInDependencies(String),
    /// The candidate's format version, which is not the supported one.
    IncompatibleVersion(String),
}

fn concat3(a: &str, b: &str, c: &str) -> (r: String)
    ensures
        r@ == a@ + b@ + c@,
{
    let mut r = String::from_str(a);
    r.append(b);
    r.append(c);
    r
}

/// The error in words.
pub open spec fn update_error_message(e: UpdateStateError) -> Seq<char> {
            match e {
                UpdateStateError::FieldNotFound(f) => "Could not find field "@ + f@,
                UpdateStateError::ResultInvalid(m) => "Resulting State is invalid, reason: '"@
                    + m@ + "'"@,
                UpdateStateError::CycleInDependencies(w) => "workload dependency '"@ + w@
                    + "' is part of a cycle."@,
                UpdateStateError::IncompatibleVersion(v) => "Unsupported API version. Received '"@
                    + v@ + "', expected '"@ + crate::state::API_VERSION@ + "'"@,
            }
}

impl UpdateStateError {
    /// The error in words.
    pub fn message(&self) -> (r: String)
        ensures
            r@ == update_error_message(*self),
    {
        match self {
            UpdateStateError::FieldNotFound(f) => {
                let mut r = String::from_str("Could not find field ");
                r.append(f.as_str());
                r
            },
            UpdateStateError::ResultInvalid(m) => concat3(
                "Resulting State is invalid, reason: '",
                m.as_str(),
                "'",
            ),
            UpdateStateError::CycleInDependencies(w) => concat3(
                "workload dependency '",
                w.as_str(),
                "' is part of a cycle.",
            ),
            UpdateStateError::IncompatibleVersion(v) => {
                let mut r = concat3("Unsupported API version. Received '", v.as_str(), "', expected '");
                r.append(crate::state::API_VERSION);
                r.append("'");
                r
            },
        }
    }
}

/// The entries of `cur`, with the entry named `n` taken from `src`, or dropped where
/// `src` has none.
pub open spec fn take_entry<V>(cur: Seq<(String, V)>, src: Seq<(String, V)>, n: Seq<char>) -> Seq<(String, V)> {
    if has_key(src, n) {
        upsert_spec(cur, src[key_index(src, n)])
    } else {
        remove_spec(cur, n)
    }
}

/// The candidate after copying the subtree `p` of `new` into `cur`; none for a subtree
/// that an update cannot write.
pub open spec fn apply_update_path(cur: StateView, new: StateView, p: PathView) -> Option<StateView> {
    match p {
        PathView::DesiredState => Some(new),
        PathView::ApiVersion => Some(StateView { format_version: new.format_version, ..cur }),
        PathView::Workloads => Some(StateView { workloads: new.workloads, ..cur }),
        PathView::Workload(n) => Some(
            StateView { workloads: take_entry(cur.workloads, new.workloads, n), ..cur },
        ),
        PathView::Configs => Some(StateView { configs: new.configs, ..cur }),
        PathView::Config(n) => Some(
            StateView { configs: take_entry(cur.configs, new.configs, n), ..cur },
        ),
        PathView::WorkloadStates => None,
    }
}

/// Copies the subtrees of `new` that `masks` address into `cur`, in order; the first
/// mask that addresses nothing writable is the error.
pub open spec fn merge_masks(cur: StateView, new: StateView, masks: Seq<Seq<char>>) -> Result<StateView, Seq<char>>
    decreases masks.len(),
{
    if masks.len() == 0 {
        Ok(cur)
    } else {
        match merge_masks(cur, new, masks.drop_last()) {
            Ok(c) => match path_of(masks.last()) {
                Some(p) => match apply_update_path(c, new, p) {
                    Some(c2) => Ok(c2),
                    None => Err(masks.last()),
                },
                None => Err(masks.last()),
            },
            Err(f) => Err(f),
        }
    }
}

/// The candidate state of an update: `new` itself for an empty mask, else `new` merged
/// into `cur` along the masks.
pub open spec fn candidate_of(cur: StateView, new: StateView, masks: Seq<Seq<char>>) -> Result<StateView, Seq<char>> {
    if masks.len() == 0 {
        Ok(new)
    } else {
        merge_masks(cur, new, masks)
    }
}

pub open spec fn masks_view(masks: Seq<String>) -> Seq<Seq<char>> {
    masks.map_values(|m: String| m@)
}

/// All config references of a workload are well formed.
pub open spec fn workload_references_ok(e: (String, crate::stored_workload_spec::StoredWorkloadSpecView)) -> bool {
    forall|k: int| 0 <= k < e.1.configs.len() ==> reference_entry_ok(#[trigger] e.1.configs[k])
}

/// `msg` is the error for the first malformed entry of `cs`.
pub open spec fn first_reference_error(cs: Seq<(String, String)>, msg: Seq<char>) -> bool {
    exists|k: int|
        0 <= k < cs.len() && !reference_entry_ok(cs[k]) && (forall|j: int|
            0 <= j < k ==> reference_entry_ok(#[trigger] cs[j])) && msg == reference_entry_error(
            cs[k],
        )
}

/// `msg` is the reference error of the first workload of `ws` with one.
pub open spec fn first_workload_reference_error(ws: WorkloadsView, msg: Seq<char>) -> bool {
    exists|i: int|
        0 <= i < ws.len() && !workload_references_ok(ws[i]) && (forall|j: int|
            0 <= j < i ==> workload_references_ok(#[trigger] ws[j])) && first_reference_error(
            ws[i].1.configs,
            msg,
        )
}

/// Checks the config references of every workload, in order.
pub fn verify_all_config_references(ws: &Vec<(String, StoredWorkloadSpec)>) -> (r: Result<(), String>)
    ensures
        r is Ok <==> forall|i: int|
            0 <= i < ws@.len() ==> workload_references_ok(#[trigger] workloads_view(ws@)[i]),
        r matches Err(msg) ==> first_workload_reference_error(workloads_view(ws@), msg@),
{
    let ghost wv = workloads_view(ws@);
    let mut i: usize = 0;
    while i < ws.len()
        invariant
            wv == workloads_view(ws@),
            i <= ws@.len(),
            forall|j: int| 0 <= j < i ==> workload_references_ok(#[trigger] wv[j]),
        decreases ws@.len() - i,
    {
        assert(wv[i as int].1.configs == ws@[i as int].1.configs@);
        match StoredWorkloadSpec::verify_config_reference_format(&ws[i].1.configs) {
            Ok(()) => {},
            Err(msg) => {
                assert(!workload_references_ok(wv[i as int]));
                return Err(msg);
            },
        }
        i = i + 1;
    }
    Ok(())
}

/// Copies into `cand` the subtree of `new` that `path` addresses.
fn apply_path(cand: &mut State, new: &State, path: FieldPath) -> (r: bool)
    requires
        state_wf(old(cand)@),
        state_wf(new@),
    ensures
        match apply_update_path(old(cand)@, new@, path@) {
            Some(c) => r && final(cand)@ == c,
            None => !r && final(cand)@ == old(cand)@,
        },
        state_wf(final(cand)@),
{
    proof {
        crate::keyed::lemma_keys_view(cand.workloads@);
        crate::keyed::lemma_keys_view(cand.configs@);
        crate::keyed::lemma_keys_view(new.workloads@);
        crate::keyed::lemma_keys_view(new.configs@);
    }
    match path {
        FieldPath::DesiredState => {
            *cand = new.clone();
            true
        },
        FieldPath::ApiVersion => {
            cand.format_version = new.format_version.clone();
            true
        },
        FieldPath::Workloads => {
            cand.workloads = clone_workloads(&new.workloads);
            true
        },
        FieldPath::Workload(n) => {
            match find_key(&new.workloads, n.as_str()) {
                Some(j) => {
                    proof {
                        lemma_key_index_unique(new@.workloads, j as int);
                    }
                    upsert(&mut cand.workloads, new.workloads[j].0.clone(), new.workloads[j].1.clone());
                },
                None => {
                    remove_key(&mut cand.workloads, n.as_str());
                },
            }
            proof {
                crate::keyed::lemma_keys_view(cand.workloads@);
            }
            true
        },
        FieldPath::Configs => {
            cand.configs = clone_string_pairs(&new.configs);
            true
        },
        FieldPath::Config(n) => {
            match find_key(&new.configs, n.as_str()) {
                Some(j) => {
                    proof {
                        lemma_key_index_unique(new@.configs, j as int);
                    }
                    upsert(&mut cand.configs, new.configs[j].0.clone(), new.configs[j].1.clone());
                },
                None => {
                    remove_key(&mut cand.configs, n.as_str());
                },
            }
            proof {
                crate::keyed::lemma_keys_view(cand.configs@);
            }
            true
        },
        FieldPath::WorkloadStates => false,
    }
}

proof fn lemma_merge_error_stays(
    cur: StateView,
    new: StateView,
    masks: Seq<Seq<char>>,
    k: int,
    f: Seq<char>,
)
    requires
        0 <= k <= masks.len(),
        merge_masks(cur, new, masks.subrange(0, k)) == Err::<StateView, Seq<char>>(f),
    ensures
        merge_masks(cur, new, masks) == Err::<StateView, Seq<char>>(f),
    decreases masks.len() - k,
{
    if k < masks.len() {
        assert(masks.subrange(0, k + 1).drop_last() =~= masks.subrange(0, k));
        lemma_merge_error_stays(cur, new, masks, k + 1, f);
    } else {
        assert(masks.subrange(0, k) =~= masks);
    }
}

/// Merges `new` into a copy of `cur` along `masks`.
pub fn merge_by_masks(cur: &State, new: &State, masks: &Vec<String>) -> (r: Result<State, String>)
    requires
        state_wf(cur@),
        state_wf(new@),
    ensures
        match merge_masks(cur@, new@, masks_view(masks@)) {
            Ok(c) => r matches Ok(s) && s@ == c && state_wf(c),
            Err(f) => r matches Err(e) && e@ == f,
        },
{
    let ghost mv = masks_view(masks@);
    let mut cand = cur.clone();
    let mut i: usize = 0;
    proof {
        assert(mv.subrange(0, 0) =~= Seq::<Seq<char>>::empty());
    }
    while i < masks.len()
        invariant
            mv == masks_view(masks@),
            state_wf(new@),
            state_wf(cand@),
            i <= masks@.len(),
            merge_masks(cur@, new@, mv.subrange(0, i as int)) == Ok::<StateView, Seq<char>>(cand@),
        decreases masks@.len() - i,
    {
        let ghost before = cand@;
        proof {
            assert(mv.subrange(0, i as int + 1).drop_last() =~= mv.subrange(0, i as int));
            assert(mv.subrange(0, i as int + 1).last() == masks@[i as int]@);
        }
        match parse_field_mask(masks[i].as_str()) {
            Some(p) => {
                if !apply_path(&mut cand, new, p) {
                    proof {
                        lemma_merge_error_stays(cur@, new@, mv, i as int + 1, masks@[i as int]@);
                    }
                    return Err(masks[i].clone());
                }
            },
            None => {
                proof {
                    lemma_merge_error_stays(cur@, new@, mv, i as int + 1, masks@[i as int]@);
                }
                return Err(masks[i].clone());
            },
        }
        i = i + 1;
    }
    assert(mv.subrange(0, masks@.len() as int) =~= mv);
    Ok(cand)
}

/// What `update` does to a state with workloads `old`, for a valid candidate with
/// workloads `new`: the delta, or none when it is empty.
pub open spec fn delta_matches(
    old: WorkloadsView,
    new: WorkloadsView,
    r: Option<(Vec<WorkloadSpec>, Vec<DeletedWorkload>)>,
) -> bool {
    let added = added_spec(old, new);
    let deleted = deleted_spec(old, new);
    match r {
        None => added.len() == 0 && deleted.len() == 0,
        Some((a, d)) => (added.len() > 0 || deleted.len() > 0) && specs_view(a@) == added
            && deleted_view(d@) == deleted,
    }
}

/// The outcome of an update of `cur` by the candidate `c`: which error, or else which
/// delta and that `c` is the new state.
pub open spec fn update_outcome(
    cur: StateView,
    c: StateView,
    r: Result<Option<(Vec<WorkloadSpec>, Vec<DeletedWorkload>)>, UpdateStateError>,
    next: StateView,
) -> bool {
    if !compatible_format(c.format_version@) {
        r matches Err(UpdateStateError::IncompatibleVersion(v)) && v@ == c.format_version@
            && next == cur
    } else if !(forall|i: int| 0 <= i < c.workloads.len() ==> workload_references_ok(#[trigger] c.workloads[i])) {
        r matches Err(UpdateStateError::ResultInvalid(m)) && first_workload_reference_error(c.workloads, m@)
            && next == cur
    } else if !acyclic(c.workloads) {
        r matches Err(UpdateStateError::CycleInDependencies(w)) && (exists|i: int|
            0 <= i < c.workloads.len() && c.workloads[i].0@ == w@ && on_cycle(c.workloads, i))
            && next == cur
    } else {
        r matches Ok(d) && delta_matches(cur.workloads, c.workloads, d) && next == c
    }
}

/// A read of the complete state, restricted to the subtrees that the masks address.
#[derive(Debug, PartialEq, Eq)]
pub struct CompleteStateRequest {
    pub field_mask: Vec<String>,
}

/// The projection `acc` with the subtree `p` of the full state added; none for an entry
/// that does not exist.
pub open spec fn apply_query_path(
    full: StateView,
    states: Seq<WorkloadState>,
    acc: CompleteStateView,
    p: PathView,
) -> Option<CompleteStateView> {
    let d = acc.desired_state;
    match p {
        PathView::DesiredState => Some(CompleteStateView { desired_state: full, ..acc }),
        PathView::ApiVersion => Some(
            CompleteStateView {
                desired_state: StateView { format_version: full.format_version, ..d },
                ..acc
            },
        ),
        PathView::Workloads => Some(
            CompleteStateView { desired_state: StateView { workloads: full.workloads, ..d }, ..acc },
        ),
        PathView::Workload(n) => if has_key(full.workloads, n) {
            Some(
                CompleteStateView {
                    desired_state: StateView {
                        workloads: upsert_spec(
                            d.workloads,
                            full.workloads[key_index(full.workloads, n)],
                        ),
                        ..d
                    },
                    ..acc
                },
            )
        } else {
            None
        },
        PathView::Configs => Some(
            CompleteStateView { desired_state: StateView { configs: full.configs, ..d }, ..acc },
        ),
        PathView::Config(n) => if has_key(full.configs, n) {
            Some(
                CompleteStateView {
                    desired_state: StateView {
                        configs: upsert_spec(d.configs, full.configs[key_index(full.configs, n)]),
                        ..d
                    },
                    ..acc
                },
            )
        } else {
            None
        },
        PathView::WorkloadStates => Some(CompleteStateView { workload_states: states, ..acc }),
    }
}

/// The projection along `masks`, starting from the format version alone; the first
/// mask that addresses nothing is the error.
pub open spec fn project_masks(full: StateView, states: Seq<WorkloadState>, masks: Seq<Seq<char>>) -> Result<CompleteStateView, Seq<char>>
    decreases masks.len(),
{
    if masks.len() == 0 {
        Ok(
            CompleteStateView {
                desired_state: StateView {
                    format_version: full.format_version,
                    workloads: Seq::empty(),
                    configs: Seq::empty(),
                },
                workload_states: Seq::empty(),
            },
        )
    } else {
        match project_masks(full, states, masks.drop_last()) {
            Ok(acc) => match path_of(masks.last()) {
                Some(p) => match apply_query_path(full, states, acc, p) {
                    Some(a) => Ok(a),
                    None => Err(masks.last()),
                },
                None => Err(masks.last()),
            },
            Err(f) => Err(f),
        }
    }
}

/// Everything for no mask, else the projection along the masks.
pub open spec fn query_result(full: StateView, states: Seq<WorkloadState>, masks: Seq<Seq<char>>) -> Result<CompleteStateView, Seq<char>> {
    if masks.len() == 0 {
        Ok(CompleteStateView { desired_state: full, workload_states: states })
    } else {
        project_masks(full, states, masks)
    }
}

proof fn lemma_project_error_stays(
    full: StateView,
    states: Seq<WorkloadState>,
    masks: Seq<Seq<char>>,
    k: int,
    f: Seq<char>,
)
    requires
        0 <= k <= masks.len(),
        project_masks(full, states, masks.subrange(0, k)) == Err::<CompleteStateView, Seq<char>>(f),
    ensures
        project_masks(full, states, masks) == Err::<CompleteStateView, Seq<char>>(f),
    decreases masks.len() - k,
{
    if k < masks.len() {
        assert(masks.subrange(0, k + 1).drop_last() =~= masks.subrange(0, k));
        lemma_project_error_stays(full, states, masks, k + 1, f);
    } else {
        assert(masks.subrange(0, k) =~= masks);
    }
}

/// Adds to `acc` the subtree of `full` that `path` addresses.
fn apply_query(acc: &mut CompleteState, full: &State, states: &Vec<WorkloadState>, path: FieldPath) -> (r: bool)
    requires
        state_wf(old(acc)@.desired_state),
        state_wf(full@),
    ensures
        match apply_query_path(full@, states@, old(acc)@, path@) {
            Some(a) => r && final(acc)@ == a,
            None => !r && final(acc)@ == old(acc)@,
        },
        state_wf(final(acc)@.desired_state),
{
    proof {
        crate::keyed::lemma_keys_view(acc.desired_state.workloads@);
        crate::keyed::lemma_keys_view(acc.desired_state.configs@);
        crate::keyed::lemma_keys_view(full.workloads@);
        crate::keyed::lemma_keys_view(full.configs@);
    }
    match path {
        FieldPath::DesiredState => {
            acc.desired_state = full.clone();
            true
        },
        FieldPath::ApiVersion => {
            acc.desired_state.format_version = full.format_version.clone();
            true
        },
        FieldPath::Workloads => {
            acc.desired_state.workloads = clone_workloads(&full.workloads);
            true
        },
        FieldPath::Workload(n) => {
            match find_key(&full.workloads, n.as_str()) {
                Some(j) => {
                    proof {
                        lemma_key_index_unique(full@.workloads, j as int);
                    }
                    upsert(
                        &mut acc.desired_state.workloads,
                        full.workloads[j].0.clone(),
                        full.workloads[j].1.clone(),
                    );
                    proof {
                        crate::keyed::lemma_keys_view(acc.desired_state.workloads@);
                    }
                    true
                },
                None => false,
            }
        },
        FieldPath::Configs => {
            acc.desired_state.configs = clone_string_pairs(&full.configs);
            true
        },
        FieldPath::Config(n) => {
            match find_key(&full.configs, n.as_str()) {
                Some(j) => {
                    proof {
                        lemma_key_index_unique(full@.configs, j as int);
                    }
                    upsert(
                        &mut acc.desired_state.configs,
                        full.configs[j].0.clone(),
                        full.configs[j].1.clone(),
                    );
                    proof {
                        crate::keyed::lemma_keys_view(acc.desired_state.configs@);
                    }
                    true
                },
                None => false,
            }
        },
        FieldPath::WorkloadStates => {
            acc.workload_states = clone_workload_states(states);
            true
        },
    }
}

pub open spec fn for_agent(agent: Seq<char>) -> spec_fn((String, StoredWorkloadSpecView)) -> bool {
    |e: (String, StoredWorkloadSpecView)| e.1.agent@ == agent
}

/// Holds the authoritative desired state.
pub struct ServerState {
    state: State,
}

impl View for ServerState {
    type V = StateView;

    closed spec fn view(&self) -> StateView {
        self.state@
    }
}

impl ServerState {
    /// The held state is a map: names are distinct.
    pub open spec fn wf(&self) -> bool {
        state_wf(self@)
    }

    /// Starts from the default, empty state.
    pub fn new() -> (r: Self)
        ensures
            r.wf(),
            r@.format_version@ == crate::state::API_VERSION@,
            r@.workloads.len() == 0,
            r@.configs.len() == 0,
    {
        ServerState { state: State::default() }
    }

    /// A copy of the held desired state.
    pub fn desired_state(&self) -> (r: State)
        ensures
            r@ == self@,
    {
        self.state.clone()
    }

    /// The workloads assigned to `agent_name`, in stored order.
    pub fn get_workloads_for_agent(&self, agent_name: &str) -> (r: Vec<WorkloadSpec>)
        ensures
            specs_view(r@) == self@.workloads.filter(for_agent(agent_name@)).map_values(
                as_workload_spec(),
            ),
    {
        let ws = &self.state.workloads;
        let ghost wv = self@.workloads;
        let mut r: Vec<WorkloadSpec> = Vec::new();
        let mut i: usize = 0;
        proof {
            lemma_filter_map_empty(wv, for_agent(agent_name@), as_workload_spec());
            assert(specs_view(r@) =~= Seq::<WorkloadSpecView>::empty());
        }
        while i < ws.len()
            invariant
                wv == workloads_view(ws@),
                i <= ws@.len(),
                specs_view(r@) == wv.subrange(0, i as int).filter(for_agent(agent_name@)).map_values(
                    as_workload_spec(),
                ),
            decreases ws@.len() - i,
        {
            proof {
                lemma_filter_map_step(wv, i as int, for_agent(agent_name@), as_workload_spec());
                assert(wv[i as int] == (ws@[i as int].0, ws@[i as int].1@));
            }
            if str_eq(ws[i].1.agent.as_str(), agent_name) {
                let w = to_workload_spec(&ws[i].0, &ws[i].1);
                let ghost before = r@;
                r.push(w);
                proof {
                    assert(specs_view(r@) =~= specs_view(before).push(w@));
                }
            }
            i = i + 1;
        }
        assert(wv.subrange(0, ws@.len() as int) =~= wv);
        r
    }

    /// The complete state (desired state and the table's entries), or, for a non-empty
    /// mask, only the subtrees it addresses; a mask that addresses nothing fails the
    /// whole read.
    pub fn get_complete_state_by_field_mask(
        &self,
        request: &CompleteStateRequest,
        workload_state_db: &WorkloadStateDB,
    ) -> (r: Result<CompleteState, String>)
        requires
            self.wf(),
        ensures
            match query_result(self@, workload_state_db@, masks_view(request.field_mask@)) {
                Ok(v) => r matches Ok(c) && c@ == v,
                Err(f) => r matches Err(m) && m@ == "Could not find field "@ + f,
            },
    {
        let states = workload_state_db.get_all_workload_states();
        let masks = &request.field_mask;
        if masks.len() == 0 {
            return Ok(CompleteState { desired_state: self.state.clone(), workload_states: states });
        }
        let ghost mv = masks_view(masks@);
        let mut acc = CompleteState {
            desired_state: State {
                format_version: self.state.format_version.clone(),
                workloads: Vec::new(),
                configs: Vec::new(),
            },
            workload_states: Vec::new(),
        };
        proof {
            assert(mv.subrange(0, 0) =~= Seq::<Seq<char>>::empty());
            assert(acc@.desired_state.workloads =~= Seq::empty());
            assert(acc@.desired_state.configs =~= Seq::empty());
            assert(acc@.workload_states =~= Seq::empty());
        }
        let mut i: usize = 0;
        while i < masks.len()
            invariant
                mv == masks_view(masks@),
                masks@ == request.field_mask@,
                masks@.len() > 0,
                self.wf(),
                state_wf(acc@.desired_state),
                states@ == workload_state_db@,
                i <= masks@.len(),
                project_masks(self@, states@, mv.subrange(0, i as int)) == Ok::<
                    CompleteStateView,
                    Seq<char>,
                >(acc@),
            decreases masks@.len() - i,
        {
            proof {
                assert(mv.subrange(0, i as int + 1).drop_last() =~= mv.subrange(0, i as int));
                assert(mv.subrange(0, i as int + 1).last() == masks@[i as int]@);
            }
            let ok = match parse_field_mask(masks[i].as_str()) {
                Some(p) => apply_query(&mut acc, &self.state, &states, p),
                None => false,
            };
            if !ok {
                proof {
                    lemma_project_error_stays(self@, states@, mv, i as int + 1, masks@[i as int]@);
                }
                let mut m = String::from_str("Could not find field ");
                m.append(masks[i].as_str());
                return Err(m);
            }
            i = i + 1;
        }
        assert(mv.subrange(0, masks@.len() as int) =~= mv);
        Ok(acc)
    }

    /// Applies `new_state` (wholly for an empty mask, else along the masks) and, if the
    /// candidate is valid, takes it and returns the delta against the former state.
    /// On any error the held state is unchanged.
    pub fn update(&mut self, new_state: CompleteState, update_mask: Vec<String>) -> (r: Result<
        Option<(Vec<WorkloadSpec>, Vec<DeletedWorkload>)>,
        UpdateStateError,
    >)
        requires
            old(self).wf(),
            state_wf(new_state.desired_state@),
        ensures
            final(self).wf(),
            r is Err ==> final(self)@ == old(self)@,
            match candidate_of(old(self)@, new_state.desired_state@, masks_view(update_mask@)) {
                Err(f) => r matches Err(UpdateStateError::FieldNotFound(e)) && e@ == f
                    && final(self)@ == old(self)@,
                Ok(c) => update_outcome(old(self)@, c, r, final(self)@),
            },
    {
        let candidate = if update_mask.len() == 0 {
            new_state.desired_state
        } else {
            match merge_by_masks(&self.state, &new_state.desired_state, &update_mask) {
                Ok(c) => c,
                Err(f) => {
                    return Err(UpdateStateError::FieldNotFound(f));
                },
            }
        };
        if !State::is_compatible_format(&candidate.format_version) {
            return Err(UpdateStateError::IncompatibleVersion(candidate.format_version));
        }
        match verify_all_config_references(&candidate.workloads) {
            Ok(()) => {},
            Err(msg) => {
                return Err(UpdateStateError::ResultInvalid(msg));
            },
        }
        match check(&candidate) {
            Ok(()) => {},
            Err(e) => {
                return Err(UpdateStateError::CycleInDependencies(e.workload_name));
            },
        }
        let (added, deleted) = compute_delta(&self.state.workloads, &candidate.workloads);
        self.state = candidate;
        if added.len() == 0 && deleted.len() == 0 {
            Ok(None)
        } else {
            Ok(Some((added, deleted)))
        }
    }
}

} // verus!
