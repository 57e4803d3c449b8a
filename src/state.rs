//! The desired state and the complete state that readers see.
use vstd::prelude::*;

use crate::keyed::{clone_string_pairs, entries_view, keys_unique, str_eq};
use crate::objects::{clone_workload_states, WorkloadState};
use crate::stored_workload_spec::{StoredWorkloadSpec, StoredWorkloadSpecView};

verus! {

/// The only desired-state format version that is accepted.
pub const API_VERSION: &'static str = "v0.1";

/// Workloads by name, as plain values.
pub type WorkloadsView = Seq<(String, StoredWorkloadSpecView)>;

pub open spec fn workloads_view(ws: Seq<(String, StoredWorkloadSpec)>) -> WorkloadsView {
    entries_view(ws)
}

/// The declarative target: format version, workloads by name, configs by name.
#[derive(Debug, PartialEq, Eq)]
pub struct State {
    pub format_version: String,
    pub workloads: Vec<(String, StoredWorkloadSpec)>,
    pub configs: Vec<(String, String)>,
}

pub struct StateView {
    pub format_version: String,
    pub workloads: WorkloadsView,
    pub configs: Seq<(String, Seq<char>)>,
}

impl View for State {
    type V = StateView;

    open spec fn view(&self) -> StateView {
        StateView {
            format_version: self.format_version,
            workloads: workloads_view(self.workloads@),
            configs: entries_view(self.configs@),
        }
    }
}

/// Names of workloads and of configs are distinct: each list stands for a map.
pub open spec fn state_wf(s: StateView) -> bool {
    keys_unique(s.workloads) && keys_unique(s.configs)
}

/// The version is the one this library speaks.
pub open spec fn compatible_format(v: Seq<char>) -> bool {
    v == API_VERSION@
}

pub fn clone_workloads(ws: &Vec<(String, StoredWorkloadSpec)>) -> (r: Vec<(String, StoredWorkloadSpec)>)
    ensures
        workloads_view(r@) == workloads_view(ws@),
{
    let mut r: Vec<(String, StoredWorkloadSpec)> = Vec::new();
    let mut i: usize = 0;
    while i < ws.len()
        invariant
            i <= ws@.len(),
            r@.len() == i,
            forall|k: int| 0 <= k < i ==> r@[k].0 == ws@[k].0 && r@[k].1@ == ws@[k].1@,
        decreases ws@.len() - i,
    {
        let e = (ws[i].0.clone(), ws[i].1.clone());
        r.push(e);
        i = i + 1;
    }
    assert(workloads_view(r@) =~= workloads_view(ws@));
    r
}

impl Clone for State {
    fn clone(&self) -> (r: Self)
        ensures
            r@ == self@,
    {
        State {
            format_version: self.format_version.clone(),
            workloads: clone_workloads(&self.workloads),
            configs: clone_string_pairs(&self.configs),
        }
    }
}

impl Default for State {
    fn default() -> (r: Self)
        ensures
            r.format_version@ == API_VERSION@,
            r.workloads@.len() == 0,
            r.configs@.len() == 0,
    {
        State { format_version: String::from_str(API_VERSION), workloads: Vec::new(), configs: Vec::new() }
    }
}

impl State {
    pub fn is_compatible_format(format_version: &String) -> (r: bool)
        ensures
            r == compatible_format(format_version@),
    {
        str_eq(format_version.as_str(), API_VERSION)
    }
}

/// The desired state together with the observed workload states.
#[derive(Debug, PartialEq, Eq)]
pub struct CompleteState {
    pub desired_state: State,
    pub workload_states: Vec<WorkloadState>,
}

pub struct CompleteStateView {
    pub desired_state: StateView,
    pub workload_states: Seq<WorkloadState>,
}

impl View for CompleteState {
    type V = CompleteStateView;

    open spec fn view(&self) -> CompleteStateView {
        CompleteStateView { desired_state: self.desired_state@, workload_states: self.workload_states@ }
    }
}

impl Clone for CompleteState {
    fn clone(&self) -> (r: Self)
        ensures
            r@ == self@,
    {
        CompleteState {
            desired_state: self.desired_state.clone(),
            workload_states: clone_workload_states(&self.workload_states),
        }
    }
}

impl Default for CompleteState {
    fn default() -> (r: Self)
        ensures
            r.desired_state.format_version@ == API_VERSION@,
            r.desired_state.workloads@.len() == 0,
            r.desired_state.configs@.len() == 0,
            r.workload_states@.len() == 0,
    {
        CompleteState { desired_state: State::default(), workload_states: Vec::new() }
    }
}

} // verus!
