//! Last known execution state of each workload instance.
use vstd::prelude::*;

use crate::keyed::str_eq;
use crate::objects::{
    clone_workload_states, ExecutionState, ExecutionStateEnum, PendingSubstate, WorkloadSpec,
    WorkloadState,
};

verus! {

/// No instance has two entries.
pub open spec fn instances_unique(s: Seq<WorkloadState>) -> bool {
    forall|i: int, j: int|
        0 <= i < j < s.len() ==> s[i].instance_name@ != s[j].instance_name@
}

/// Where the instance of `w` has its entry; meaningful when it has one.
pub open spec fn entry_index(s: Seq<WorkloadState>, w: WorkloadState) -> int {
    choose|i: int| 0 <= i < s.len() && s[i].instance_name@ == w.instance_name@
}

pub open spec fn has_entry(s: Seq<WorkloadState>, w: WorkloadState) -> bool {
    exists|i: int| 0 <= i < s.len() && s[i].instance_name@ == w.instance_name@
}

/// `s` with the report `w` stored: it overwrites the entry of its instance, or comes last.
pub open spec fn store_report(s: Seq<WorkloadState>, w: WorkloadState) -> Seq<WorkloadState> {
    if has_entry(s, w) {
        s.update(entry_index(s, w), w)
    } else {
        s.push(w)
    }
}

/// `s` after the reports, stored one after the other.
pub open spec fn store_reports(s: Seq<WorkloadState>, reports: Seq<WorkloadState>) -> Seq<WorkloadState>
    decreases reports.len(),
{
    if reports.len() == 0 {
        s
    } else {
        store_report(store_reports(s, reports.drop_last()), reports.last())
    }
}

/// `w` is an initial entry for the instance of `spec`.
pub open spec fn is_initial_entry(w: WorkloadState, spec: WorkloadSpec) -> bool {
    &&& w.instance_name == spec.instance_name
    &&& w.execution_state.state == ExecutionStateEnum::Pending(PendingSubstate::Initial)
    &&& w.execution_state.additional_info@.len() == 0
}

/// `s` gets, for each added workload in order, an initial entry over the one of its instance.
pub open spec fn initial_states_stored(s: Seq<WorkloadState>, added: Seq<WorkloadSpec>, r: Seq<WorkloadState>) -> bool
    decreases added.len(),
{
    if added.len() == 0 {
        r == s
    } else {
        exists|mid: Seq<WorkloadState>, w: WorkloadState|
            initial_states_stored(s, added.drop_last(), mid) && is_initial_entry(w, added.last())
                && r == store_report(mid, w)
    }
}

pub open spec fn on_agent(w: WorkloadState, agent: Seq<char>) -> bool {
    w.instance_name.agent_name@ == agent
}

/// The entries of instances on `agent`, in stored order.
pub open spec fn states_for_agent(s: Seq<WorkloadState>, agent: Seq<char>) -> Seq<WorkloadState> {
    s.filter(|w: WorkloadState| on_agent(w, agent))
}

/// The entries of instances on other agents than `agent`, in stored order.
pub open spec fn states_excluding_agent(s: Seq<WorkloadState>, agent: Seq<char>) -> Seq<WorkloadState> {
    s.filter(|w: WorkloadState| !on_agent(w, agent))
}

/// `new` is `old` with every entry of an instance on `agent` set to `AgentDisconnected`
/// and every other entry as it was.
pub open spec fn disconnected(old: Seq<WorkloadState>, agent: Seq<char>, new: Seq<WorkloadState>) -> bool {
    &&& new.len() == old.len()
    &&& forall|i: int|
        0 <= i < old.len() ==> if on_agent(old[i], agent) {
            (#[trigger] new[i]).instance_name == old[i].instance_name
                && new[i].execution_state.state == ExecutionStateEnum::AgentDisconnected
                && new[i].execution_state.additional_info@.len() == 0
        } else {
            new[i] == old[i]
        }
}

/// The execution-state table.
pub struct WorkloadStateDB {
    stored_states: Vec<WorkloadState>,
}

impl View for WorkloadStateDB {
    type V = Seq<WorkloadState>;

    closed spec fn view(&self) -> Seq<WorkloadState> {
        self.stored_states@
    }
}

proof fn lemma_filter_step<A>(s: Seq<A>, i: int, p: spec_fn(A) -> bool)
    requires
        0 <= i < s.len(),
    ensures
        s.subrange(0, i + 1).filter(p) == if p(s[i]) {
            s.subrange(0, i).filter(p).push(s[i])
        } else {
            s.subrange(0, i).filter(p)
        },
{
    reveal(Seq::filter);
    let t = s.subrange(0, i + 1);
    assert(t.drop_last() =~= s.subrange(0, i));
    assert(t.last() == s[i]);
}

proof fn lemma_filter_empty<A>(s: Seq<A>, p: spec_fn(A) -> bool)
    ensures
        s.subrange(0, 0).filter(p) == Seq::<A>::empty(),
{
    reveal(Seq::filter);
    assert(s.subrange(0, 0).filter(p) =~= Seq::<A>::empty());
}

impl WorkloadStateDB {
    pub open spec fn wf(&self) -> bool {
        instances_unique(self@)
    }

    /// An empty table.
    pub fn new() -> (r: Self)
        ensures
            r.wf(),
            r@.len() == 0,
    {
        WorkloadStateDB { stored_states: Vec::new() }
    }

    /// Stores one report over the entry of its instance.
    fn store(&mut self, w: WorkloadState)
        requires
            old(self).wf(),
        ensures
            final(self).wf(),
            final(self)@ == store_report(old(self)@, w),
    {
        let ghost s = self.stored_states@;
        let mut i: usize = 0;
        while i < self.stored_states.len()
            invariant
                self.stored_states@ == s,
                old(self)@ == s,
                instances_unique(s),
                i <= s.len(),
                forall|j: int| 0 <= j < i ==> s[j].instance_name@ != w.instance_name@,
            decreases s.len() - i,
        {
            if self.stored_states[i].instance_name.same_instance(&w.instance_name) {
                proof {
                    assert(s[i as int].instance_name@ == w.instance_name@);
                    assert(has_entry(s, w));
                    let k = entry_index(s, w);
                    assert(s[k].instance_name@ == s[i as int].instance_name@);
                    if k < i {
                        assert(s[k].instance_name@ != s[i as int].instance_name@);
                    } else if k > i {
                        assert(s[i as int].instance_name@ != s[k].instance_name@);
                    }
                    assert(k == i);
                }
                self.stored_states.set(i, w);
                proof {
                    assert(self.stored_states@ == s.update(i as int, w));
                    assert(store_report(s, w) == s.update(i as int, w));
                    assert forall|a: int, b: int|
                        0 <= a < b < self.stored_states@.len() implies self.stored_states@[a].instance_name@
                        != self.stored_states@[b].instance_name@ by {
                        if a != i && b != i {
                            assert(s[a].instance_name@ != s[b].instance_name@);
                        } else if a == i {
                            assert(s[i as int].instance_name@ != s[b].instance_name@);
                        } else {
                            assert(s[a].instance_name@ != s[i as int].instance_name@);
                        }
                    }
                }
                return;
            }
            i = i + 1;
        }
        self.stored_states.push(w);
    }

    /// Records `Pending(Initial)` for each added workload's instance.
    pub fn initial_state(&mut self, workload_specs: &Vec<WorkloadSpec>)
        requires
            old(self).wf(),
        ensures
            final(self).wf(),
            initial_states_stored(old(self)@, workload_specs@, final(self)@),
    {
        let ghost s0 = self@;
        let mut i: usize = 0;
        proof {
            assert(workload_specs@.subrange(0, 0).len() == 0);
        }
        while i < workload_specs.len()
            invariant
                self.wf(),
                i <= workload_specs@.len(),
                initial_states_stored(s0, workload_specs@.subrange(0, i as int), self@),
            decreases workload_specs@.len() - i,
        {
            let ghost mid = self@;
            let w = WorkloadState {
                instance_name: workload_specs[i].instance_name.clone(),
                execution_state: ExecutionState::initial(),
            };
            self.store(w);
            proof {
                let a = workload_specs@.subrange(0, i as int + 1);
                assert(a.drop_last() =~= workload_specs@.subrange(0, i as int));
                assert(a.last() == workload_specs@[i as int]);
                assert(is_initial_entry(w, a.last()));
            }
            i = i + 1;
        }
        assert(workload_specs@.subrange(0, workload_specs@.len() as int) =~= workload_specs@);
    }

    /// Stores the reports in order; a later report of an instance overwrites an earlier one.
    pub fn process_new_states(&mut self, workload_states: Vec<WorkloadState>)
        requires
            old(self).wf(),
        ensures
            final(self).wf(),
            final(self)@ == store_reports(old(self)@, workload_states@),
    {
        let ghost s0 = self@;
        let mut i: usize = 0;
        proof {
            assert(workload_states@.subrange(0, 0) =~= Seq::<WorkloadState>::empty());
        }
        while i < workload_states.len()
            invariant
                self.wf(),
                i <= workload_states@.len(),
                self@ == store_reports(s0, workload_states@.subrange(0, i as int)),
            decreases workload_states@.len() - i,
        {
            self.store(workload_states[i].clone());
            proof {
                let a = workload_states@.subrange(0, i as int + 1);
                assert(a.drop_last() =~= workload_states@.subrange(0, i as int));
            }
            i = i + 1;
        }
        assert(workload_states@.subrange(0, workload_states@.len() as int) =~= workload_states@);
    }

    /// Every entry of an instance on `agent_name` becomes `AgentDisconnected`, whatever
    /// it was; the others stay as they are.
    pub fn agent_disconnected(&mut self, agent_name: &str)
        requires
            old(self).wf(),
        ensures
            final(self).wf(),
            disconnected(old(self)@, agent_name@, final(self)@),
    {
        let ghost s0 = self@;
        let mut i: usize = 0;
        while i < self.stored_states.len()
            invariant
                self@.len() == s0.len(),
                instances_unique(s0),
                i <= s0.len(),
                forall|j: int| 0 <= j < s0.len() ==> self@[j].instance_name == s0[j].instance_name,
                forall|j: int|
                    0 <= j < s0.len() ==> if j < i && on_agent(s0[j], agent_name@) {
                        (#[trigger] self@[j]).execution_state.state
                            == ExecutionStateEnum::AgentDisconnected
                            && self@[j].execution_state.additional_info@.len() == 0
                    } else {
                        self@[j] == s0[j]
                    },
            decreases s0.len() - i,
        {
            if str_eq(self.stored_states[i].instance_name.agent_name.as_str(), agent_name) {
                let w = WorkloadState {
                    instance_name: self.stored_states[i].instance_name.clone(),
                    execution_state: ExecutionState::agent_disconnected(),
                };
                self.stored_states.set(i, w);
            }
            i = i + 1;
        }
        proof {
            assert forall|a: int, b: int| 0 <= a < b < self@.len() implies self@[a].instance_name@
                != self@[b].instance_name@ by {
                assert(s0[a].instance_name@ != s0[b].instance_name@);
            }
        }
    }

    fn select(&self, agent_name: &str, on: bool) -> (r: Vec<WorkloadState>)
        ensures
            r@ == self@.filter(|w: WorkloadState| on_agent(w, agent_name@) == on),
    {
        let ghost s = self@;
        let ghost p = |w: WorkloadState| on_agent(w, agent_name@) == on;
        let mut r: Vec<WorkloadState> = Vec::new();
        let mut i: usize = 0;
        proof {
            lemma_filter_empty(s, p);
        }
        while i < self.stored_states.len()
            invariant
                s == self@,
                p == (|w: WorkloadState| on_agent(w, agent_name@) == on),
                i <= s.len(),
                r@ == s.subrange(0, i as int).filter(p),
            decreases s.len() - i,
        {
            proof {
                lemma_filter_step(s, i as int, p);
            }
            if str_eq(self.stored_states[i].instance_name.agent_name.as_str(), agent_name) == on {
                r.push(self.stored_states[i].clone());
            }
            i = i + 1;
        }
        assert(s.subrange(0, s.len() as int) =~= s);
        r
    }

    /// The entries of instances on `agent_name`.
    pub fn get_workload_state_for_agent(&self, agent_name: &str) -> (r: Vec<WorkloadState>)
        ensures
            r@ == states_for_agent(self@, agent_name@),
    {
        let r = self.select(agent_name, true);
        assert((|w: WorkloadState| on_agent(w, agent_name@) == true) =~= (|w: WorkloadState|
            on_agent(w, agent_name@)));
        r
    }

    /// The entries of instances on any agent but `agent_name`.
    pub fn get_workload_state_excluding_agent(&self, agent_name: &str) -> (r: Vec<WorkloadState>)
        ensures
            r@ == states_excluding_agent(self@, agent_name@),
    {
        let r = self.select(agent_name, false);
        assert((|w: WorkloadState| on_agent(w, agent_name@) == false) =~= (|w: WorkloadState|
            !on_agent(w, agent_name@)));
        r
    }

    /// All entries.
    pub fn get_all_workload_states(&self) -> (r: Vec<WorkloadState>)
        ensures
            r@ == self@,
    {
        clone_workload_states(&self.stored_states)
    }
}

} // verus!
