//! The reconciliation loop's decisions: one inbound event at a time, in order, it
//! drives the reconciler and the state table and says which outbound events follow.
//! Receiving and sending are left to the caller.
use vstd::prelude::*;

use crate::commands::{
    error_response, is_error_response, FromServer, RequestContent, Response, ResponseContent,
    ToServer, UpdateStateRequest, UpdateStateSuccess, UpdateWorkload, UpdateWorkloadState,
};
use crate::delta::as_workload_spec;
use crate::keyed::{keys_distinct, keys_unique};
use crate::objects::{
    clone_workload_states, deleted_view, instance_string, specs_view, DeletedWorkload,
    WorkloadSpec, WorkloadSpecView, WorkloadState,
};
use crate::server_state::{
    candidate_of, for_agent, masks_view, query_result, update_error_message, update_outcome,
    CompleteStateRequest, ServerState, UpdateStateError,
};
use crate::state::{compatible_format, state_wf, CompleteState, CompleteStateView, State, StateView, API_VERSION};
use crate::workload_state_db::{
    disconnected, initial_states_stored, instances_unique, states_excluding_agent,
    states_for_agent, store_reports, WorkloadStateDB,
};

verus! {

/// The loop's state as plain values.
pub struct ServerView {
    pub desired: StateView,
    pub states: Seq<WorkloadState>,
    pub running: bool,
}

/// Owns the reconciler and the state table; the only writer of both.
pub struct AnkaiosServer {
    server_state: ServerState,
    workload_state_db: WorkloadStateDB,
    running: bool,
}

impl View for AnkaiosServer {
    type V = ServerView;

    closed spec fn view(&self) -> ServerView {
        ServerView {
            desired: self.server_state@,
            states: self.workload_state_db@,
            running: self.running,
        }
    }
}

pub open spec fn duplicate_names_message() -> Seq<char> {
    "workload and config names must be unique"@
}

pub open spec fn version_message(v: Seq<char>) -> Seq<char> {
    "Unsupported API version. Received '"@ + v + "', expected '"@ + API_VERSION@ + "'"@
}

pub open spec fn rejected_message(e: Seq<char>) -> Seq<char> {
    "Update rejected: '"@ + e + "'"@
}

/// `f` hands the workloads `specs` to an agent and removes nothing.
pub open spec fn is_add_only(f: FromServer, specs: Seq<WorkloadSpecView>) -> bool {
    match f {
        FromServer::UpdateWorkload(u) => specs_view(u.added_workloads@) == specs
            && u.deleted_workloads@.len() == 0,
        _ => false,
    }
}

/// `f` broadcasts the state reports `states`.
pub open spec fn is_state_broadcast(f: FromServer, states: Seq<WorkloadState>) -> bool {
    match f {
        FromServer::UpdateWorkloadState(u) => u.workload_states@ == states,
        _ => false,
    }
}

/// `f` broadcasts the delta `(added, deleted)`.
pub open spec fn is_delta_broadcast(f: FromServer, added: Seq<WorkloadSpec>, deleted: Seq<DeletedWorkload>) -> bool {
    match f {
        FromServer::UpdateWorkload(u) => specs_view(u.added_workloads@) == specs_view(added)
            && deleted_view(u.deleted_workloads@) == deleted_view(deleted),
        _ => false,
    }
}

pub open spec fn names_view(v: Seq<String>) -> Seq<Seq<char>> {
    v.map_values(|s: String| s@)
}

pub open spec fn added_names(a: Seq<WorkloadSpec>) -> Seq<Seq<char>> {
    a.map_values(|w: WorkloadSpec| instance_string(w.instance_name))
}

pub open spec fn deleted_names(d: Seq<DeletedWorkload>) -> Seq<Seq<char>> {
    d.map_values(|w: DeletedWorkload| instance_string(w.instance_name))
}

/// `f` tells request `id` that its update was taken, with the instance names.
pub open spec fn is_success_response(f: FromServer, id: Seq<char>, added: Seq<Seq<char>>, deleted: Seq<Seq<char>>) -> bool {
    match f {
        FromServer::Response(resp) => resp.request_id@ == id && match resp.response_content {
            ResponseContent::UpdateStateSuccess(s) => names_view(s.added_workloads@) == added
                && names_view(s.deleted_workloads@) == deleted,
            _ => false,
        },
        _ => false,
    }
}

/// `f` answers request `id` with a complete state whose view is `c`.
pub open spec fn is_complete_state_response(f: FromServer, id: Seq<char>, c: CompleteStateView) -> bool {
    match f {
        FromServer::Response(resp) => resp.request_id@ == id && match resp.response_content {
            ResponseContent::CompleteState(s) => s@ == c,
            _ => false,
        },
        _ => false,
    }
}

/// `f` answers request `id` with the empty default complete state.
pub open spec fn is_empty_complete_state_response(f: FromServer, id: Seq<char>) -> bool {
    match f {
        FromServer::Response(resp) => resp.request_id@ == id && match resp.response_content {
            ResponseContent::CompleteState(s) => s.desired_state.format_version@ == API_VERSION@
                && s.desired_state.workloads@.len() == 0 && s.desired_state.configs@.len() == 0
                && s.workload_states@.len() == 0,
            _ => false,
        },
        _ => false,
    }
}

/// A newly connected agent gets the reports of all other agents, if there are any, and
/// then the workloads assigned to it.
pub open spec fn hello_outcome(v: ServerView, agent: Seq<char>, out: Seq<FromServer>) -> bool {
    let others = states_excluding_agent(v.states, agent);
    let mine = v.desired.workloads.filter(for_agent(agent)).map_values(as_workload_spec());
    if others.len() > 0 {
        out.len() == 2 && is_state_broadcast(out[0], others) && is_add_only(out[1], mine)
    } else {
        out.len() == 1 && is_add_only(out[0], mine)
    }
}

/// The instances of a departed agent become `AgentDisconnected` and their reports are
/// broadcast.
pub open spec fn gone_outcome(v: ServerView, agent: Seq<char>, next: ServerView, out: Seq<FromServer>) -> bool {
    &&& next.desired == v.desired
    &&& next.running == v.running
    &&& disconnected(v.states, agent, next.states)
    &&& out.len() == 1
    &&& is_state_broadcast(out[0], states_for_agent(next.states, agent))
}

/// Reports are stored and broadcast as they came.
pub open spec fn report_outcome(v: ServerView, reports: Seq<WorkloadState>, next: ServerView, out: Seq<FromServer>) -> bool {
    &&& next.desired == v.desired
    &&& next.running == v.running
    &&& next.states == store_reports(v.states, reports)
    &&& out.len() == 1
    &&& is_state_broadcast(out[0], reports)
}

/// A read answers with the projection, or with the empty default when a mask fails.
pub open spec fn query_outcome(v: ServerView, id: Seq<char>, masks: Seq<Seq<char>>, out: Seq<FromServer>) -> bool {
    out.len() == 1 && match query_result(v.desired, v.states, masks) {
        Ok(c) => is_complete_state_response(out[0], id, c),
        Err(_) => is_empty_complete_state_response(out[0], id),
    }
}

/// What follows the reconciler's answer `r` to request `id`: an error response, a
/// success with no delta, or initial states, the delta broadcast and a success.
pub open spec fn reaction(
    states: Seq<WorkloadState>,
    id: Seq<char>,
    r: Result<Option<(Vec<WorkloadSpec>, Vec<DeletedWorkload>)>, UpdateStateError>,
    next_states: Seq<WorkloadState>,
    out: Seq<FromServer>,
) -> bool {
    match r {
        Err(e) => next_states == states && out.len() == 1 && is_error_response(
            out[0],
            id,
            rejected_message(update_error_message(e)),
        ),
        Ok(None) => next_states == states && out.len() == 1 && is_success_response(
            out[0],
            id,
            Seq::empty(),
            Seq::empty(),
        ),
        Ok(Some((a, d))) => initial_states_stored(states, a@, next_states) && out.len() == 2
            && is_delta_broadcast(out[0], a@, d@) && is_success_response(
            out[1],
            id,
            added_names(a@),
            deleted_names(d@),
        ),
    }
}

/// An update request: rejected before the reconciler for duplicate names or a wrong
/// format version; otherwise whatever the reconciler decides, and its reaction.
pub open spec fn update_request_outcome(
    v: ServerView,
    id: Seq<char>,
    new_state: StateView,
    masks: Seq<Seq<char>>,
    next: ServerView,
    out: Seq<FromServer>,
) -> bool {
    if !state_wf(new_state) {
        next == v && out.len() == 1 && is_error_response(out[0], id, duplicate_names_message())
    } else if !compatible_format(new_state.format_version@) {
        next == v && out.len() == 1 && is_error_response(
            out[0],
            id,
            version_message(new_state.format_version@),
        )
    } else {
        next.running == v.running && match candidate_of(v.desired, new_state, masks) {
            Err(f) => next == v && out.len() == 1 && is_error_response(
                out[0],
                id,
                rejected_message("Could not find field "@ + f),
            ),
            Ok(c) => exists|r: Result<Option<(Vec<WorkloadSpec>, Vec<DeletedWorkload>)>, UpdateStateError>|
                update_outcome(v.desired, c, r, next.desired) && reaction(
                    v.states,
                    id,
                    r,
                    next.states,
                    out,
                ),
        }
    }
}

/// The instance names of the added workloads.
fn added_instance_names(a: &Vec<WorkloadSpec>) -> (r: Vec<String>)
    ensures
        names_view(r@) == added_names(a@),
{
    let mut r: Vec<String> = Vec::new();
    let mut i: usize = 0;
    while i < a.len()
        invariant
            i <= a@.len(),
            r@.len() == i,
            forall|k: int| 0 <= k < i ==> (#[trigger] r@[k])@ == instance_string(a@[k].instance_name),
        decreases a@.len() - i,
    {
        r.push(a[i].instance_name.to_instance_string());
        i = i + 1;
    }
    assert(names_view(r@) =~= added_names(a@));
    r
}

/// The instance names of the deleted workloads.
fn deleted_instance_names(d: &Vec<DeletedWorkload>) -> (r: Vec<String>)
    ensures
        names_view(r@) == deleted_names(d@),
{
    let mut r: Vec<String> = Vec::new();
    let mut i: usize = 0;
    while i < d.len()
        invariant
            i <= d@.len(),
            r@.len() == i,
            forall|k: int| 0 <= k < i ==> (#[trigger] r@[k])@ == instance_string(d@[k].instance_name),
        decreases d@.len() - i,
    {
        r.push(d[i].instance_name.to_instance_string());
        i = i + 1;
    }
    assert(names_view(r@) =~= deleted_names(d@));
    r
}

fn success_response(request_id: String, added: Vec<String>, deleted: Vec<String>) -> (r: FromServer)
    ensures
        is_success_response(r, request_id@, names_view(added@), names_view(deleted@)),
{
    FromServer::Response(
        Response {
            request_id,
            response_content: ResponseContent::UpdateStateSuccess(
                UpdateStateSuccess { added_workloads: added, deleted_workloads: deleted },
            ),
        },
    )
}

impl AnkaiosServer {
    /// Both parts hold maps: names and instances are distinct.
    pub open spec fn wf(&self) -> bool {
        state_wf(self@.desired) && instances_unique(self@.states)
    }

    /// A running loop with an empty desired state and an empty table.
    pub fn new() -> (r: Self)
        ensures
            r.wf(),
            r@.running,
            r@.desired.format_version@ == API_VERSION@,
            r@.desired.workloads.len() == 0,
            r@.desired.configs.len() == 0,
            r@.states.len() == 0,
    {
        AnkaiosServer {
            server_state: ServerState::new(),
            workload_state_db: WorkloadStateDB::new(),
            running: true,
        }
    }

    /// Whether the loop still takes events.
    pub fn is_running(&self) -> (r: bool)
        ensures
            r == self@.running,
    {
        self.running
    }

    /// Applies the startup state, if any, as an update with an empty mask. A rejected
    /// startup state is an error and nothing changes; otherwise the result is the
    /// broadcast of the delta, if there is one.
    pub fn start(&mut self, startup_state: Option<CompleteState>) -> (r: Result<Vec<FromServer>, String>)
        requires
            old(self).wf(),
        ensures
            final(self).wf(),
            final(self)@.running == old(self)@.running,
            startup_state is None ==> final(self)@ == old(self)@,
            startup_state is None ==> r is Ok && r->Ok_0@.len() == 0,
            startup_state matches Some(s) ==> if !state_wf(s.desired_state@) {
                    r matches Err(m) && m@ == duplicate_names_message() && final(self)@ == old(self)@
                } else {
                    exists|u: Result<Option<(Vec<WorkloadSpec>, Vec<DeletedWorkload>)>, UpdateStateError>|
                        update_outcome(old(self)@.desired, s.desired_state@, u, final(self)@.desired)
                            && match u {
                            Err(e) => r matches Err(m) && m@ == update_error_message(e)
                                && final(self)@.states == old(self)@.states,
                            Ok(None) => r matches Ok(out) && out@.len() == 0
                                && final(self)@.states == old(self)@.states,
                            Ok(Some((a, d))) => initial_states_stored(old(self)@.states, a@, final(self)@.states)
                                && (r matches Ok(out) && out@.len() == 1 && is_delta_broadcast(out@[0], a@, d@)),
                        }
                },
    {
        match startup_state {
            None => {
                let out: Vec<FromServer> = Vec::new();
                assert(out@.len() == 0);
                Ok(out)
            },
            Some(state) => {
                if !(keys_distinct(&state.desired_state.workloads) && keys_distinct(&state.desired_state.configs)) {
                    proof {
                        crate::keyed::lemma_keys_view(state.desired_state.workloads@);
                        crate::keyed::lemma_keys_view(state.desired_state.configs@);
                    }
                    return Err(String::from_str("workload and config names must be unique"));
                }
                proof {
                    crate::keyed::lemma_keys_view(state.desired_state.workloads@);
                    crate::keyed::lemma_keys_view(state.desired_state.configs@);
                }
                let ghost desired = state.desired_state@;
                let no_mask: Vec<String> = Vec::new();
                proof {
                    assert(masks_view(no_mask@) =~= Seq::<Seq<char>>::empty());
                }
                let r = self.server_state.update(state, no_mask);
                let ghost u = r;
                let result = match r {
                    Ok(Some((added, deleted))) => {
                        self.workload_state_db.initial_state(&added);
                        let mut out: Vec<FromServer> = Vec::new();
                        out.push(
                            FromServer::UpdateWorkload(
                                UpdateWorkload { added_workloads: added, deleted_workloads: deleted },
                            ),
                        );
                        Ok(out)
                    },
                    Ok(None) => Ok(Vec::new()),
                    Err(e) => Err(e.message()),
                };
                proof {
                    assert(update_outcome(old(self)@.desired, desired, u, self@.desired));
                }
                result
            },
        }
    }

    fn handle_agent_hello(&self, agent_name: &str) -> (out: Vec<FromServer>)
        ensures
            hello_outcome(self@, agent_name@, out@),
    {
        let mut out: Vec<FromServer> = Vec::new();
        let workload_states = self.workload_state_db.get_workload_state_excluding_agent(agent_name);
        if workload_states.len() > 0 {
            out.push(FromServer::UpdateWorkloadState(UpdateWorkloadState { workload_states }));
        }
        let added_workloads = self.server_state.get_workloads_for_agent(agent_name);
        out.push(
            FromServer::UpdateWorkload(
                UpdateWorkload { added_workloads, deleted_workloads: Vec::new() },
            ),
        );
        out
    }

    fn handle_update_state(&mut self, request_id: String, request: UpdateStateRequest) -> (out: Vec<FromServer>)
        requires
            old(self).wf(),
        ensures
            final(self).wf(),
            update_request_outcome(
                old(self)@,
                request_id@,
                request.state.desired_state@,
                masks_view(request.update_mask@),
                final(self)@,
                out@,
            ),
    {
        let mut out: Vec<FromServer> = Vec::new();
        let desired = &request.state.desired_state;
        if !(keys_distinct(&desired.workloads) && keys_distinct(&desired.configs)) {
            proof {
                crate::keyed::lemma_keys_view(desired.workloads@);
                crate::keyed::lemma_keys_view(desired.configs@);
            }
            out.push(error_response(request_id, String::from_str("workload and config names must be unique")));
            return out;
        }
        proof {
            crate::keyed::lemma_keys_view(desired.workloads@);
            crate::keyed::lemma_keys_view(desired.configs@);
        }
        if !State::is_compatible_format(&desired.format_version) {
            let mut message = String::from_str("Unsupported API version. Received '");
            message.append(desired.format_version.as_str());
            message.append("', expected '");
            message.append(API_VERSION);
            message.append("'");
            out.push(error_response(request_id, message));
            return out;
        }
        let ghost masks = masks_view(request.update_mask@);
        let ghost new_view = request.state.desired_state@;
        let r = self.server_state.update(request.state, request.update_mask);
        let ghost u = r;
        match r {
            Ok(Some((added, deleted))) => {
                self.workload_state_db.initial_state(&added);
                let added_names = added_instance_names(&added);
                let deleted_names = deleted_instance_names(&deleted);
                out.push(
                    FromServer::UpdateWorkload(
                        UpdateWorkload { added_workloads: added, deleted_workloads: deleted },
                    ),
                );
                out.push(success_response(request_id, added_names, deleted_names));
            },
            Ok(None) => {
                let none_added: Vec<String> = Vec::new();
                let none_deleted: Vec<String> = Vec::new();
                proof {
                    assert(names_view(none_added@) =~= Seq::<Seq<char>>::empty());
                    assert(names_view(none_deleted@) =~= Seq::<Seq<char>>::empty());
                }
                out.push(success_response(request_id, none_added, none_deleted));
            },
            Err(e) => {
                let mut message = String::from_str("Update rejected: '");
                let m = e.message();
                message.append(m.as_str());
                message.append("'");
                out.push(error_response(request_id, message));
            },
        }
        proof {
            match candidate_of(old(self)@.desired, new_view, masks) {
                Ok(c) => {
                    assert(update_outcome(old(self)@.desired, c, u, self@.desired));
                },
                Err(f) => {},
            }
        }
        out
    }

    fn handle_complete_state_request(&self, request_id: String, request: &CompleteStateRequest) -> (out: Vec<FromServer>)
        requires
            self.wf(),
        ensures
            query_outcome(self@, request_id@, masks_view(request.field_mask@), out@),
    {
        let complete_state = match self.server_state.get_complete_state_by_field_mask(
            request,
            &self.workload_state_db,
        ) {
            Ok(c) => c,
            Err(_) => CompleteState::default(),
        };
        let mut out: Vec<FromServer> = Vec::new();
        out.push(
            FromServer::Response(
                Response {
                    request_id,
                    response_content: ResponseContent::CompleteState(complete_state),
                },
            ),
        );
        out
    }

    /// Handles one inbound event and returns the outbound events, in the order in which
    /// they are to be sent. A stopped loop ignores every event.
    pub fn process_event(&mut self, event: ToServer) -> (out: Vec<FromServer>)
        requires
            old(self).wf(),
        ensures
            final(self).wf(),
            !old(self)@.running ==> final(self)@ == old(self)@ && out@.len() == 0,
            old(self)@.running ==> match event {
                ToServer::AgentHello(h) => final(self)@ == old(self)@ && hello_outcome(
                    old(self)@,
                    h.agent_name@,
                    out@,
                ),
                ToServer::AgentGone(g) => gone_outcome(old(self)@, g.agent_name@, final(self)@, out@),
                ToServer::Request(req) => match req.request_content {
                    RequestContent::UpdateStateRequest(u) => update_request_outcome(
                        old(self)@,
                        req.request_id@,
                        u.state.desired_state@,
                        masks_view(u.update_mask@),
                        final(self)@,
                        out@,
                    ),
                    RequestContent::CompleteStateRequest(c) => final(self)@ == old(self)@
                        && query_outcome(
                        old(self)@,
                        req.request_id@,
                        masks_view(c.field_mask@),
                        out@,
                    ),
                },
                ToServer::UpdateWorkloadState(s) => report_outcome(
                    old(self)@,
                    s.workload_states@,
                    final(self)@,
                    out@,
                ),
                ToServer::Stop(_) => final(self)@ == (ServerView { running: false, ..old(self)@ })
                    && out@.len() == 0,
            },
    {
        if !self.running {
            return Vec::new();
        }
        match event {
            ToServer::AgentHello(hello) => self.handle_agent_hello(hello.agent_name.as_str()),
            ToServer::AgentGone(gone) => {
                self.workload_state_db.agent_disconnected(gone.agent_name.as_str());
                let workload_states = self.workload_state_db.get_workload_state_for_agent(
                    gone.agent_name.as_str(),
                );
                let mut out: Vec<FromServer> = Vec::new();
                out.push(FromServer::UpdateWorkloadState(UpdateWorkloadState { workload_states }));
                out
            },
            ToServer::Request(request) => match request.request_content {
                RequestContent::UpdateStateRequest(update) => self.handle_update_state(
                    request.request_id,
                    update,
                ),
                RequestContent::CompleteStateRequest(query) => self.handle_complete_state_request(
                    request.request_id,
                    &query,
                ),
            },
            ToServer::UpdateWorkloadState(reports) => {
                let workload_states = clone_workload_states(&reports.workload_states);
                self.workload_state_db.process_new_states(reports.workload_states);
                let mut out: Vec<FromServer> = Vec::new();
                out.push(FromServer::UpdateWorkloadState(UpdateWorkloadState { workload_states }));
                out
            },
            ToServer::Stop(_) => {
                self.running = false;
                Vec::new()
            },
        }
    }
}

} // verus!
