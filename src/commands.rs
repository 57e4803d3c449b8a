//! Messages into and out of the reconciliation loop.
use vstd::prelude::*;

use crate::objects::{DeletedWorkload, WorkloadSpec, WorkloadState};
use crate::server_state::CompleteStateRequest;
use crate::state::CompleteState;

verus! {

#[derive(Debug, PartialEq, Eq)]
pub struct AgentHello {
    pub agent_name: String,
}

#[derive(Debug, PartialEq, Eq)]
pub struct AgentGone {
    pub agent_name: String,
}

#[derive(Debug, PartialEq, Eq)]
pub struct Stop {}

/// A change of the desired state: `state` wholly for an empty mask, else the subtrees
/// of it that the masks address.
#[derive(Debug, PartialEq, Eq)]
pub struct UpdateStateRequest {
    pub state: CompleteState,
    pub update_mask: Vec<String>,
}

#[derive(Debug, PartialEq, Eq)]
pub enum RequestContent {
    UpdateStateRequest(UpdateStateRequest),
    CompleteStateRequest(CompleteStateRequest),
}

#[derive(Debug, PartialEq, Eq)]
pub struct Request {
    pub request_id: String,
    pub request_content: RequestContent,
}

#[derive(Debug, PartialEq, Eq)]
pub struct UpdateWorkloadState {
    pub workload_states: Vec<WorkloadState>,
}

/// An inbound event.
#[derive(Debug, PartialEq, Eq)]
pub enum ToServer {
    AgentHello(AgentHello),
    AgentGone(AgentGone),
    Request(Request),
    UpdateWorkloadState(UpdateWorkloadState),
    Stop(Stop),
}

/// Workloads for agents to start and instances for them to remove.
#[derive(Debug, PartialEq, Eq)]
pub struct UpdateWorkload {
    pub added_workloads: Vec<WorkloadSpec>,
    pub deleted_workloads: Vec<DeletedWorkload>,
}

#[derive(Debug, PartialEq, Eq)]
pub struct Error {
    pub message: String,
}

/// The instance names, as strings, that an accepted update added and deleted.
#[derive(Debug, PartialEq, Eq)]
pub struct UpdateStateSuccess {
    pub added_workloads: Vec<String>,
    pub deleted_workloads: Vec<String>,
}

#[derive(Debug, PartialEq, Eq)]
pub enum ResponseContent {
    Error(Error),
    CompleteState(CompleteState),
    UpdateStateSuccess(UpdateStateSuccess),
}

#[derive(Debug, PartialEq, Eq)]
pub struct Response {
    pub request_id: String,
    pub response_content: ResponseContent,
}

/// An outbound event.
#[derive(Debug, PartialEq, Eq)]
pub enum FromServer {
    UpdateWorkload(UpdateWorkload),
    UpdateWorkloadState(UpdateWorkloadState),
    Response(Response),
}

/// `f` answers request `id` with the error `msg`.
pub open spec fn is_error_response(f: FromServer, id: Seq<char>, msg: Seq<char>) -> bool {
    match f {
        FromServer::Response(resp) => resp.request_id@ == id && match resp.response_content {
            ResponseContent::Error(e) => e.message@ == msg,
            _ => false,
        },
        _ => false,
    }
}

pub fn error_response(request_id: String, message: String) -> (r: FromServer)
    ensures
        is_error_response(r, request_id@, message@),
{
    FromServer::Response(
        Response { request_id, response_content: ResponseContent::Error(Error { message }) },
    )
}

} // verus!
