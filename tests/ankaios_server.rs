use ankaios::ankaios_server::AnkaiosServer;
use ankaios::commands::{
    AgentGone, AgentHello, Error, FromServer, Request, RequestContent, Response, ResponseContent,
    Stop, ToServer, UpdateStateRequest, UpdateStateSuccess, UpdateWorkload, UpdateWorkloadState,
};
use ankaios::objects::{
    AddCondition, ControlInterfaceAccess, ExecutionState, ExecutionStateEnum, PendingSubstate,
    RestartPolicy, WorkloadInstanceName, WorkloadState,
};
use ankaios::server_state::CompleteStateRequest;
use ankaios::state::{CompleteState, State, API_VERSION};
use ankaios::stored_workload_spec::{to_workload_spec, StoredWorkloadSpec};

const AGENT_A: &str = "agent_A";
const AGENT_B: &str = "agent_B";
const REQUEST_ID_A: &str = "agent_A@id1";

fn spec_on(agent: &str, config: &str, deps: &[(&str, AddCondition)]) -> StoredWorkloadSpec {
    StoredWorkloadSpec {
        agent: agent.to_string(),
        tags: vec![],
        dependencies: deps.iter().map(|(n, c)| (n.to_string(), *c)).collect(),
        restart_policy: RestartPolicy::Never,
        runtime: "runtime".to_string(),
        runtime_config: config.to_string(),
        control_interface_access: ControlInterfaceAccess::new_empty(),
        configs: vec![],
        files: vec![],
    }
}

fn complete(ws: Vec<(&str, StoredWorkloadSpec)>) -> CompleteState {
    CompleteState {
        desired_state: State {
            format_version: API_VERSION.to_string(),
            workloads: ws.into_iter().map(|(n, s)| (n.to_string(), s)).collect(),
            configs: vec![],
        },
        workload_states: vec![],
    }
}

fn update_request(state: CompleteState, mask: Vec<String>) -> ToServer {
    ToServer::Request(Request {
        request_id: REQUEST_ID_A.to_string(),
        request_content: RequestContent::UpdateStateRequest(UpdateStateRequest {
            state,
            update_mask: mask,
        }),
    })
}

fn error_for(message: &str) -> FromServer {
    FromServer::Response(Response {
        request_id: REQUEST_ID_A.to_string(),
        response_content: ResponseContent::Error(Error { message: message.to_string() }),
    })
}

fn pending(name: &str, agent: &str, config: &str) -> WorkloadState {
    WorkloadState {
        instance_name: WorkloadInstanceName::new(name.to_string(), agent.to_string(), config),
        execution_state: ExecutionState {
            state: ExecutionStateEnum::Pending(PendingSubstate::Initial),
            additional_info: String::new(),
        },
    }
}

#[test]
fn startup_then_first_agent_hello() {
    let w1 = spec_on(AGENT_A, "c1", &[]);
    let w2 = spec_on(AGENT_B, "c2", &[]);
    let spec_w1 = to_workload_spec(&"w1".to_string(), &w1);
    let spec_w2 = to_workload_spec(&"w2".to_string(), &w2);
    let mut server = AnkaiosServer::new();
    let out = server.start(Some(complete(vec![("w1", w1), ("w2", w2)]))).unwrap();
    assert_eq!(
        out,
        vec![FromServer::UpdateWorkload(UpdateWorkload {
            added_workloads: vec![spec_w1.clone(), spec_w2],
            deleted_workloads: vec![],
        })]
    );
    let out = server.process_event(ToServer::AgentHello(AgentHello { agent_name: AGENT_A.to_string() }));
    // the table holds the initial state of w2 on agent_B, which is handed on first
    assert_eq!(
        out,
        vec![
            FromServer::UpdateWorkloadState(UpdateWorkloadState {
                workload_states: vec![pending("w2", AGENT_B, "c2")]
            }),
            FromServer::UpdateWorkload(UpdateWorkload {
                added_workloads: vec![spec_w1],
                deleted_workloads: vec![],
            })
        ]
    );
}

#[test]
fn utest_server_start_fail_on_invalid_startup_config() {
    let mut server = AnkaiosServer::new();
    let startup_state = complete(vec![(
        "workload A",
        spec_on(AGENT_A, "c", &[("workload A", AddCondition::AddCondRunning)]),
    )]);
    let result = server.start(Some(startup_state));
    assert_eq!(result, Err("workload dependency 'workload A' is part of a cycle.".to_string()));
}

#[test]
fn server_starts_without_startup_state() {
    let mut server = AnkaiosServer::new();
    assert_eq!(server.start(None), Ok(vec![]));
}

#[test]
fn utest_server_update_state_continues_on_invalid_new_state() {
    let mut server = AnkaiosServer::new();
    let out = server.process_event(update_request(
        complete(vec![("x", spec_on(AGENT_A, "c", &[("x", AddCondition::AddCondRunning)]))]),
        vec![],
    ));
    assert_eq!(
        out,
        vec![error_for("Update rejected: 'workload dependency 'x' is part of a cycle.'")]
    );
    let out = server.process_event(update_request(complete(vec![("w", spec_on(AGENT_A, "c", &[]))]), vec![]));
    assert_eq!(out.len(), 2);
}

#[test]
fn utest_server_sends_workloads_and_workload_states_when_requested_update_state_success() {
    let mut server = AnkaiosServer::new();
    let w1 = spec_on(AGENT_A, "c1", &[]);
    let spec_w1 = to_workload_spec(&"w1".to_string(), &w1);
    let out = server.process_event(update_request(
        complete(vec![("w1", w1)]),
        vec!["desiredState.workloads.w1".to_string()],
    ));
    assert_eq!(
        out,
        vec![
            FromServer::UpdateWorkload(UpdateWorkload {
                added_workloads: vec![spec_w1.clone()],
                deleted_workloads: vec![],
            }),
            FromServer::Response(Response {
                request_id: REQUEST_ID_A.to_string(),
                response_content: ResponseContent::UpdateStateSuccess(UpdateStateSuccess {
                    added_workloads: vec![spec_w1.instance_name.to_instance_string()],
                    deleted_workloads: vec![],
                }),
            })
        ]
    );
    assert!(spec_w1.instance_name.to_instance_string().starts_with("w1."));
    assert!(spec_w1.instance_name.to_instance_string().ends_with(".agent_A"));
}

#[test]
fn utest_server_sends_workloads_and_workload_states_when_requested_update_state_nothing_to_do() {
    let mut server = AnkaiosServer::new();
    let s = complete(vec![("w1", spec_on(AGENT_A, "c1", &[]))]);
    server.process_event(update_request(s.clone(), vec![]));
    let out = server.process_event(update_request(s, vec![]));
    assert_eq!(
        out,
        vec![FromServer::Response(Response {
            request_id: REQUEST_ID_A.to_string(),
            response_content: ResponseContent::UpdateStateSuccess(UpdateStateSuccess {
                added_workloads: vec![],
                deleted_workloads: vec![],
            }),
        })]
    );
}

#[test]
fn utest_server_rejects_update_state_with_incompatible_version() {
    let mut server = AnkaiosServer::new();
    let mut s = complete(vec![]);
    s.desired_state.format_version = "incompatible_version".to_string();
    let out = server.process_event(update_request(s, vec!["desiredState.workloads.w".to_string()]));
    assert_eq!(
        out,
        vec![error_for(&format!(
            "Unsupported API version. Received 'incompatible_version', expected '{}'",
            API_VERSION
        ))]
    );
}

#[test]
fn utest_server_rejects_update_state_without_format_version() {
    let mut server = AnkaiosServer::new();
    let mut s = complete(vec![]);
    s.desired_state.format_version = String::new();
    let out = server.process_event(update_request(s, vec![]));
    assert_eq!(
        out,
        vec![error_for(&format!("Unsupported API version. Received '', expected '{}'", API_VERSION))]
    );
}

#[test]
fn complete_state_request_with_mask() {
    let mut server = AnkaiosServer::new();
    server.process_event(update_request(
        complete(vec![("w1", spec_on(AGENT_A, "a", &[])), ("w2", spec_on(AGENT_B, "b", &[]))]),
        vec![],
    ));
    let ask = |mask: Vec<String>| {
        ToServer::Request(Request {
            request_id: REQUEST_ID_A.to_string(),
            request_content: RequestContent::CompleteStateRequest(CompleteStateRequest { field_mask: mask }),
        })
    };
    let out = server.process_event(ask(vec!["desiredState.workloads.w1".to_string()]));
    match &out[..] {
        [FromServer::Response(Response { response_content: ResponseContent::CompleteState(c), .. })] => {
            assert_eq!(c.desired_state.workloads.len(), 1);
            assert_eq!(c.desired_state.workloads[0].0, "w1");
        }
        other => panic!("unexpected {:?}", other),
    }
    let out = server.process_event(ask(vec![]));
    match &out[..] {
        [FromServer::Response(Response { response_content: ResponseContent::CompleteState(c), .. })] => {
            assert_eq!(c.desired_state.workloads.len(), 2);
            assert_eq!(c.workload_states.len(), 2);
        }
        other => panic!("unexpected {:?}", other),
    }
    let out = server.process_event(ask(vec!["no.such.field".to_string()]));
    assert_eq!(
        out,
        vec![FromServer::Response(Response {
            request_id: REQUEST_ID_A.to_string(),
            response_content: ResponseContent::CompleteState(CompleteState::default()),
        })]
    );
}

#[test]
fn utest_server_start_distributes_workload_states_after_agent_disconnect() {
    let mut server = AnkaiosServer::new();
    let running = WorkloadState {
        instance_name: WorkloadInstanceName::new("w1".into(), AGENT_A.into(), "c"),
        execution_state: ExecutionState::running(),
    };
    let out = server.process_event(ToServer::UpdateWorkloadState(UpdateWorkloadState {
        workload_states: vec![running.clone()],
    }));
    assert_eq!(
        out,
        vec![FromServer::UpdateWorkloadState(UpdateWorkloadState { workload_states: vec![running.clone()] })]
    );
    let out = server.process_event(ToServer::AgentGone(AgentGone { agent_name: AGENT_A.to_string() }));
    assert_eq!(
        out,
        vec![FromServer::UpdateWorkloadState(UpdateWorkloadState {
            workload_states: vec![WorkloadState {
                instance_name: running.instance_name,
                execution_state: ExecutionState::agent_disconnected(),
            }]
        })]
    );
}

#[test]
fn utest_server_stop() {
    let mut server = AnkaiosServer::new();
    assert!(server.process_event(ToServer::Stop(Stop {})).is_empty());
    assert!(server
        .process_event(ToServer::AgentHello(AgentHello { agent_name: AGENT_A.to_string() }))
        .is_empty());
}

#[test]
fn utest_server_start_with_valid_startup_config() {
    let w1 = spec_on(AGENT_A, "c1", &[]);
    let spec_w1 = to_workload_spec(&"workload_1".to_string(), &w1);
    let mut server = AnkaiosServer::new();
    let out = server.start(Some(complete(vec![("workload_1", w1)]))).unwrap();
    assert_eq!(
        out,
        vec![FromServer::UpdateWorkload(UpdateWorkload {
            added_workloads: vec![spec_w1],
            deleted_workloads: vec![],
        })]
    );
    let out = server.process_event(ToServer::AgentHello(AgentHello { agent_name: AGENT_B.to_string() }));
    assert_eq!(
        out[0],
        FromServer::UpdateWorkloadState(UpdateWorkloadState {
            workload_states: vec![pending("workload_1", AGENT_A, "c1")]
        })
    );
    assert_eq!(out.len(), 2);
}

#[test]
fn update_request_with_duplicate_names_is_rejected() {
    let mut server = AnkaiosServer::new();
    let out = server.process_event(update_request(
        complete(vec![("w", spec_on(AGENT_A, "a", &[])), ("w", spec_on(AGENT_B, "b", &[]))]),
        vec![],
    ));
    assert_eq!(out, vec![error_for("workload and config names must be unique")]);
}
