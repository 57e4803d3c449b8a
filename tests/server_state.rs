use ankaios::objects::{AddCondition, ControlInterfaceAccess, DeleteCondition, RestartPolicy, Tag, WorkloadInstanceName};
use ankaios::server_state::{CompleteStateRequest, ServerState, UpdateStateError};
use ankaios::state::{CompleteState, State, API_VERSION};
use ankaios::stored_workload_spec::StoredWorkloadSpec;
use ankaios::workload_state_db::WorkloadStateDB;

fn spec_on(agent: &str, config: &str, deps: &[(&str, AddCondition)]) -> StoredWorkloadSpec {
    StoredWorkloadSpec {
        agent: agent.to_string(),
        tags: vec![],
        dependencies: deps.iter().map(|(n, c)| (n.to_string(), *c)).collect(),
        restart_policy: RestartPolicy::Never,
        runtime: "podman".to_string(),
        runtime_config: config.to_string(),
        control_interface_access: ControlInterfaceAccess::new_empty(),
        configs: vec![],
        files: vec![],
    }
}

fn complete(ws: Vec<(&str, StoredWorkloadSpec)>) -> CompleteState {
    CompleteState {
        desired_state: State {
            format_version: API_VERSION.to_string(),
            workloads: ws.into_iter().map(|(n, s)| (n.to_string(), s)).collect(),
            configs: vec![],
        },
        workload_states: vec![],
    }
}

fn names(ws: &[(String, StoredWorkloadSpec)]) -> Vec<String> {
    ws.iter().map(|(n, _)| n.clone()).collect()
}

#[test]
fn update_full_state_twice_is_idempotent() {
    let mut server_state = ServerState::new();
    let s = complete(vec![("w1", spec_on("agent_A", "c1", &[])), ("w2", spec_on("agent_B", "c2", &[]))]);
    let first = server_state.update(s.clone(), vec![]).unwrap().unwrap();
    assert_eq!(first.0.len(), 2);
    assert!(first.1.is_empty());
    assert_eq!(server_state.update(s, vec![]), Ok(None));
}

#[test]
fn config_change_replaces_the_instance() {
    let mut server_state = ServerState::new();
    server_state
        .update(complete(vec![("w1", spec_on("agent_A", "old", &[])), ("w2", spec_on("agent_A", "c", &[]))]), vec![])
        .unwrap();
    let (added, deleted) = server_state
        .update(complete(vec![("w1", spec_on("agent_A", "new", &[])), ("w2", spec_on("agent_A", "c", &[]))]), vec![])
        .unwrap()
        .unwrap();
    assert_eq!(added.len(), 1);
    assert_eq!(added[0].instance_name, WorkloadInstanceName::new("w1".into(), "agent_A".into(), "new"));
    assert_eq!(deleted.len(), 1);
    assert_eq!(deleted[0].instance_name, WorkloadInstanceName::new("w1".into(), "agent_A".into(), "old"));
}

#[test]
fn cosmetic_change_gives_no_delta() {
    let mut server_state = ServerState::new();
    server_state.update(complete(vec![("w1", spec_on("agent_A", "c", &[]))]), vec![]).unwrap();
    let mut changed = spec_on("agent_A", "c", &[]);
    changed.restart_policy = RestartPolicy::Always;
    changed.tags = vec![Tag { key: "k".into(), value: "v".into() }];
    assert_eq!(server_state.update(complete(vec![("w1", changed)]), vec![]), Ok(None));
    assert_eq!(server_state.desired_state().workloads[0].1.restart_policy, RestartPolicy::Always);
}

#[test]
fn update_rejects_self_cycle_and_keeps_state() {
    let mut server_state = ServerState::new();
    server_state.update(complete(vec![("w1", spec_on("agent_A", "c", &[]))]), vec![]).unwrap();
    let before = server_state.desired_state();
    let result = server_state.update(
        complete(vec![("x", spec_on("agent_A", "c", &[("x", AddCondition::AddCondRunning)]))]),
        vec![],
    );
    assert_eq!(result, Err(UpdateStateError::CycleInDependencies("x".to_string())));
    assert_eq!(server_state.desired_state(), before);
}

#[test]
fn update_accepts_dangling_dependency_and_replaces_instance() {
    let mut server_state = ServerState::new();
    server_state
        .update(complete(vec![("w1", spec_on("agent_A", "v1", &[("w2", AddCondition::AddCondSucceeded)]))]), vec![])
        .unwrap();
    let (added, deleted) = server_state
        .update(
            complete(vec![("w1", spec_on("agent_A", "v2", &[("w2", AddCondition::AddCondSucceeded)]))]),
            vec!["desiredState.workloads.w1".to_string()],
        )
        .unwrap()
        .unwrap();
    assert_eq!(added.len(), 1);
    assert_eq!(added[0].instance_name, WorkloadInstanceName::new("w1".into(), "agent_A".into(), "v2"));
    assert_eq!(deleted.len(), 1);
    assert_eq!(deleted[0].instance_name, WorkloadInstanceName::new("w1".into(), "agent_A".into(), "v1"));
}

#[test]
fn update_rejects_incompatible_version() {
    let mut server_state = ServerState::new();
    let mut s = complete(vec![("w1", spec_on("agent_A", "c", &[]))]);
    s.desired_state.format_version = "v9".to_string();
    let result = server_state.update(s, vec![]);
    assert_eq!(result, Err(UpdateStateError::IncompatibleVersion("v9".to_string())));
    assert_eq!(
        result.unwrap_err().message(),
        "Unsupported API version. Received 'v9', expected 'v0.1'"
    );
    assert!(server_state.desired_state().workloads.is_empty());
}

#[test]
fn update_rejects_bad_config_reference() {
    let mut server_state = ServerState::new();
    let mut spec = spec_on("agent_A", "c", &[]);
    spec.configs = vec![("alias".to_string(), "bad key".to_string())];
    let result = server_state.update(complete(vec![("w1", spec)]), vec![]);
    match result {
        Err(UpdateStateError::ResultInvalid(msg)) => {
            assert!(msg.starts_with("Unsupported config reference key. Received 'bad key'"))
        }
        other => panic!("unexpected {:?}", other),
    }
    assert!(server_state.desired_state().workloads.is_empty());
}

#[test]
fn update_rejects_unknown_mask() {
    let mut server_state = ServerState::new();
    let result = server_state.update(
        complete(vec![("w1", spec_on("agent_A", "c", &[]))]),
        vec!["desiredState.workloads.w1".to_string(), "desiredState.other".to_string()],
    );
    assert_eq!(result, Err(UpdateStateError::FieldNotFound("desiredState.other".to_string())));
    assert_eq!(result.unwrap_err().message(), "Could not find field desiredState.other");
    assert!(server_state.desired_state().workloads.is_empty());
}

#[test]
fn masked_update_inserts_and_removes_entries() {
    let mut server_state = ServerState::new();
    server_state
        .update(complete(vec![("w1", spec_on("agent_A", "a", &[])), ("w2", spec_on("agent_A", "b", &[]))]), vec![])
        .unwrap();
    let (added, deleted) = server_state
        .update(
            complete(vec![("w3", spec_on("agent_B", "c", &[]))]),
            vec!["desiredState.workloads.w3".to_string(), "desiredState.workloads.w1".to_string()],
        )
        .unwrap()
        .unwrap();
    assert_eq!(names(&server_state.desired_state().workloads), vec!["w2".to_string(), "w3".to_string()]);
    assert_eq!(added.len(), 1);
    assert_eq!(added[0].instance_name.workload_name, "w3");
    assert_eq!(deleted.len(), 1);
    assert_eq!(deleted[0].instance_name.workload_name, "w1");
}

#[test]
fn deleted_workload_carries_delete_conditions() {
    let mut server_state = ServerState::new();
    server_state
        .update(
            complete(vec![
                ("db", spec_on("agent_A", "d", &[])),
                ("app", spec_on("agent_A", "a", &[("db", AddCondition::AddCondRunning)])),
                ("job", spec_on("agent_A", "j", &[("db", AddCondition::AddCondSucceeded)])),
            ]),
            vec![],
        )
        .unwrap();
    let (_, deleted) = server_state
        .update(complete(vec![("app", spec_on("agent_A", "a", &[]))]), vec![])
        .unwrap()
        .unwrap();
    assert_eq!(deleted.len(), 2);
    assert_eq!(deleted[0].instance_name.workload_name, "db");
    assert_eq!(
        deleted[0].dependencies,
        vec![("app".to_string(), DeleteCondition::DelCondNotPendingNorRunning)]
    );
    assert_eq!(deleted[1].instance_name.workload_name, "job");
    assert!(deleted[1].dependencies.is_empty());
}

#[test]
fn complete_state_by_field_mask_selects_one_workload() {
    let mut server_state = ServerState::new();
    server_state
        .update(complete(vec![("w1", spec_on("agent_A", "a", &[])), ("w2", spec_on("agent_B", "b", &[]))]), vec![])
        .unwrap();
    let db = WorkloadStateDB::new();
    let masked = server_state
        .get_complete_state_by_field_mask(
            &CompleteStateRequest { field_mask: vec!["desiredState.workloads.w1".to_string()] },
            &db,
        )
        .unwrap();
    assert_eq!(names(&masked.desired_state.workloads), vec!["w1".to_string()]);
    assert_eq!(masked.desired_state.format_version, API_VERSION);
    let all = server_state
        .get_complete_state_by_field_mask(&CompleteStateRequest { field_mask: vec![] }, &db)
        .unwrap();
    assert_eq!(names(&all.desired_state.workloads), vec!["w1".to_string(), "w2".to_string()]);
}

#[test]
fn complete_state_by_field_mask_fails_on_unknown_entry() {
    let server_state = ServerState::new();
    let db = WorkloadStateDB::new();
    assert_eq!(
        server_state.get_complete_state_by_field_mask(
            &CompleteStateRequest { field_mask: vec!["desiredState.workloads.none".to_string()] },
            &db,
        ),
        Err("Could not find field desiredState.workloads.none".to_string())
    );
}

#[test]
fn workloads_for_agent_are_filtered() {
    let mut server_state = ServerState::new();
    server_state
        .update(complete(vec![("w1", spec_on("agent_A", "a", &[])), ("w2", spec_on("agent_B", "b", &[]))]), vec![])
        .unwrap();
    let for_b = server_state.get_workloads_for_agent("agent_B");
    assert_eq!(for_b.len(), 1);
    assert_eq!(for_b[0].instance_name.workload_name, "w2");
    assert!(server_state.get_workloads_for_agent("agent_C").is_empty());
}

#[test]
fn update_error_messages() {
    assert_eq!(
        UpdateStateError::CycleInDependencies("w".into()).message(),
        "workload dependency 'w' is part of a cycle."
    );
    assert_eq!(
        UpdateStateError::ResultInvalid("r".into()).message(),
        "Resulting State is invalid, reason: 'r'"
    );
}
