use ankaios::cycle_check::check;
use ankaios::objects::{AddCondition, ControlInterfaceAccess, RestartPolicy};
use ankaios::state::{State, API_VERSION};
use ankaios::stored_workload_spec::StoredWorkloadSpec;

fn spec_with_deps(deps: &[(&str, AddCondition)]) -> StoredWorkloadSpec {
    StoredWorkloadSpec {
        agent: "agent_A".to_string(),
        tags: vec![],
        dependencies: deps.iter().map(|(n, c)| (n.to_string(), *c)).collect(),
        restart_policy: RestartPolicy::Never,
        runtime: "podman".to_string(),
        runtime_config: "image: alpine".to_string(),
        control_interface_access: ControlInterfaceAccess::new_empty(),
        configs: vec![],
        files: vec![],
    }
}

fn state_of(ws: Vec<(&str, StoredWorkloadSpec)>) -> State {
    State {
        format_version: API_VERSION.to_string(),
        workloads: ws.into_iter().map(|(n, s)| (n.to_string(), s)).collect(),
        configs: vec![],
    }
}

#[test]
fn check_accepts_acyclic_graph() {
    let state = state_of(vec![
        ("a", spec_with_deps(&[("b", AddCondition::AddCondRunning), ("c", AddCondition::AddCondSucceeded)])),
        ("b", spec_with_deps(&[("c", AddCondition::AddCondRunning)])),
        ("c", spec_with_deps(&[])),
    ]);
    assert_eq!(check(&state), Ok(()));
}

#[test]
fn check_accepts_empty_state() {
    assert_eq!(check(&state_of(vec![])), Ok(()));
}

#[test]
fn check_rejects_self_dependency() {
    let state = state_of(vec![
        ("y", spec_with_deps(&[])),
        ("x", spec_with_deps(&[("x", AddCondition::AddCondRunning)])),
    ]);
    let err = check(&state).unwrap_err();
    assert_eq!(err.workload_name, "x");
}

#[test]
fn check_names_a_member_of_a_longer_cycle() {
    let state = state_of(vec![
        ("entry", spec_with_deps(&[("a", AddCondition::AddCondRunning)])),
        ("a", spec_with_deps(&[("b", AddCondition::AddCondRunning)])),
        ("b", spec_with_deps(&[("c", AddCondition::AddCondFailed)])),
        ("c", spec_with_deps(&[("a", AddCondition::AddCondSucceeded)])),
    ]);
    let err = check(&state).unwrap_err();
    assert!(["a", "b", "c"].contains(&err.workload_name.as_str()));
}

#[test]
fn check_ignores_dependencies_on_absent_workloads() {
    let state = state_of(vec![
        ("w1", spec_with_deps(&[("w2", AddCondition::AddCondSucceeded)])),
        ("w3", spec_with_deps(&[("missing", AddCondition::AddCondRunning), ("w1", AddCondition::AddCondRunning)])),
    ]);
    assert_eq!(check(&state), Ok(()));
}
