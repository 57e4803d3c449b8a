use ankaios::objects::{
    ExecutionState, ExecutionStateEnum, PendingSubstate, WorkloadInstanceName, WorkloadState,
};
use ankaios::workload_state_db::WorkloadStateDB;

fn report(name: &str, agent: &str, state: ExecutionStateEnum) -> WorkloadState {
    WorkloadState {
        instance_name: WorkloadInstanceName::new(name.to_string(), agent.to_string(), "cfg"),
        execution_state: ExecutionState { state, additional_info: "info".to_string() },
    }
}

#[test]
fn agent_disconnected_marks_only_that_agents_instances() {
    let mut db = WorkloadStateDB::new();
    db.process_new_states(vec![
        report("w1", "agent_A", ExecutionStateEnum::Running),
        report("w2", "agent_A", ExecutionStateEnum::Succeeded),
        report("w3", "agent_A", ExecutionStateEnum::Removed),
        report("w4", "agent_B", ExecutionStateEnum::Failed),
    ]);
    db.agent_disconnected("agent_A");
    let on_a = db.get_workload_state_for_agent("agent_A");
    assert_eq!(on_a.len(), 3);
    for s in &on_a {
        assert_eq!(s.execution_state.state, ExecutionStateEnum::AgentDisconnected);
        assert_eq!(s.execution_state.additional_info, "");
    }
    assert_eq!(
        db.get_workload_state_excluding_agent("agent_A"),
        vec![report("w4", "agent_B", ExecutionStateEnum::Failed)]
    );
}

#[test]
fn later_report_overwrites_earlier_one() {
    let mut db = WorkloadStateDB::new();
    db.process_new_states(vec![
        report("w1", "agent_A", ExecutionStateEnum::Running),
        report("w2", "agent_B", ExecutionStateEnum::Running),
    ]);
    db.process_new_states(vec![report("w1", "agent_A", ExecutionStateEnum::Succeeded)]);
    assert_eq!(
        db.get_all_workload_states(),
        vec![
            report("w1", "agent_A", ExecutionStateEnum::Succeeded),
            report("w2", "agent_B", ExecutionStateEnum::Running)
        ]
    );
}

#[test]
fn initial_state_is_pending_initial() {
    let mut db = WorkloadStateDB::new();
    let spec = ankaios::stored_workload_spec::to_workload_spec(
        &"w1".to_string(),
        &ankaios::stored_workload_spec::generate_test_stored_workload_spec("agent_A", "runtime"),
    );
    db.process_new_states(vec![WorkloadState {
        instance_name: spec.instance_name.clone(),
        execution_state: ExecutionState::running(),
    }]);
    db.initial_state(&vec![spec.clone()]);
    assert_eq!(
        db.get_workload_state_for_agent("agent_A"),
        vec![WorkloadState {
            instance_name: spec.instance_name,
            execution_state: ExecutionState {
                state: ExecutionStateEnum::Pending(PendingSubstate::Initial),
                additional_info: String::new()
            }
        }]
    );
}
