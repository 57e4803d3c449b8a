use ankaios::control_interface_path::ControlInterfacePath;
use ankaios::objects::WorkloadInstanceName;

#[test]
fn utest_equality() {
    let control_interface_path = ControlInterfacePath::new(String::from(
        "/tmp/control_interface/agent_Z/test_workload/id",
    ));
    let control_interface_path_eq = ControlInterfacePath::new(String::from(
        "/tmp/control_interface/agent_Z/test_workload/id",
    ));
    let other_path_buf = String::from("/tmp/control_interface/agent_Z/other_workload/id");
    let control_interface_path_ne = ControlInterfacePath::new(other_path_buf.clone());

    assert_eq!(control_interface_path, control_interface_path_eq);
    assert!(control_interface_path == control_interface_path_eq);
    assert!(control_interface_path != other_path_buf);

    assert_ne!(control_interface_path, control_interface_path_ne);
    assert!(control_interface_path != control_interface_path_ne);
    assert!(control_interface_path_ne == other_path_buf);
}

#[test]
fn control_interface_path_below_run_folder() {
    let instance = WorkloadInstanceName::new("nginx".to_string(), "agent_A".to_string(), "");
    let path = ControlInterfacePath::from_run_folder("/tmp/ankaios/agent_A_io", &instance);
    assert_eq!(
        path.as_path(),
        "/tmp/ankaios/agent_A_io/nginx.14695981039346656037/control_interface"
    );
}
