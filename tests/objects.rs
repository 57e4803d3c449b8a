use ankaios::objects::{compute_config_hash, WorkloadInstanceName};

#[test]
fn config_hash_is_fnv1a() {
    assert_eq!(compute_config_hash(""), 0xcbf29ce484222325);
    assert_eq!(compute_config_hash("a"), 0xaf63dc4c8601ec8c);
    assert_eq!(compute_config_hash("foobar"), 0x85944171f73967e8);
}

#[test]
fn instance_string_form() {
    let n = WorkloadInstanceName::new("nginx".to_string(), "agent_A".to_string(), "a");
    assert_eq!(n.to_instance_string(), "nginx.12638187200555641996.agent_A");
    let same = WorkloadInstanceName::new("nginx".to_string(), "agent_A".to_string(), "a");
    assert!(n.same_instance(&same));
    let other = WorkloadInstanceName::new("nginx".to_string(), "agent_A".to_string(), "b");
    assert!(!n.same_instance(&other));
}
