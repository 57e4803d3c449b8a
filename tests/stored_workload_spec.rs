use ankaios::objects::{AddCondition, File, FileContent, RestartPolicy};
use ankaios::stored_workload_spec::{
    generate_test_stored_workload_spec, generate_test_stored_workload_spec_with_config,
    generate_test_stored_workload_spec_with_files, from_workload_spec, to_workload_spec, StoredWorkloadSpec,
    STR_RE_CONFIG_REFERENCES, TEST_RUNTIME_CONFIG,
};

#[test]
fn utest_verify_config_reference_format_invalid_config_reference_key() {
    let invalid_config_reference_key = "invalid%key";
    let mut configs = Vec::new();
    configs.push((
        "config_alias_1".to_owned(),
        invalid_config_reference_key.to_owned(),
    ));
    assert_eq!(
        StoredWorkloadSpec::verify_config_reference_format(&configs),
        Err(format!(
            "Unsupported config reference key. Received '{}', expected to have characters in {}",
            invalid_config_reference_key, STR_RE_CONFIG_REFERENCES
        ))
    );
}

#[test]
fn verify_config_reference_format_invalid_alias() {
    let configs = vec![
        ("ok_alias".to_owned(), "ok-key".to_owned()),
        ("bad alias".to_owned(), "bad%key".to_owned()),
    ];
    assert_eq!(
        StoredWorkloadSpec::verify_config_reference_format(&configs),
        Err(format!(
            "Unsupported config alias. Received 'bad alias', expected to have characters in {}",
            STR_RE_CONFIG_REFERENCES
        ))
    );
}

#[test]
fn verify_config_reference_format_accepts_valid_and_empty() {
    let configs = vec![
        ("ref_1".to_owned(), "Config-2".to_owned()),
        ("".to_owned(), "".to_owned()),
    ];
    assert_eq!(StoredWorkloadSpec::verify_config_reference_format(&configs), Ok(()));
    assert_eq!(StoredWorkloadSpec::verify_config_reference_format(&Vec::new()), Ok(()));
}

#[test]
fn generated_test_specs() {
    let spec = generate_test_stored_workload_spec_with_config("agent_A", "podman", "image: x");
    assert_eq!(spec.agent, "agent_A");
    assert_eq!(spec.runtime, "podman");
    assert_eq!(spec.runtime_config, "image: x");
    assert_eq!(
        spec.dependencies,
        vec![
            ("workload_A".to_string(), AddCondition::AddCondRunning),
            ("workload_C".to_string(), AddCondition::AddCondSucceeded)
        ]
    );
    assert_eq!(spec.restart_policy, RestartPolicy::Always);
    assert_eq!(spec.tags.len(), 1);
    assert_eq!(spec.tags[0].key, "key");
    assert_eq!(
        spec.configs,
        vec![
            ("ref1".to_string(), "config_1".to_string()),
            ("ref2".to_string(), "config_2".to_string())
        ]
    );
    assert!(spec.files.is_empty());

    let plain = generate_test_stored_workload_spec("agent_B", "runtime");
    assert_eq!(plain.runtime_config, TEST_RUNTIME_CONFIG);
    assert_eq!(plain.agent, "agent_B");

    let file = File {
        mount_point: "/etc/conf".to_string(),
        file_content: FileContent::Data("x=1".to_string()),
    };
    let with_files = generate_test_stored_workload_spec_with_files("agent_C", "runtime", vec![file.clone()]);
    assert_eq!(with_files.files, vec![file]);
    assert_eq!(with_files.runtime_config, TEST_RUNTIME_CONFIG);
}

#[test]
fn workload_spec_from_stored_spec() {
    let stored = generate_test_stored_workload_spec_with_config("agent_A", "podman", "a");
    let spec = to_workload_spec(&"w1".to_string(), &stored);
    assert_eq!(spec.instance_name.workload_name, "w1");
    assert_eq!(spec.instance_name.agent_name, "agent_A");
    assert_eq!(spec.instance_name.config_hash, 0xaf63dc4c8601ec8c);
    assert_eq!(spec.runtime_config, "a");
    assert_eq!(spec.dependencies, stored.dependencies);
}

#[test]
fn stored_spec_from_workload_spec() {
    let stored = generate_test_stored_workload_spec_with_config("agent_A", "podman", "cfg");
    let spec = to_workload_spec(&"w1".to_string(), &stored);
    let back = from_workload_spec(spec);
    assert_eq!(back.agent, "agent_A");
    assert_eq!(back.runtime_config, "cfg");
    assert_eq!(back.dependencies, stored.dependencies);
    assert!(back.configs.is_empty());
}
