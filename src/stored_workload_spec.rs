//! A workload as stored in the desired state, keyed by its name.
use vstd::prelude::*;

use crate::keyed::clone_string_pairs;
use crate::objects::{
    clone_add_dependencies, clone_files, clone_tags, config_digest, AddCondition,
    ControlInterfaceAccess, File, RestartPolicy, Tag, WorkloadInstanceName, WorkloadSpec,
    WorkloadSpecView,
};

verus! {

/// Config aliases and the config keys they refer to may hold only these characters.
pub const STR_RE_CONFIG_REFERENCES: &'static str = "^[a-zA-Z0-9_-]*$";

#[derive(Debug, PartialEq, Eq)]
pub struct StoredWorkloadSpec {
    pub agent: String,
    pub tags: Vec<Tag>,
    pub dependencies: Vec<(String, AddCondition)>,
    pub restart_policy: RestartPolicy,
    pub runtime: String,
    pub runtime_config: String,
    pub control_interface_access: ControlInterfaceAccess,
    pub configs: Vec<(String, String)>,
    pub files: Vec<File>,
}

/// A stored workload spec as plain values.
pub struct StoredWorkloadSpecView {
    pub agent: String,
    pub tags: Seq<Tag>,
    pub dependencies: Seq<(String, AddCondition)>,
    pub restart_policy: RestartPolicy,
    pub runtime: String,
    pub runtime_config: String,
    pub control_interface_access: (Seq<String>, Seq<String>),
    pub configs: Seq<(String, String)>,
    pub files: Seq<File>,
}

impl View for StoredWorkloadSpec {
    type V = StoredWorkloadSpecView;

    open spec fn view(&self) -> StoredWorkloadSpecView {
        StoredWorkloadSpecView {
            agent: self.agent,
            tags: self.tags@,
            dependencies: self.dependencies@,
            restart_policy: self.restart_policy,
            runtime: self.runtime,
            runtime_config: self.runtime_config,
            control_interface_access: self.control_interface_access@,
            configs: self.configs@,
            files: self.files@,
        }
    }
}

impl Clone for StoredWorkloadSpec {
    fn clone(&self) -> (r: Self)
        ensures
            r@ == self@,
    {
        StoredWorkloadSpec {
            agent: self.agent.clone(),
            tags: clone_tags(&self.tags),
            dependencies: clone_add_dependencies(&self.dependencies),
            restart_policy: self.restart_policy,
            runtime: self.runtime.clone(),
            runtime_config: self.runtime_config.clone(),
            control_interface_access: self.control_interface_access.clone(),
            configs: clone_string_pairs(&self.configs),
            files: clone_files(&self.files),
        }
    }
}

/// A character allowed in a config alias or config key.
pub open spec fn is_reference_char(c: char) -> bool {
    ('a' <= c && c <= 'z') || ('A' <= c && c <= 'Z') || ('0' <= c && c <= '9') || c == '_' || c
        == '-'
}

/// Every character of `s` is allowed in a config reference.
pub open spec fn is_config_reference(s: Seq<char>) -> bool {
    forall|i: int| 0 <= i < s.len() ==> is_reference_char(#[trigger] s[i])
}

/// Both the alias and the key of an entry are well formed.
pub open spec fn reference_entry_ok(e: (String, String)) -> bool {
    is_config_reference(e.0@) && is_config_reference(e.1@)
}

pub open spec fn alias_error(alias: Seq<char>) -> Seq<char> {
    "Unsupported config alias. Received '"@ + alias + "', expected to have characters in "@
        + STR_RE_CONFIG_REFERENCES@
}

pub open spec fn reference_key_error(key: Seq<char>) -> Seq<char> {
    "Unsupported config reference key. Received '"@ + key
        + "', expected to have characters in "@ + STR_RE_CONFIG_REFERENCES@
}

/// The message for an entry that is not well formed: the alias is looked at first.
pub open spec fn reference_entry_error(e: (String, String)) -> Seq<char> {
    if !is_config_reference(e.0@) {
        alias_error(e.0@)
    } else {
        reference_key_error(e.1@)
    }
}

/// Relies on regex::Regex::new and Regex::is_match for the pattern `^[a-zA-Z0-9_-]*$`:
/// without multi-line mode `^` and `$` anchor at the two ends of the haystack, so the
/// haystack matches exactly when each of its characters is in the class.
#[verifier::external_body]
fn matches_reference_pattern(s: &str) -> (r: bool)
    ensures
        r == is_config_reference(s@),
{
    regex::Regex::new(STR_RE_CONFIG_REFERENCES).unwrap().is_match(s)
}

fn reference_message(prefix: &str, received: &str) -> (r: String)
    ensures
        r@ == prefix@ + received@ + "', expected to have characters in "@
            + STR_RE_CONFIG_REFERENCES@,
{
    let mut msg = String::from_str(prefix);
    msg.append(received);
    msg.append("', expected to have characters in ");
    msg.append(STR_RE_CONFIG_REFERENCES);
    msg
}

impl StoredWorkloadSpec {
    /// Checks every alias and referenced key; the first entry that fails gives the error.
    pub fn verify_config_reference_format(config_references: &Vec<(String, String)>) -> (r: Result<
        (),
        String,
    >)
        ensures
            r is Ok <==> forall|i: int|
                0 <= i < config_references@.len() ==> reference_entry_ok(
                    #[trigger] config_references@[i],
                ),
            r matches Err(msg) ==> exists|k: int|
                0 <= k < config_references@.len() && !reference_entry_ok(config_references@[k])
                    && (forall|j: int| 0 <= j < k ==> reference_entry_ok(config_references@[j]))
                    && msg@ == reference_entry_error(config_references@[k]),
    {
        let mut i: usize = 0;
        while i < config_references.len()
            invariant
                i <= config_references@.len(),
                forall|j: int| 0 <= j < i ==> reference_entry_ok(config_references@[j]),
            decreases config_references@.len() - i,
        {
            let alias = config_references[i].0.as_str();
            let key = config_references[i].1.as_str();
            if !matches_reference_pattern(alias) {
                return Err(reference_message("Unsupported config alias. Received '", alias));
            }
            if !matches_reference_pattern(key) {
                return Err(
                    reference_message("Unsupported config reference key. Received '", key),
                );
            }
            i = i + 1;
        }
        Ok(())
    }
}

/// The workload spec that a stored workload named `name` becomes.
pub open spec fn workload_spec_of(name: String, s: StoredWorkloadSpecView) -> WorkloadSpecView {
    WorkloadSpecView {
        instance_name: WorkloadInstanceName {
            workload_name: name,
            agent_name: s.agent,
            config_hash: config_digest(s.runtime_config@),
        },
        tags: s.tags,
        dependencies: s.dependencies,
        restart_policy: s.restart_policy,
        runtime: s.runtime,
        runtime_config: s.runtime_config,
        files: s.files,
        control_interface_access: s.control_interface_access,
    }
}

/// Builds the workload spec of the stored workload `spec` named `name`.
pub fn to_workload_spec(name: &String, spec: &StoredWorkloadSpec) -> (r: WorkloadSpec)
    ensures
        r@ == workload_spec_of(*name, spec@),
{
    WorkloadSpec {
        instance_name: WorkloadInstanceName::new(
            name.clone(),
            spec.agent.clone(),
            spec.runtime_config.as_str(),
        ),
        tags: clone_tags(&spec.tags),
        dependencies: clone_add_dependencies(&spec.dependencies),
        restart_policy: spec.restart_policy,
        runtime: spec.runtime.clone(),
        runtime_config: spec.runtime_config.clone(),
        files: clone_files(&spec.files),
        control_interface_access: spec.control_interface_access.clone(),
    }
}

/// The stored form of a workload spec; it carries no config references.
pub fn from_workload_spec(value: WorkloadSpec) -> (r: StoredWorkloadSpec)
    ensures
        r.agent == value.instance_name.agent_name,
        r.tags@ == value.tags@,
        r.dependencies@ == value.dependencies@,
        r.restart_policy == value.restart_policy,
        r.runtime == value.runtime,
        r.runtime_config == value.runtime_config,
        r.control_interface_access@ == value.control_interface_access@,
        r.configs@.len() == 0,
        r.files@ == value.files@,
{
    StoredWorkloadSpec {
        runtime: value.runtime,
        agent: value.instance_name.agent_name,
        restart_policy: value.restart_policy,
        dependencies: value.dependencies,
        tags: value.tags,
        runtime_config: value.runtime_config,
        control_interface_access: value.control_interface_access,
        configs: Vec::new(),
        files: value.files,
    }
}

/// What a generated test spec holds besides its files: the given agent, runtime and
/// runtime configuration, two dependencies, one tag and two config references.
pub open spec fn is_generated_test_spec(
    r: StoredWorkloadSpecView,
    agent: Seq<char>,
    runtime_name: Seq<char>,
    runtime_config: Seq<char>,
) -> bool {
    &&& r.agent@ == agent
    &&& r.runtime@ == runtime_name
    &&& r.runtime_config@ == runtime_config
    &&& r.dependencies.len() == 2
    &&& r.dependencies[0].0@ == "workload_A"@
    &&& r.dependencies[0].1 == AddCondition::AddCondRunning
    &&& r.dependencies[1].0@ == "workload_C"@
    &&& r.dependencies[1].1 == AddCondition::AddCondSucceeded
    &&& r.restart_policy == RestartPolicy::Always
    &&& r.tags.len() == 1
    &&& r.tags[0].key@ == "key"@
    &&& r.tags[0].value@ == "value"@
    &&& r.control_interface_access == (Seq::<String>::empty(), Seq::<String>::empty())
    &&& r.configs.len() == 2
    &&& r.configs[0].0@ == "ref1"@
    &&& r.configs[0].1@ == "config_1"@
    &&& r.configs[1].0@ == "ref2"@
    &&& r.configs[1].1@ == "config_2"@
}

/// A stored spec with fixed dependencies, tags and config references, for the given
/// agent, runtime and runtime configuration, and no files.
pub fn generate_test_stored_workload_spec_with_config(
    agent: &str,
    runtime_name: &str,
    runtime_config: &str,
) -> (r: StoredWorkloadSpec)
    ensures
        is_generated_test_spec(r@, agent@, runtime_name@, runtime_config@),
        r.files@.len() == 0,
{
    let mut dependencies: Vec<(String, AddCondition)> = Vec::new();
    dependencies.push((String::from_str("workload_A"), AddCondition::AddCondRunning));
    dependencies.push((String::from_str("workload_C"), AddCondition::AddCondSucceeded));
    let mut tags: Vec<Tag> = Vec::new();
    tags.push(Tag { key: String::from_str("key"), value: String::from_str("value") });
    let mut configs: Vec<(String, String)> = Vec::new();
    configs.push((String::from_str("ref1"), String::from_str("config_1")));
    configs.push((String::from_str("ref2"), String::from_str("config_2")));
    StoredWorkloadSpec {
        agent: String::from_str(agent),
        dependencies,
        restart_policy: RestartPolicy::Always,
        runtime: String::from_str(runtime_name),
        tags,
        runtime_config: String::from_str(runtime_config),
        control_interface_access: ControlInterfaceAccess::new_empty(),
        configs,
        files: Vec::new(),
    }
}

/// The runtime configuration that `generate_test_stored_workload_spec` uses.
pub const TEST_RUNTIME_CONFIG: &'static str = "generalOptions: [\"--version\"]\ncommandOptions: [\"--network=host\"]\nimage: alpine:latest\ncommandArgs: [\"bash\"]\n";

/// A generated test spec with a fixed container runtime configuration, and `files`.
pub fn generate_test_stored_workload_spec_with_files(
    agent: &str,
    runtime_name: &str,
    files: Vec<File>,
) -> (r: StoredWorkloadSpec)
    ensures
        is_generated_test_spec(r@, agent@, runtime_name@, TEST_RUNTIME_CONFIG@),
        r.files@ == files@,
{
    let mut stored_spec = generate_test_stored_workload_spec(agent, runtime_name);
    stored_spec.files = files;
    stored_spec
}

/// A generated test spec with a fixed container runtime configuration and no files.
pub fn generate_test_stored_workload_spec(agent: &str, runtime_name: &str) -> (r: StoredWorkloadSpec)
    ensures
        is_generated_test_spec(r@, agent@, runtime_name@, TEST_RUNTIME_CONFIG@),
        r.files@.len() == 0,
{
    generate_test_stored_workload_spec_with_config(agent, runtime_name, TEST_RUNTIME_CONFIG)
}

} // verus!
