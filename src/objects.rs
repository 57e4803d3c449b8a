//! The data model shared by the reconciler, the state database and the loop.
use vstd::prelude::*;
use vstd::string::StrSliceExecFns;
use vstd::wrapping::u64_specs::wrapping_mul;

use crate::keyed::clone_strings;

verus! {

/// Condition on a dependency that must hold before a workload is started.
#[derive(Debug, Clone, Copy, PartialEq, Eq, Structural)]
pub enum AddCondition {
    AddCondRunning,
    AddCondSucceeded,
    AddCondFailed,
}

/// Condition on a dependent workload that must hold before a workload is removed.
#[derive(Debug, Clone, Copy, PartialEq, Eq, Structural)]
pub enum DeleteCondition {
    DelCondRunning,
    DelCondNotPendingNorRunning,
}

#[derive(Debug, Clone, Copy, PartialEq, Eq, Structural)]
pub enum RestartPolicy {
    Never,
    OnFailure,
    Always,
}

#[derive(Debug, PartialEq, Eq)]
pub struct Tag {
    pub key: String,
    pub value: String,
}

impl Clone for Tag {
    fn clone(&self) -> (r: Self)
        ensures
            r == *self,
    {
        Tag { key: self.key.clone(), value: self.value.clone() }
    }
}

#[derive(Debug, PartialEq, Eq)]
pub enum FileContent {
    Data(String),
    BinaryData(String),
}

impl Clone for FileContent {
    fn clone(&self) -> (r: Self)
        ensures
            r == *self,
    {
        match self {
            FileContent::Data(d) => FileContent::Data(d.clone()),
            FileContent::BinaryData(d) => FileContent::BinaryData(d.clone()),
        }
    }
}

/// A file mounted into a workload.
#[derive(Debug, PartialEq, Eq)]
pub struct File {
    pub mount_point: String,
    pub file_content: FileContent,
}

impl Clone for File {
    fn clone(&self) -> (r: Self)
        ensures
            r == *self,
    {
        File { mount_point: self.mount_point.clone(), file_content: self.file_content.clone() }
    }
}

/// Field masks that a workload may read or write through its control interface.
#[derive(Debug, PartialEq, Eq)]
pub struct ControlInterfaceAccess {
    pub allow_rules: Vec<String>,
    pub deny_rules: Vec<String>,
}

impl View for ControlInterfaceAccess {
    type V = (Seq<String>, Seq<String>);

    open spec fn view(&self) -> (Seq<String>, Seq<String>) {
        (self.allow_rules@, self.deny_rules@)
    }
}

impl Clone for ControlInterfaceAccess {
    fn clone(&self) -> (r: Self)
        ensures
            r@ == self@,
    {
        ControlInterfaceAccess {
            allow_rules: clone_strings(&self.allow_rules),
            deny_rules: clone_strings(&self.deny_rules),
        }
    }
}

impl ControlInterfaceAccess {
    pub fn new_empty() -> (r: Self)
        ensures
            r@ == (Seq::<String>::empty(), Seq::<String>::empty()),
    {
        ControlInterfaceAccess { allow_rules: Vec::new(), deny_rules: Vec::new() }
    }
}

pub fn clone_tags(v: &Vec<Tag>) -> (r: Vec<Tag>)
    ensures
        r@ == v@,
{
    let r = v.clone();
    assert(r@ =~= v@);
    r
}

pub fn clone_files(v: &Vec<File>) -> (r: Vec<File>)
    ensures
        r@ == v@,
{
    let r = v.clone();
    assert(r@ =~= v@);
    r
}

pub fn clone_add_dependencies(m: &Vec<(String, AddCondition)>) -> (r: Vec<(String, AddCondition)>)
    ensures
        r@ == m@,
{
    let mut r: Vec<(String, AddCondition)> = Vec::new();
    let mut i: usize = 0;
    while i < m.len()
        invariant
            i <= m@.len(),
            r@ == m@.subrange(0, i as int),
        decreases m@.len() - i,
    {
        r.push((m[i].0.clone(), m[i].1));
        proof {
            assert(m@.subrange(0, i as int + 1) =~= m@.subrange(0, i as int).push(m@[i as int]));
        }
        i = i + 1;
    }
    assert(m@.subrange(0, m@.len() as int) =~= m@);
    r
}

pub fn clone_delete_dependencies(m: &Vec<(String, DeleteCondition)>) -> (r: Vec<
    (String, DeleteCondition),
>)
    ensures
        r@ == m@,
{
    let mut r: Vec<(String, DeleteCondition)> = Vec::new();
    let mut i: usize = 0;
    while i < m.len()
        invariant
            i <= m@.len(),
            r@ == m@.subrange(0, i as int),
        decreases m@.len() - i,
    {
        r.push((m[i].0.clone(), m[i].1));
        proof {
            assert(m@.subrange(0, i as int + 1) =~= m@.subrange(0, i as int).push(m@[i as int]));
        }
        i = i + 1;
    }
    assert(m@.subrange(0, m@.len() as int) =~= m@);
    r
}

pub const FNV_OFFSET_BASIS: u64 = 0xcbf29ce484222325;

pub const FNV_PRIME: u64 = 0x100000001b3;

/// The digest of a runtime configuration: 64-bit FNV-1a over its characters.
pub open spec fn config_digest(s: Seq<char>) -> u64
    decreases s.len(),
{
    if s.len() == 0 {
        FNV_OFFSET_BASIS
    } else {
        wrapping_mul(config_digest(s.drop_last()) ^ (s.last() as u32 as u64), FNV_PRIME)
    }
}

pub fn compute_config_hash(config: &str) -> (r: u64)
    ensures
        r == config_digest(config@),
{
    let n = config.unicode_len();
    let mut h: u64 = FNV_OFFSET_BASIS;
    let mut i: usize = 0;
    while i < n
        invariant
            n == config@.len(),
            i <= n,
            h == config_digest(config@.subrange(0, i as int)),
        decreases n - i,
    {
        let c = config.get_char(i);
        proof {
            let p = config@.subrange(0, i as int + 1);
            assert(p.drop_last() =~= config@.subrange(0, i as int));
            assert(p.last() == c);
        }
        h = (h ^ (c as u32 as u64)).wrapping_mul(FNV_PRIME);
        i = i + 1;
    }
    assert(config@.subrange(0, n as int) =~= config@);
    h
}

pub open spec fn digit_char(d: nat) -> char {
    if d == 0 { '0' } else if d == 1 { '1' } else if d == 2 { '2' } else if d == 3 { '3' }
    else if d == 4 { '4' } else if d == 5 { '5' } else if d == 6 { '6' } else if d == 7 { '7' }
    else if d == 8 { '8' } else { '9' }
}

/// The decimal digits of `x`, most significant first, without leading zeros.
pub open spec fn decimal_digits(x: nat) -> Seq<char>
    decreases x,
{
    if x < 10 {
        seq![digit_char(x)]
    } else {
        decimal_digits(x / 10).push(digit_char(x % 10))
    }
}

/// Relies on `ToString` through the `Display` impl of `u64`, which writes the value in
/// decimal, without sign, padding or leading zeros.
#[verifier::external_body]
fn u64_decimal(x: u64) -> (r: String)
    ensures
        r@ == decimal_digits(x as nat),
{
    x.to_string()
}

/// The configuration hash in decimal.
pub fn config_hash_text(x: u64) -> (r: String)
    ensures
        r@ == decimal_digits(x as nat),
{
    u64_decimal(x)
}

/// Identity of one workload instance: name, agent and the digest of its configuration.
#[derive(Debug, PartialEq, Eq)]
pub struct WorkloadInstanceName {
    pub workload_name: String,
    pub agent_name: String,
    pub config_hash: u64,
}

/// The identity tuple as plain values.
pub struct InstanceView {
    pub workload_name: Seq<char>,
    pub agent_name: Seq<char>,
    pub config_hash: u64,
}

impl View for WorkloadInstanceName {
    type V = InstanceView;

    open spec fn view(&self) -> InstanceView {
        InstanceView {
            workload_name: self.workload_name@,
            agent_name: self.agent_name@,
            config_hash: self.config_hash,
        }
    }
}

/// The unique text form of an instance.
pub open spec fn instance_string(n: WorkloadInstanceName) -> Seq<char> {
    n.workload_name@ + "."@ + decimal_digits(n.config_hash as nat) + "."@ + n.agent_name@
}

impl Clone for WorkloadInstanceName {
    fn clone(&self) -> (r: Self)
        ensures
            r == *self,
    {
        WorkloadInstanceName {
            workload_name: self.workload_name.clone(),
            agent_name: self.agent_name.clone(),
            config_hash: self.config_hash,
        }
    }
}

impl WorkloadInstanceName {
    /// The instance of workload `workload_name` on `agent_name` running `runtime_config`.
    pub fn new(workload_name: String, agent_name: String, runtime_config: &str) -> (r: Self)
        ensures
            r.workload_name == workload_name,
            r.agent_name == agent_name,
            r.config_hash == config_digest(runtime_config@),
    {
        let config_hash = compute_config_hash(runtime_config);
        WorkloadInstanceName { workload_name, agent_name, config_hash }
    }

    /// The instance as text: `<workload>.<config hash>.<agent>`.
    pub fn to_instance_string(&self) -> (r: String)
        ensures
            r@ == instance_string(*self),
    {
        let mut r = self.workload_name.clone();
        r.append(".");
        let digits = u64_decimal(self.config_hash);
        r.append(digits.as_str());
        r.append(".");
        r.append(self.agent_name.as_str());
        r
    }

    /// Identity comparison over the full tuple.
    pub fn same_instance(&self, other: &WorkloadInstanceName) -> (r: bool)
        ensures
            r == (self@ == other@),
    {
        crate::keyed::str_eq(self.workload_name.as_str(), other.workload_name.as_str())
            && crate::keyed::str_eq(self.agent_name.as_str(), other.agent_name.as_str())
            && self.config_hash == other.config_hash
    }
}

/// A workload as sent to an agent.
#[derive(Debug, PartialEq, Eq)]
pub struct WorkloadSpec {
    pub instance_name: WorkloadInstanceName,
    pub tags: Vec<Tag>,
    pub dependencies: Vec<(String, AddCondition)>,
    pub restart_policy: RestartPolicy,
    pub runtime: String,
    pub runtime_config: String,
    pub files: Vec<File>,
    pub control_interface_access: ControlInterfaceAccess,
}

/// A workload spec as plain values.
pub struct WorkloadSpecView {
    pub instance_name: WorkloadInstanceName,
    pub tags: Seq<Tag>,
    pub dependencies: Seq<(String, AddCondition)>,
    pub restart_policy: RestartPolicy,
    pub runtime: String,
    pub runtime_config: String,
    pub files: Seq<File>,
    pub control_interface_access: (Seq<String>, Seq<String>),
}

impl View for WorkloadSpec {
    type V = WorkloadSpecView;

    open spec fn view(&self) -> WorkloadSpecView {
        WorkloadSpecView {
            instance_name: self.instance_name,
            tags: self.tags@,
            dependencies: self.dependencies@,
            restart_policy: self.restart_policy,
            runtime: self.runtime,
            runtime_config: self.runtime_config,
            files: self.files@,
            control_interface_access: self.control_interface_access@,
        }
    }
}

impl Clone for WorkloadSpec {
    fn clone(&self) -> (r: Self)
        ensures
            r@ == self@,
    {
        WorkloadSpec {
            instance_name: self.instance_name.clone(),
            tags: clone_tags(&self.tags),
            dependencies: clone_add_dependencies(&self.dependencies),
            restart_policy: self.restart_policy,
            runtime: self.runtime.clone(),
            runtime_config: self.runtime_config.clone(),
            files: clone_files(&self.files),
            control_interface_access: self.control_interface_access.clone(),
        }
    }
}

/// A workload to be removed, with the conditions its dependents put on the removal.
#[derive(Debug, PartialEq, Eq)]
pub struct DeletedWorkload {
    pub instance_name: WorkloadInstanceName,
    pub dependencies: Vec<(String, DeleteCondition)>,
}

impl View for DeletedWorkload {
    type V = (WorkloadInstanceName, Seq<(String, DeleteCondition)>);

    open spec fn view(&self) -> (WorkloadInstanceName, Seq<(String, DeleteCondition)>) {
        (self.instance_name, self.dependencies@)
    }
}

impl Clone for DeletedWorkload {
    fn clone(&self) -> (r: Self)
        ensures
            r@ == self@,
    {
        DeletedWorkload {
            instance_name: self.instance_name.clone(),
            dependencies: clone_delete_dependencies(&self.dependencies),
        }
    }
}

#[derive(Debug, Clone, Copy, PartialEq, Eq, Structural)]
pub enum PendingSubstate {
    Initial,
    WaitingToStart,
    Starting,
    StartingFailed,
}

#[derive(Debug, Clone, Copy, PartialEq, Eq, Structural)]
pub enum ExecutionStateEnum {
    Pending(PendingSubstate),
    Running,
    Succeeded,
    Failed,
    Stopping,
    Removed,
    AgentDisconnected,
}

/// Observed state of one instance, with free text from the agent.
#[derive(Debug, PartialEq, Eq)]
pub struct ExecutionState {
    pub state: ExecutionStateEnum,
    pub additional_info: String,
}

impl Clone for ExecutionState {
    fn clone(&self) -> (r: Self)
        ensures
            r == *self,
    {
        ExecutionState { state: self.state, additional_info: self.additional_info.clone() }
    }
}

impl ExecutionState {
    pub fn initial() -> (r: Self)
        ensures
            r.state == ExecutionStateEnum::Pending(PendingSubstate::Initial),
            r.additional_info@.len() == 0,
    {
        ExecutionState {
            state: ExecutionStateEnum::Pending(PendingSubstate::Initial),
            additional_info: String::new(),
        }
    }

    pub fn agent_disconnected() -> (r: Self)
        ensures
            r.state == ExecutionStateEnum::AgentDisconnected,
            r.additional_info@.len() == 0,
    {
        ExecutionState { state: ExecutionStateEnum::AgentDisconnected, additional_info: String::new() }
    }

    pub fn running() -> (r: Self)
        ensures
            r.state == ExecutionStateEnum::Running,
            r.additional_info@.len() == 0,
    {
        ExecutionState { state: ExecutionStateEnum::Running, additional_info: String::new() }
    }

    pub fn succeeded() -> (r: Self)
        ensures
            r.state == ExecutionStateEnum::Succeeded,
            r.additional_info@.len() == 0,
    {
        ExecutionState { state: ExecutionStateEnum::Succeeded, additional_info: String::new() }
    }
}

/// One state report: an instance and what was observed of it.
#[derive(Debug, PartialEq, Eq)]
pub struct WorkloadState {
    pub instance_name: WorkloadInstanceName,
    pub execution_state: ExecutionState,
}

impl Clone for WorkloadState {
    fn clone(&self) -> (r: Self)
        ensures
            r == *self,
    {
        WorkloadState {
            instance_name: self.instance_name.clone(),
            execution_state: self.execution_state.clone(),
        }
    }
}

pub fn clone_workload_states(v: &Vec<WorkloadState>) -> (r: Vec<WorkloadState>)
    ensures
        r@ == v@,
{
    let r = v.clone();
    assert(r@ =~= v@);
    r
}

/// The views of a list of workload specs.
pub open spec fn specs_view(v: Seq<WorkloadSpec>) -> Seq<WorkloadSpecView> {
    v.map_values(|w: WorkloadSpec| w@)
}

/// The views of a list of deleted workloads.
pub open spec fn deleted_view(v: Seq<DeletedWorkload>) -> Seq<
    (WorkloadInstanceName, Seq<(String, DeleteCondition)>),
> {
    v.map_values(|w: DeletedWorkload| w@)
}

} // verus!
