//! Where a workload's control interface lives in the agent's run folder.
use vstd::prelude::*;

use crate::keyed::str_eq;
use crate::objects::{decimal_digits, WorkloadInstanceName};

verus! {

/// The subfolder of a workload's pipes folder that holds its control interface.
pub const SUBFOLDER_CONTROL_INTERFACE: &'static str = "control_interface";

/// A control interface location, held as its path text.
#[derive(Debug)]
pub struct ControlInterfacePath(String);

impl View for ControlInterfacePath {
    type V = Seq<char>;

    closed spec fn view(&self) -> Seq<char> {
        self.0@
    }
}

/// `<run folder>/<workload>.<config hash>/control_interface`.
pub open spec fn control_interface_path_of(run_folder: Seq<char>, n: WorkloadInstanceName) -> Seq<char> {
    run_folder + "/"@ + n.workload_name@ + "."@ + decimal_digits(n.config_hash as nat) + "/"@
        + SUBFOLDER_CONTROL_INTERFACE@
}

impl ControlInterfacePath {
    pub fn new(path: String) -> (r: Self)
        ensures
            r@ == path@,
    {
        ControlInterfacePath(path)
    }

    /// The control interface location of an instance below the agent's run folder.
    pub fn from_run_folder(run_folder: &str, instance: &WorkloadInstanceName) -> (r: Self)
        ensures
            r@ == control_interface_path_of(run_folder@, *instance),
    {
        let mut p = String::from_str(run_folder);
        p.append("/");
        p.append(instance.workload_name.as_str());
        p.append(".");
        let digits = crate::objects::config_hash_text(instance.config_hash);
        p.append(digits.as_str());
        p.append("/");
        p.append(SUBFOLDER_CONTROL_INTERFACE);
        ControlInterfacePath(p)
    }

    /// The path text.
    pub fn as_path(&self) -> (r: &str)
        ensures
            r@ == self@,
    {
        self.0.as_str()
    }
}

impl PartialEq for ControlInterfacePath {
    fn eq(&self, other: &ControlInterfacePath) -> (r: bool) {
        str_eq(self.0.as_str(), other.0.as_str())
    }
}

impl vstd::std_specs::cmp::PartialEqSpecImpl for ControlInterfacePath {
    open spec fn obeys_eq_spec() -> bool {
        true
    }

    open spec fn eq_spec(&self, other: &ControlInterfacePath) -> bool {
        self@ == other@
    }
}

impl PartialEq<String> for ControlInterfacePath {
    fn eq(&self, other: &String) -> (r: bool) {
        str_eq(self.0.as_str(), other.as_str())
    }
}

impl vstd::std_specs::cmp::PartialEqSpecImpl<String> for ControlInterfacePath {
    open spec fn obeys_eq_spec() -> bool {
        true
    }

    open spec fn eq_spec(&self, other: &String) -> bool {
        self@ == other@
    }
}

} // verus!
