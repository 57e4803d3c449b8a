//! Field masks: dot-separated paths into the complete state.
use vstd::prelude::*;
use vstd::string::StrSliceExecFns;

use crate::keyed::str_eq;

verus! {

/// What a field mask addresses.
#[derive(Debug, PartialEq, Eq)]
pub enum FieldPath {
    DesiredState,
    ApiVersion,
    Workloads,
    Workload(String),
    Configs,
    Config(String),
    WorkloadStates,
}

/// What a field mask addresses, as plain values.
pub enum PathView {
    DesiredState,
    ApiVersion,
    Workloads,
    Workload(Seq<char>),
    Configs,
    Config(Seq<char>),
    WorkloadStates,
}

impl View for FieldPath {
    type V = PathView;

    open spec fn view(&self) -> PathView {
        match self {
            FieldPath::DesiredState => PathView::DesiredState,
            FieldPath::ApiVersion => PathView::ApiVersion,
            FieldPath::Workloads => PathView::Workloads,
            FieldPath::Workload(n) => PathView::Workload(n@),
            FieldPath::Configs => PathView::Configs,
            FieldPath::Config(n) => PathView::Config(n@),
            FieldPath::WorkloadStates => PathView::WorkloadStates,
        }
    }
}

/// `p` is the start of `s`.
pub open spec fn starts_with(s: Seq<char>, p: Seq<char>) -> bool {
    p.len() <= s.len() && s.subrange(0, p.len() as int) == p
}

/// A single path segment: not empty, no dot.
pub open spec fn is_segment(s: Seq<char>) -> bool {
    s.len() > 0 && forall|i: int| 0 <= i < s.len() ==> s[i] != '.'
}

/// The entry of a keyed subtree that `m` names below `prefix`, if it does.
pub open spec fn entry_below(m: Seq<char>, prefix: Seq<char>) -> Option<Seq<char>> {
    if starts_with(m, prefix) && is_segment(m.subrange(prefix.len() as int, m.len() as int)) {
        Some(m.subrange(prefix.len() as int, m.len() as int))
    } else {
        None
    }
}

/// The subtree that the mask `m` addresses, or none when it addresses nothing known.
pub open spec fn path_of(m: Seq<char>) -> Option<PathView> {
    if m == "desiredState"@ {
        Some(PathView::DesiredState)
    } else if m == "desiredState.apiVersion"@ {
        Some(PathView::ApiVersion)
    } else if m == "desiredState.workloads"@ {
        Some(PathView::Workloads)
    } else if m == "desiredState.configs"@ {
        Some(PathView::Configs)
    } else if m == "workloadStates"@ {
        Some(PathView::WorkloadStates)
    } else if entry_below(m, "desiredState.workloads."@) is Some {
        Some(PathView::Workload(entry_below(m, "desiredState.workloads."@)->0))
    } else if entry_below(m, "desiredState.configs."@) is Some {
        Some(PathView::Config(entry_below(m, "desiredState.configs."@)->0))
    } else {
        None
    }
}

/// The rest of `s` after `prefix`, when `s` starts with it.
pub fn strip_prefix<'a>(s: &'a str, prefix: &str) -> (r: Option<&'a str>)
    ensures
        match r {
            Some(rest) => starts_with(s@, prefix@) && rest@ == s@.subrange(
                prefix@.len() as int,
                s@.len() as int,
            ),
            None => !starts_with(s@, prefix@),
        },
{
    let n = s.unicode_len();
    let p = prefix.unicode_len();
    if p > n {
        return None;
    }
    let mut i: usize = 0;
    while i < p
        invariant
            n == s@.len(),
            p == prefix@.len(),
            p <= n,
            i <= p,
            forall|j: int| 0 <= j < i ==> s@[j] == prefix@[j],
        decreases p - i,
    {
        if s.get_char(i) != prefix.get_char(i) {
            proof {
                assert(s@.subrange(0, p as int)[i as int] != prefix@[i as int]);
            }
            return None;
        }
        i = i + 1;
    }
    assert(s@.subrange(0, p as int) =~= prefix@);
    Some(s.substring_char(p, n))
}

/// The string is one path segment.
fn check_segment(s: &str) -> (r: bool)
    ensures
        r == is_segment(s@),
{
    let n = s.unicode_len();
    if n == 0 {
        return false;
    }
    let mut i: usize = 0;
    while i < n
        invariant
            n == s@.len(),
            i <= n,
            forall|j: int| 0 <= j < i ==> s@[j] != '.',
        decreases n - i,
    {
        if s.get_char(i) == '.' {
            return false;
        }
        i = i + 1;
    }
    true
}

/// The entry named below `prefix` in `m`, if `m` names one.
fn parse_entry(m: &str, prefix: &str) -> (r: Option<String>)
    ensures
        match r {
            Some(n) => entry_below(m@, prefix@) == Some(n@),
            None => entry_below(m@, prefix@) is None,
        },
{
    match strip_prefix(m, prefix) {
        Some(rest) => {
            if check_segment(rest) {
                Some(String::from_str(rest))
            } else {
                None
            }
        },
        None => None,
    }
}

/// Reads a field mask.
pub fn parse_field_mask(mask: &str) -> (r: Option<FieldPath>)
    ensures
        match r {
            Some(p) => path_of(mask@) == Some(p@),
            None => path_of(mask@) is None,
        },
{
    if str_eq(mask, "desiredState") {
        Some(FieldPath::DesiredState)
    } else if str_eq(mask, "desiredState.apiVersion") {
        Some(FieldPath::ApiVersion)
    } else if str_eq(mask, "desiredState.workloads") {
        Some(FieldPath::Workloads)
    } else if str_eq(mask, "desiredState.configs") {
        Some(FieldPath::Configs)
    } else if str_eq(mask, "workloadStates") {
        Some(FieldPath::WorkloadStates)
    } else {
        match parse_entry(mask, "desiredState.workloads.") {
            Some(n) => Some(FieldPath::Workload(n)),
            None => match parse_entry(mask, "desiredState.configs.") {
                Some(n) => Some(FieldPath::Config(n)),
                None => None,
            },
        }
    }
}

} // verus!
