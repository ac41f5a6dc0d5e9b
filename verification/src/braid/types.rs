//! The braid value types that the verified logic works on.
use vstd::prelude::*;

use crate::text::{chars_eq, chars_of};

verus! {

/// The per-strand de-duplication strategy.
#[derive(Debug, Clone, Copy, PartialEq, Eq, Structural)]
pub enum PolicyKind {
    /// Keep every occurrence.
    Merge,
    /// A later strand evicts the overlapping selections of earlier strands.
    PreferNewer,
    /// A later strand drops its own selections that overlap earlier ones.
    ExcludeOverlap,
}

/// The wire name of a policy.
pub open spec fn policy_text(p: PolicyKind) -> Seq<char> {
    match p {
        PolicyKind::Merge => "merge"@,
        PolicyKind::PreferNewer => "prefer-newer"@,
        PolicyKind::ExcludeOverlap => "exclude-overlap"@,
    }
}

/// The policy whose wire name is `s`, if any.
pub open spec fn policy_from_text(s: Seq<char>) -> Option<PolicyKind> {
    if s == "merge"@ {
        Some(PolicyKind::Merge)
    } else if s == "prefer-newer"@ {
        Some(PolicyKind::PreferNewer)
    } else if s == "exclude-overlap"@ {
        Some(PolicyKind::ExcludeOverlap)
    } else {
        None
    }
}

impl PolicyKind {
    /// The kebab-case wire name.
    pub fn as_str(self) -> (r: &'static str)
        ensures
            r@ == policy_text(self),
    {
        match self {
            PolicyKind::Merge => "merge",
            PolicyKind::PreferNewer => "prefer-newer",
            PolicyKind::ExcludeOverlap => "exclude-overlap",
        }
    }

    /// Parses a kebab-case wire name; anything else is `None`.
    pub fn from_str_opt(s: &str) -> (r: Option<PolicyKind>)
        ensures
            r == policy_from_text(s@),
    {
        let v = chars_of(s);
        if chars_eq(&v, &chars_of("merge")) {
            Some(PolicyKind::Merge)
        } else if chars_eq(&v, &chars_of("prefer-newer")) {
            Some(PolicyKind::PreferNewer)
        } else if chars_eq(&v, &chars_of("exclude-overlap")) {
            Some(PolicyKind::ExcludeOverlap)
        } else {
            None
        }
    }
}

impl Default for PolicyKind {
    fn default() -> (r: PolicyKind)
        ensures
            r == PolicyKind::Merge,
    {
        PolicyKind::Merge
    }
}

/// A policy that may be left unset; unset reads as `merge`.
#[derive(Debug, Clone, Copy, PartialEq, Eq, Structural)]
pub struct PolicyKindOrEmpty(pub Option<PolicyKind>);

impl PolicyKindOrEmpty {
    /// The policy, with `merge` standing in for an unset one.
    pub open spec fn unwrap_or_merge_spec(self) -> PolicyKind {
        match self.0 {
            Some(p) => p,
            None => PolicyKind::Merge,
        }
    }

    /// The policy, with `merge` standing in for an unset one.
    pub fn unwrap_or_merge(self) -> (r: PolicyKind)
        ensures
            r == (match self.0 {
                Some(p) => p,
                None => PolicyKind::Merge,
            }),
    {
        match self.0 {
            Some(p) => p,
            None => PolicyKind::Merge,
        }
    }

    /// Whether no policy was set.
    pub fn is_empty(self) -> (r: bool)
        ensures
            r == (self.0 is None),
    {
        self.0.is_none()
    }

    /// The wire name, or the empty string when unset.
    pub fn as_str(self) -> (r: &'static str)
        ensures
            r@ == (match self.0 {
                Some(p) => policy_text(p),
                None => ""@,
            }),
    {
        match self.0 {
            Some(p) => p.as_str(),
            None => "",
        }
    }
}

impl Default for PolicyKindOrEmpty {
    fn default() -> (r: PolicyKindOrEmpty)
        ensures
            r.0 is None,
    {
        PolicyKindOrEmpty(None)
    }
}

/// The paths one strand selected, in its own order.
#[derive(Debug, Clone, PartialEq)]
pub struct StrandSelection {
    pub name: String,
    pub policy: PolicyKind,
    pub paths: Vec<String>,
}

/// One file of the merged result and the strand it came from.
#[derive(Debug, Clone, PartialEq)]
pub struct MergedFile {
    pub path: String,
    pub origin: String,
}

/// Reading back the wire name of a policy gives the policy.
pub proof fn law_policy_text_round_trip(p: PolicyKind)
    ensures
        policy_from_text(policy_text(p)) == Some(p),
{
    reveal_strlit("merge");
    reveal_strlit("prefer-newer");
    reveal_strlit("exclude-overlap");
    assert("prefer-newer"@ != "merge"@) by {
        assert("prefer-newer"@.len() != "merge"@.len());
    }
    assert("exclude-overlap"@ != "merge"@) by {
        assert("exclude-overlap"@.len() != "merge"@.len());
    }
    assert("exclude-overlap"@ != "prefer-newer"@) by {
        assert("exclude-overlap"@[0] != "prefer-newer"@[0]);
    }
}

} // verus!
