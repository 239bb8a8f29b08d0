//! A manifest should not carry an empty dependency block.

use vstd::prelude::*;
use crate::rules::{Issue, IssueLevel};

verus! {

/// Which of a manifest's four dependency maps a finding is about.
#[derive(Debug, Clone, Copy, PartialEq, Eq, Structural)]
pub enum DependencyKind {
    Dependencies,
    DevDependencies,
    PeerDependencies,
    OptionalDependencies,
}

impl DependencyKind {
    /// The manifest key of this dependency map.
    pub open spec fn spec_as_str(&self) -> Seq<char> {
        match self {
            DependencyKind::Dependencies => "dependencies"@,
            DependencyKind::DevDependencies => "devDependencies"@,
            DependencyKind::PeerDependencies => "peerDependencies"@,
            DependencyKind::OptionalDependencies => "optionalDependencies"@,
        }
    }

    /// The manifest key of this dependency map.
    pub fn as_str(&self) -> (r: &'static str)
        ensures
            r@ == self.spec_as_str(),
    {
        match self {
            DependencyKind::Dependencies => "dependencies",
            DependencyKind::DevDependencies => "devDependencies",
            DependencyKind::PeerDependencies => "peerDependencies",
            DependencyKind::OptionalDependencies => "optionalDependencies",
        }
    }
}

/// A manifest declares one of its dependency maps as an empty object.
pub struct EmptyDependenciesIssue {
    pub dependency_kind: DependencyKind,
    pub fixed: bool,
}

impl EmptyDependenciesIssue {
    /// A freshly reported finding about the given dependency map.
    pub fn new(dependency_kind: DependencyKind) -> (r: EmptyDependenciesIssue)
        ensures
            r.dependency_kind == dependency_kind,
            !r.fixed,
    {
        EmptyDependenciesIssue { dependency_kind, fixed: false }
    }
}

impl Issue for EmptyDependenciesIssue {
    open spec fn spec_name(&self) -> Seq<char> {
        "empty-dependencies"@
    }

    open spec fn spec_level(&self) -> IssueLevel {
        if self.fixed {
            IssueLevel::Fixed
        } else {
            IssueLevel::Error
        }
    }

    open spec fn spec_message(&self) -> Seq<char> {
        "  │ {\n  -   \""@ + self.dependency_kind.spec_as_str()
            + "\": {}   ← field is empty.\n  │ }"@
    }

    open spec fn spec_why(&self) -> Seq<char> {
        "package.json should not have empty dependencies fields."@
    }

    fn name(&self) -> (r: &'static str) {
        "empty-dependencies"
    }

    fn level(&self) -> (r: IssueLevel) {
        if self.fixed {
            IssueLevel::Fixed
        } else {
            IssueLevel::Error
        }
    }

    fn message(&self) -> (r: String) {
        let mut s = String::from_str("  │ {\n  -   \"");
        s.append(self.dependency_kind.as_str());
        s.append("\": {}   ← field is empty.\n  │ }");
        s
    }

    fn why(&self) -> (r: String) {
        String::from_str("package.json should not have empty dependencies fields.")
    }
}

} // verus!
