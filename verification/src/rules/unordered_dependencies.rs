//! Dependency keys should come alphabetically ordered.

use vstd::prelude::*;
use crate::rules::{Issue, IssueLevel};
use crate::rules::empty_dependencies::DependencyKind;

verus! {

/// A manifest's dependency map is not sorted by its keys.
pub struct UnorderedDependenciesIssue {
    pub dependency_kind: DependencyKind,
    pub fixed: bool,
}

impl UnorderedDependenciesIssue {
    /// A freshly reported finding about the given dependency map.
    pub fn new(dependency_kind: DependencyKind) -> (r: UnorderedDependenciesIssue)
        ensures
            r.dependency_kind == dependency_kind,
            !r.fixed,
    {
        UnorderedDependenciesIssue { dependency_kind, fixed: false }
    }
}

impl Issue for UnorderedDependenciesIssue {
    open spec fn spec_name(&self) -> Seq<char> {
        "unordered-dependencies"@
    }

    open spec fn spec_level(&self) -> IssueLevel {
        if self.fixed {
            IssueLevel::Fixed
        } else {
            IssueLevel::Error
        }
    }

    open spec fn spec_message(&self) -> Seq<char> {
        "  │ {\n  -   \""@ + self.dependency_kind.spec_as_str()
            + "\": {   ← keys aren't sorted.\n  -     ...\n  -   }\n  │ }"@
    }

    open spec fn spec_why(&self) -> Seq<char> {
        self.dependency_kind.spec_as_str() + " should be ordered alphabetically."@
    }

    fn name(&self) -> (r: &'static str) {
        "unordered-dependencies"
    }

    fn level(&self) -> (r: IssueLevel) {
        if self.fixed {
            IssueLevel::Fixed
        } else {
            IssueLevel::Error
        }
    }

    fn message(&self) -> (r: String) {
        let mut s = String::from_str("  │ {\n  -   \"");
        s.append(self.dependency_kind.as_str());
        s.append("\": {   ← keys aren't sorted.\n  -     ...\n  -   }\n  │ }");
        s
    }

    fn why(&self) -> (r: String) {
        let mut s = String::new();
        s.append(self.dependency_kind.as_str());
        s.append(" should be ordered alphabetically.");
        s
    }
}

} // verus!
