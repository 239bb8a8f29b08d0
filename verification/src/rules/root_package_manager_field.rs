//! The root manifest should pin a package manager.

use vstd::prelude::*;
use crate::rules::{Issue, IssueLevel};

verus! {

/// The root manifest has no `packageManager` field.
pub struct RootPackageManagerFieldIssue {
    pub fixed: bool,
}

impl RootPackageManagerFieldIssue {
    /// A freshly reported finding.
    pub fn new() -> (r: RootPackageManagerFieldIssue)
        ensures
            !r.fixed,
    {
        RootPackageManagerFieldIssue { fixed: false }
    }
}

impl Issue for RootPackageManagerFieldIssue {
    open spec fn spec_name(&self) -> Seq<char> {
        "root-package-manager-field"@
    }

    open spec fn spec_level(&self) -> IssueLevel {
        if self.fixed {
            IssueLevel::Fixed
        } else {
            IssueLevel::Error
        }
    }

    open spec fn spec_message(&self) -> Seq<char> {
        "  │ {\n  +   \"packageManager\": \"...\"   ← missing packageManager field.\n  │ }"@
    }

    open spec fn spec_why(&self) -> Seq<char> {
        "The root package.json should specify the package manager and version to use. Useful for tools like corepack."@
    }

    fn name(&self) -> (r: &'static str) {
        "root-package-manager-field"
    }

    fn level(&self) -> (r: IssueLevel) {
        if self.fixed {
            IssueLevel::Fixed
        } else {
            IssueLevel::Error
        }
    }

    fn message(&self) -> (r: String) {
        String::from_str(
            "  │ {\n  +   \"packageManager\": \"...\"   ← missing packageManager field.\n  │ }",
        )
    }

    fn why(&self) -> (r: String) {
        String::from_str(
            "The root package.json should specify the package manager and version to use. Useful for tools like corepack.",
        )
    }
}

} // verus!
