//! The root manifest should carry `"private": true`.

use vstd::prelude::*;
use crate::rules::{Issue, IssueLevel};

verus! {

/// The root manifest has no `private` field, or one not set to `true`.
pub struct RootPackagePrivateFieldIssue {
    pub fixed: bool,
}

impl RootPackagePrivateFieldIssue {
    /// A freshly reported finding.
    pub fn new() -> (r: RootPackagePrivateFieldIssue)
        ensures
            !r.fixed,
    {
        RootPackagePrivateFieldIssue { fixed: false }
    }
}

impl Issue for RootPackagePrivateFieldIssue {
    open spec fn spec_name(&self) -> Seq<char> {
        "root-package-private-field"@
    }

    open spec fn spec_level(&self) -> IssueLevel {
        if self.fixed {
            IssueLevel::Fixed
        } else {
            IssueLevel::Error
        }
    }

    open spec fn spec_message(&self) -> Seq<char> {
        "  │ {\n  +   \"private\": \"true\"   ← missing private field.\n  │ }"@
    }

    open spec fn spec_why(&self) -> Seq<char> {
        "The root package.json should be private to prevent accidentaly publishing it to a registry."@
    }

    fn name(&self) -> (r: &'static str) {
        "root-package-private-field"
    }

    fn level(&self) -> (r: IssueLevel) {
        if self.fixed {
            IssueLevel::Fixed
        } else {
            IssueLevel::Error
        }
    }

    fn message(&self) -> (r: String) {
        let s = String::from_str(
            "  │ {\n  +   \"private\": \"true\"   ← missing private field.\n  │ }",
        );
        s
    }

    fn why(&self) -> (r: String) {
        String::from_str(
            "The root package.json should be private to prevent accidentaly publishing it to a registry.",
        )
    }
}

} // verus!
