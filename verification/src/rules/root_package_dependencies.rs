//! The private root manifest should keep runtime dependencies out.

use vstd::prelude::*;
use crate::rules::{Issue, IssueLevel};

verus! {

/// The root manifest declares a `dependencies` field.
pub struct RootPackageDependenciesIssue {}

impl RootPackageDependenciesIssue {
    /// A freshly reported finding.
    pub fn new() -> (r: RootPackageDependenciesIssue) {
        RootPackageDependenciesIssue {  }
    }
}

impl Issue for RootPackageDependenciesIssue {
    open spec fn spec_name(&self) -> Seq<char> {
        "root-package-dependencies"@
    }

    open spec fn spec_level(&self) -> IssueLevel {
        IssueLevel::Warning
    }

    open spec fn spec_message(&self) -> Seq<char> {
        "  │ {\n  │   \"private\": \"true\",     ← root package is private...\n  │   ...\n  -   \"dependencies\": {      ← but has dependencies...\n  -      ...\n  -   },\n  │   ...\n  +   \"devDependencies\": {   ← instead of devDependencies.\n  +      ...\n  +   }\n  │ }"@
    }

    open spec fn spec_why(&self) -> Seq<char> {
        "The root package.json is private and should only have devDependencies. Declare dependencies in each package."@
    }

    fn name(&self) -> (r: &'static str) {
        "root-package-dependencies"
    }

    fn level(&self) -> (r: IssueLevel) {
        IssueLevel::Warning
    }

    fn message(&self) -> (r: String) {
        String::from_str(
            "  │ {\n  │   \"private\": \"true\",     ← root package is private...\n  │   ...\n  -   \"dependencies\": {      ← but has dependencies...\n  -      ...\n  -   },\n  │   ...\n  +   \"devDependencies\": {   ← instead of devDependencies.\n  +      ...\n  +   }\n  │ }",
        )
    }

    fn why(&self) -> (r: String) {
        String::from_str(
            "The root package.json is private and should only have devDependencies. Declare dependencies in each package.",
        )
    }
}

} // verus!
