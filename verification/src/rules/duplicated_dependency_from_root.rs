//! A dependency already declared at the root need not be repeated in a
//! package.

use vstd::prelude::*;
use crate::rules::{Issue, IssueLevel};

verus! {

/// A package repeats a dependency that the root manifest already declares.
pub struct DuplicatedDependencyFromRootIssue {
    pub name: String,
    pub package: String,
}

impl DuplicatedDependencyFromRootIssue {
    /// A freshly reported finding about `name` repeated in `package`.
    pub fn new(name: String, package: String) -> (r: DuplicatedDependencyFromRootIssue)
        ensures
            r.name@ == name@,
            r.package@ == package@,
    {
        DuplicatedDependencyFromRootIssue { name, package }
    }
}

impl Issue for DuplicatedDependencyFromRootIssue {
    open spec fn spec_name(&self) -> Seq<char> {
        "duplicated-dependency-from-root"@
    }

    open spec fn spec_level(&self) -> IssueLevel {
        IssueLevel::Warning
    }

    open spec fn spec_message(&self) -> Seq<char> {
        "The `"@ + self.name@ + "` dependency is duplicated from the root in "@ + self.package@
            + "/package.json."@
    }

    open spec fn spec_why(&self) -> Seq<char> {
        "Dependencies declared in root `package.json` should not be duplicated in package's `package.json`"@
    }

    fn name(&self) -> (r: &'static str) {
        "duplicated-dependency-from-root"
    }

    fn level(&self) -> (r: IssueLevel) {
        IssueLevel::Warning
    }

    fn message(&self) -> (r: String) {
        let mut s = String::from_str("The `");
        s.append(self.name.as_str());
        s.append("` dependency is duplicated from the root in ");
        s.append(self.package.as_str());
        s.append("/package.json.");
        s
    }

    fn why(&self) -> (r: String) {
        String::from_str(
            "Dependencies declared in root `package.json` should not be duplicated in package's `package.json`",
        )
    }
}

} // verus!
