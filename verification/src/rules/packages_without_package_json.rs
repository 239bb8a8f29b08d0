//! Every directory a workspace pattern matches should hold a manifest.

use vstd::prelude::*;
use crate::rules::{Issue, IssueLevel};

verus! {

/// A matched package directory has no manifest file.
pub struct PackagesWithoutPackageJsonIssue {
    pub package: String,
}

impl PackagesWithoutPackageJsonIssue {
    /// A freshly reported finding about the given directory.
    pub fn new(package: String) -> (r: PackagesWithoutPackageJsonIssue)
        ensures
            r.package@ == package@,
    {
        PackagesWithoutPackageJsonIssue { package }
    }
}

impl Issue for PackagesWithoutPackageJsonIssue {
    open spec fn spec_name(&self) -> Seq<char> {
        "packages-without-package-json"@
    }

    open spec fn spec_level(&self) -> IssueLevel {
        IssueLevel::Warning
    }

    open spec fn spec_message(&self) -> Seq<char> {
        "   "@ + self.package@ + "/package.json doesn't exists."@
    }

    open spec fn spec_why(&self) -> Seq<char> {
        "All packages matching the workspace should have a package.json file."@
    }

    fn name(&self) -> (r: &'static str) {
        "packages-without-package-json"
    }

    fn level(&self) -> (r: IssueLevel) {
        IssueLevel::Warning
    }

    fn message(&self) -> (r: String) {
        let mut s = String::from_str("   ");
        s.append(self.package.as_str());
        s.append("/package.json doesn't exists.");
        s
    }

    fn why(&self) -> (r: String) {
        String::from_str("All packages matching the workspace should have a package.json file.")
    }
}

} // verus!
