//! Type-definition packages belong in `devDependencies`.

use vstd::prelude::*;
use crate::rules::{Issue, IssueLevel};
use crate::strutil::{spec_join, join_strings};

verus! {

/// A private package declares `@types/*` entries among its runtime
/// dependencies.
pub struct TypesInDependenciesIssue {
    pub packages: Vec<String>,
    pub fixed: bool,
}

/// The removal line for one entry in the message's `dependencies` block.
pub open spec fn spec_before_line(p: Seq<char>) -> Seq<char> {
    "  -      \""@ + p + "\": \"...\","@
}

/// The insertion line for one entry in the message's `devDependencies`
/// block.
pub open spec fn spec_after_line(p: Seq<char>) -> Seq<char> {
    "  +      \""@ + p + "\": \"...\","@
}

fn before_lines(packages: &Vec<String>) -> (r: Vec<String>)
    ensures
        r@.map_values(|p: String| p@) == packages@.map_values(|p: String| spec_before_line(p@)),
{
    let mut out: Vec<String> = Vec::new();
    let mut i: usize = 0;
    while i < packages.len()
        invariant
            i <= packages@.len(),
            out@.len() == i,
            forall|j: int| 0 <= j < i ==> (#[trigger] out@[j])@ == spec_before_line(
                packages@[j]@,
            ),
        decreases packages@.len() - i,
    {
        let mut s = String::from_str("  -      \"");
        s.append(packages[i].as_str());
        s.append("\": \"...\",");
        out.push(s);
        i = i + 1;
    }
    proof {
        let a = out@.map_values(|p: String| p@);
        let b = packages@.map_values(|p: String| spec_before_line(p@));
        assert forall|j: int| 0 <= j < a.len() implies a[j] == b[j] by {
            assert(a[j] == out@[j]@);
            assert(b[j] == spec_before_line(packages@[j]@));
        }
        assert(a =~= b);
    }
    out
}

fn after_lines(packages: &Vec<String>) -> (r: Vec<String>)
    ensures
        r@.map_values(|p: String| p@) == packages@.map_values(|p: String| spec_after_line(p@)),
{
    let mut out: Vec<String> = Vec::new();
    let mut i: usize = 0;
    while i < packages.len()
        invariant
            i <= packages@.len(),
            out@.len() == i,
            forall|j: int| 0 <= j < i ==> (#[trigger] out@[j])@ == spec_after_line(packages@[j]@),
        decreases packages@.len() - i,
    {
        let mut s = String::from_str("  +      \"");
        s.append(packages[i].as_str());
        s.append("\": \"...\",");
        out.push(s);
        i = i + 1;
    }
    proof {
        let a = out@.map_values(|p: String| p@);
        let b = packages@.map_values(|p: String| spec_after_line(p@));
        assert forall|j: int| 0 <= j < a.len() implies a[j] == b[j] by {
            assert(a[j] == out@[j]@);
            assert(b[j] == spec_after_line(packages@[j]@));
        }
        assert(a =~= b);
    }
    out
}

impl TypesInDependenciesIssue {
    /// A freshly reported finding about the given `@types/*` entries.
    pub fn new(packages: Vec<String>) -> (r: TypesInDependenciesIssue)
        ensures
            r.packages == packages,
            !r.fixed,
    {
        TypesInDependenciesIssue { packages, fixed: false }
    }
}

impl Issue for TypesInDependenciesIssue {
    open spec fn spec_name(&self) -> Seq<char> {
        "types-in-dependencies"@
    }

    open spec fn spec_level(&self) -> IssueLevel {
        if self.fixed {
            IssueLevel::Fixed
        } else {
            IssueLevel::Error
        }
    }

    open spec fn spec_message(&self) -> Seq<char> {
        "  │ {\n  │   \"private\": \"true\",     ← package is private...\n  │   ...\n  -   \"dependencies\": {      ← but has @types/* in dependencies...\n"@
            + spec_join(self.packages@.map_values(|p: String| spec_before_line(p@)), "\n"@)
            + "\n  -   },\n  │   ...\n  +   \"devDependencies\": {   ← instead of devDependencies.\n"@
            + spec_join(self.packages@.map_values(|p: String| spec_after_line(p@)), "\n"@)
            + "\n  +   }\n  │ }"@
    }

    open spec fn spec_why(&self) -> Seq<char> {
        "Private packages shouldn't have @types/* in dependencies."@
    }

    fn name(&self) -> (r: &'static str) {
        "types-in-dependencies"
    }

    fn level(&self) -> (r: IssueLevel) {
        if self.fixed {
            IssueLevel::Fixed
        } else {
            IssueLevel::Error
        }
    }

    fn message(&self) -> (r: String) {
        let before = before_lines(&self.packages);
        let after = after_lines(&self.packages);
        let mut s = String::from_str(
            "  │ {\n  │   \"private\": \"true\",     ← package is private...\n  │   ...\n  -   \"dependencies\": {      ← but has @types/* in dependencies...\n",
        );
        let joined_before = join_strings(&before, "\n");
        s.append(joined_before.as_str());
        s.append(
            "\n  -   },\n  │   ...\n  +   \"devDependencies\": {   ← instead of devDependencies.\n",
        );
        let joined_after = join_strings(&after, "\n");
        s.append(joined_after.as_str());
        s.append("\n  +   }\n  │ }");
        s
    }

    fn why(&self) -> (r: String) {
        String::from_str("Private packages shouldn't have @types/* in dependencies.")
    }
}

} // verus!
