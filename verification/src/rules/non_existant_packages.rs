//! Every workspace pattern should match at least one package.

use vstd::prelude::*;
use crate::rules::{Issue, IssueLevel};
use crate::strutil::{spec_join, join_strings, vec_contains_str};

verus! {

/// Some workspace patterns matched no directory at all. Carries the full
/// pattern list and the unmatched subset, so a repair can drop exactly the
/// unmatched entries.
pub struct NonExistantPackagesIssue {
    pub pnpm_workspace: bool,
    pub packages_list: Vec<String>,
    pub paths: Vec<String>,
    pub fixed: bool,
}

/// One list entry of the workspace-document rendering; `unmatched` marks the
/// entries to drop.
pub open spec fn spec_pnpm_line(p: Seq<char>, unmatched: bool) -> Seq<char> {
    if unmatched {
        "  -  - '"@ + p + "'   ← but this one doesn't match any package"@
    } else {
        "  │  - '"@ + p + "'"@
    }
}

/// One list entry of the root-manifest rendering; `unmatched` marks the
/// entries to drop.
pub open spec fn spec_package_line(p: Seq<char>, unmatched: bool) -> Seq<char> {
    if unmatched {
        "  -     \""@ + p + "\",   ← but this one doesn't match any package"@
    } else {
        "  │     \""@ + p + "\","@
    }
}

impl NonExistantPackagesIssue {
    /// A freshly reported finding: the full pattern list, and the subset that
    /// matched nothing. `pnpm_workspace` tells which document the patterns
    /// came from.
    pub fn new(pnpm_workspace: bool, packages_list: Vec<String>, paths: Vec<String>) -> (r:
        NonExistantPackagesIssue)
        ensures
            r.pnpm_workspace == pnpm_workspace,
            r.packages_list == packages_list,
            r.paths == paths,
            !r.fixed,
    {
        NonExistantPackagesIssue { pnpm_workspace, packages_list, paths, fixed: false }
    }

    /// The lines of the rendered message, one per pattern.
    pub open spec fn spec_lines(&self) -> Seq<Seq<char>> {
        let paths_views = self.paths@.map_values(|p: String| p@);
        if self.pnpm_workspace {
            self.packages_list@.map_values(
                |p: String| spec_pnpm_line(p@, paths_views.contains(p@)),
            )
        } else {
            self.packages_list@.map_values(
                |p: String| spec_package_line(p@, paths_views.contains(p@)),
            )
        }
    }

    /// The workspace-document rendering of the pattern list.
    pub fn pnpm_message(&self) -> (r: String)
        requires
            self.pnpm_workspace,
        ensures
            r@ == "  │ packages:   ← Workspace has paths defined...\n"@ + spec_join(
                self.spec_lines(),
                "\n"@,
            ),
    {
        let mut lines: Vec<String> = Vec::new();
        let mut i: usize = 0;
        while i < self.packages_list.len()
            invariant
                self.pnpm_workspace,
                i <= self.packages_list@.len(),
                lines@.len() == i,
                forall|j: int| 0 <= j < i ==> (#[trigger] lines@[j])@ == self.spec_lines()[j],
            decreases self.packages_list@.len() - i,
        {
            let p = &self.packages_list[i];
            let unmatched = vec_contains_str(&self.paths, p.as_str());
            let mut line = String::new();
            if unmatched {
                line.append("  -  - '");
                line.append(p.as_str());
                line.append("'   ← but this one doesn't match any package");
            } else {
                line.append("  │  - '");
                line.append(p.as_str());
                line.append("'");
            }
            lines.push(line);
            i = i + 1;
        }
        let mut s = String::from_str("  │ packages:   ← Workspace has paths defined...\n");
        proof {
            let a = lines@.map_values(|p: String| p@);
            let b = self.spec_lines();
            assert forall|j: int| 0 <= j < a.len() implies a[j] == b[j] by {
                assert(a[j] == lines@[j]@);
            }
            assert(a =~= b);
        }
        let joined = join_strings(&lines, "\n");
        s.append(joined.as_str());
        s
    }

    /// The root-manifest rendering of the pattern list.
    pub fn package_message(&self) -> (r: String)
        requires
            !self.pnpm_workspace,
        ensures
            r@ == "  │ {\n  │   \"workspaces\": [   ← Workspace has paths defined...\n"@
                + spec_join(self.spec_lines(), "\n"@) + "\n  │   ],\n  │ }"@,
    {
        let mut lines: Vec<String> = Vec::new();
        let mut i: usize = 0;
        while i < self.packages_list.len()
            invariant
                !self.pnpm_workspace,
                i <= self.packages_list@.len(),
                lines@.len() == i,
                forall|j: int| 0 <= j < i ==> (#[trigger] lines@[j])@ == self.spec_lines()[j],
            decreases self.packages_list@.len() - i,
        {
            let p = &self.packages_list[i];
            let unmatched = vec_contains_str(&self.paths, p.as_str());
            let mut line = String::new();
            if unmatched {
                line.append("  -     \"");
                line.append(p.as_str());
                line.append("\",   ← but this one doesn't match any package");
            } else {
                line.append("  │     \"");
                line.append(p.as_str());
                line.append("\",");
            }
            lines.push(line);
            i = i + 1;
        }
        let mut s = String::from_str(
            "  │ {\n  │   \"workspaces\": [   ← Workspace has paths defined...\n",
        );
        proof {
            let a = lines@.map_values(|p: String| p@);
            let b = self.spec_lines();
            assert forall|j: int| 0 <= j < a.len() implies a[j] == b[j] by {
                assert(a[j] == lines@[j]@);
            }
            assert(a =~= b);
        }
        let joined = join_strings(&lines, "\n");
        s.append(joined.as_str());
        s.append("\n  │   ],\n  │ }");
        s
    }
}

impl Issue for NonExistantPackagesIssue {
    open spec fn spec_name(&self) -> Seq<char> {
        "non-existant-packages"@
    }

    open spec fn spec_level(&self) -> IssueLevel {
        if self.fixed {
            IssueLevel::Fixed
        } else {
            IssueLevel::Warning
        }
    }

    open spec fn spec_message(&self) -> Seq<char> {
        if self.pnpm_workspace {
            "  │ packages:   ← Workspace has paths defined...\n"@ + spec_join(
                self.spec_lines(),
                "\n"@,
            )
        } else {
            "  │ {\n  │   \"workspaces\": [   ← Workspace has paths defined...\n"@ + spec_join(
                self.spec_lines(),
                "\n"@,
            ) + "\n  │   ],\n  │ }"@
        }
    }

    open spec fn spec_why(&self) -> Seq<char> {
        "All paths defined in the workspace should match at least one package."@
    }

    fn name(&self) -> (r: &'static str) {
        "non-existant-packages"
    }

    fn level(&self) -> (r: IssueLevel) {
        if self.fixed {
            IssueLevel::Fixed
        } else {
            IssueLevel::Warning
        }
    }

    fn message(&self) -> (r: String) {
        if self.pnpm_workspace {
            self.pnpm_message()
        } else {
            self.package_message()
        }
    }

    fn why(&self) -> (r: String) {
        String::from_str("All paths defined in the workspace should match at least one package.")
    }
}

} // verus!
