//! The run configuration the command-line layer hands to a check run.

use vstd::prelude::*;

verus! {

/// Which end of the version order an automatic repair picks when a
/// dependency diverges.
#[derive(Debug, Clone, Copy, PartialEq, Eq, Structural)]
pub enum AutofixSelect {
    Highest,
    Lowest,
}

impl AutofixSelect {
    /// The policy's display name.
    pub fn as_str(&self) -> (r: &'static str)
        ensures
            (*self is Highest ==> r@ == "highest"@) && (*self is Lowest ==> r@ == "lowest"@),
    {
        match self {
            AutofixSelect::Highest => "highest",
            AutofixSelect::Lowest => "lowest",
        }
    }
}

/// One run's configuration: the workspace root and what to ignore or repair.
pub struct Args {
    /// Path to the monorepo root.
    pub path: String,
    /// Repair the issues automatically, if possible.
    pub fix: bool,
    /// With `fix`, pick the highest or lowest version of a diverging
    /// dependency without prompting.
    pub select: Option<AutofixSelect>,
    /// Don't run the package manager's install command after repairing.
    pub no_install: bool,
    /// Fail with a non-zero exit code on warnings too.
    pub fail_on_warnings: bool,
    /// Dependency names or patterns whose divergence is accepted.
    pub ignore_dependency: Vec<String>,
    /// Package names or paths whose findings are not wanted.
    pub ignore_package: Vec<String>,
    /// Rule names whose findings are not wanted.
    pub ignore_rule: Vec<String>,
}

} // verus!
