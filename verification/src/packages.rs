//! Packages and their manifests, as the linter reads them: the fields that
//! the rules consult, the per-manifest dependency checks, and the parsed
//! dependency maps that aggregation consumes.

use vstd::prelude::*;
use crate::rules::AnyIssue;
use crate::rules::empty_dependencies::{DependencyKind, EmptyDependenciesIssue};
use crate::rules::unordered_dependencies::UnorderedDependenciesIssue;
use crate::rules::root_package_dependencies::RootPackageDependenciesIssue;
use crate::rules::root_package_manager_field::RootPackageManagerFieldIssue;
use crate::rules::root_package_private_field::RootPackagePrivateFieldIssue;
use crate::strutil::{
    spec_lex_cmp, lex_cmp_str, str_eq, spec_starts_with, spec_ends_with, spec_trim_trailing,
    starts_with_str, ends_with_str, trim_trailing, duplicate_strings,
};
use crate::version::SemVersion;
use core::cmp::Ordering;

verus! {

/// The two shapes a root manifest's workspace declaration takes: a plain
/// pattern list, or a structured form with a nested `packages` list. Both
/// normalize to the pattern list.
pub enum Workspaces {
    Default(Vec<String>),
    Yarn { packages: Vec<String> },
}

impl Workspaces {
    /// The declared pattern list, whichever shape carried it.
    pub open spec fn spec_list(&self) -> Seq<Seq<char>> {
        match self {
            Workspaces::Default(l) => l@.map_values(|p: String| p@),
            Workspaces::Yarn { packages } => packages@.map_values(|p: String| p@),
        }
    }

    /// The declared pattern list, whichever shape carried it.
    pub fn list(&self) -> (r: &Vec<String>)
        ensures
            r@.map_values(|p: String| p@) == self.spec_list(),
    {
        match self {
            Workspaces::Default(l) => l,
            Workspaces::Yarn { packages } => packages,
        }
    }
}

/// One manifest's fields, as far as the rules read them. The dependency maps
/// keep their on-disk entry order.
pub struct PackageManifest {
    pub name: Option<String>,
    pub private: Option<bool>,
    pub workspaces: Option<Workspaces>,
    pub package_manager: Option<String>,
    pub dependencies: Option<Vec<(String, String)>>,
    pub dev_dependencies: Option<Vec<(String, String)>>,
    pub peer_dependencies: Option<Vec<(String, String)>>,
    pub optional_dependencies: Option<Vec<(String, String)>>,
}

/// The keys of a dependency map come alphabetically, byte order, no key
/// above its successor.
pub open spec fn spec_keys_sorted(deps: Seq<(String, String)>) -> bool {
    forall|i: int|
        0 <= i < deps.len() - 1 ==> spec_lex_cmp((#[trigger] deps[i]).0@, deps[i + 1].0@)
            != Ordering::Greater
}

/// What a per-manifest dependency check yields: nothing on a missing map,
/// the empty-block finding on an empty one, the unordered finding on one
/// whose keys are out of order.
pub open spec fn spec_check_deps(
    deps: &Option<Vec<(String, String)>>,
    kind: DependencyKind,
) -> Option<AnyIssue> {
    match deps {
        Option::None => Option::None,
        Option::Some(d) => {
            if d@.len() == 0 {
                Option::Some(
                    AnyIssue::EmptyDependencies(
                        EmptyDependenciesIssue { dependency_kind: kind, fixed: false },
                    ),
                )
            } else if !spec_keys_sorted(d@) {
                Option::Some(
                    AnyIssue::UnorderedDependencies(
                        UnorderedDependenciesIssue { dependency_kind: kind, fixed: false },
                    ),
                )
            } else {
                Option::None
            }
        },
    }
}

/// Whether a parsed entry must come out of `raw`: the name is kept and the
/// version text parses to the value.
pub open spec fn spec_parse_ok(s: Seq<char>) -> bool {
    crate::version::exact_parse(s) is Some || crate::version::range_parse(s) is Some
}

/// The parsed dependency list `v` is exactly the entries of `d` whose
/// version text parses, in order, each carrying its parsed value.
pub open spec fn spec_parsed_rel(d: Seq<(String, String)>, v: Seq<(String, SemVersion)>) -> bool
    decreases d.len(),
{
    if d.len() == 0 {
        v.len() == 0
    } else if spec_parse_ok(d.last().1@) {
        &&& v.len() > 0
        &&& v.last().0@ == d.last().0@
        &&& SemVersion::spec_parse_rel(d.last().1@, Ok(v.last().1))
        &&& spec_parsed_rel(d.drop_last(), v.drop_last())
    } else {
        spec_parsed_rel(d.drop_last(), v)
    }
}

/// Decides whether the keys come alphabetically.
fn keys_sorted_exec(d: &Vec<(String, String)>) -> (r: bool)
    ensures
        r == spec_keys_sorted(d@),
{
    let n = d.len();
    if n == 0 {
        return true;
    }
    let mut i: usize = 0;
    while i + 1 < n
        invariant
            n == d@.len(),
            i < n,
            forall|j: int|
                0 <= j < i ==> spec_lex_cmp((#[trigger] d@[j]).0@, d@[j + 1].0@)
                    != Ordering::Greater,
        decreases n - i,
    {
        let c = lex_cmp_str(d[i].0.as_str(), d[i + 1].0.as_str());
        if matches!(c, Ordering::Greater) {
            proof {
                assert(spec_lex_cmp((d@[i as int]).0@, d@[i as int + 1].0@) == Ordering::Greater);
            }
            return false;
        }
        i = i + 1;
    }
    true
}

fn check_deps_impl(deps: &Option<Vec<(String, String)>>, kind: DependencyKind) -> (r: Option<
    AnyIssue,
>)
    ensures
        r == spec_check_deps(deps, kind),
{
    match deps {
        Option::None => Option::None,
        Option::Some(d) => {
            if d.len() == 0 {
                Option::Some(AnyIssue::EmptyDependencies(EmptyDependenciesIssue::new(kind)))
            } else if !keys_sorted_exec(d) {
                Option::Some(
                    AnyIssue::UnorderedDependencies(UnorderedDependenciesIssue::new(kind)),
                )
            } else {
                Option::None
            }
        },
    }
}

fn get_deps_impl(deps: &Option<Vec<(String, String)>>) -> (r: Option<Vec<(String, SemVersion)>>)
    ensures
        deps is None <==> r is None,
        deps matches Some(d) ==> r matches Some(v) && spec_parsed_rel(d@, v@),
{
    match deps {
        Option::None => Option::None,
        Option::Some(d) => {
            let mut out: Vec<(String, SemVersion)> = Vec::new();
            let mut i: usize = 0;
            while i < d.len()
                invariant
                    i <= d@.len(),
                    spec_parsed_rel(d@.take(i as int), out@),
                decreases d@.len() - i,
            {
                let name = d[i].0.clone();
                let ghost out0 = out@;
                match SemVersion::parse(d[i].1.as_str()) {
                    Ok(v) => {
                        out.push((name, v));
                    },
                    Err(_) => {},
                }
                proof {
                    assert(d@.take(i + 1).drop_last() =~= d@.take(i as int));
                    assert(d@.take(i + 1).last() == d@[i as int]);
                    if spec_parse_ok(d@[i as int].1@) {
                        assert(out@.drop_last() =~= out0);
                    }
                }
                i = i + 1;
            }
            proof {
                assert(d@.take(d@.len() as int) =~= d@);
            }
            Option::Some(out)
        },
    }
}

/// One member package: its directory and its decoded manifest.
pub struct Package {
    pub path: String,
    pub manifest: PackageManifest,
}

impl Package {
    /// A package at `path` with the manifest its directory held.
    pub fn new(path: String, manifest: PackageManifest) -> (r: Package)
        ensures
            r.path == path,
            r.manifest == manifest,
    {
        Package { path, manifest }
    }

    /// The declared package name, if any.
    pub fn get_name(&self) -> (r: &Option<String>)
        ensures
            *r == self.manifest.name,
    {
        &self.manifest.name
    }

    /// The package's directory path.
    pub fn get_path(&self) -> (r: String)
        ensures
            r@ == self.path@,
    {
        self.path.clone()
    }

    /// Whether the manifest declares `"private": true`.
    pub fn is_private(&self) -> (r: bool)
        ensures
            r == (self.manifest.private matches Some(true)),
    {
        match self.manifest.private {
            Option::Some(p) => p,
            Option::None => false,
        }
    }

    /// Checks the `dependencies` map for emptiness and key order.
    pub fn check_dependencies(&self) -> (r: Option<AnyIssue>)
        ensures
            r == spec_check_deps(&self.manifest.dependencies, DependencyKind::Dependencies),
    {
        check_deps_impl(&self.manifest.dependencies, DependencyKind::Dependencies)
    }

    /// Checks the `devDependencies` map for emptiness and key order.
    pub fn check_dev_dependencies(&self) -> (r: Option<AnyIssue>)
        ensures
            r == spec_check_deps(&self.manifest.dev_dependencies, DependencyKind::DevDependencies),
    {
        check_deps_impl(&self.manifest.dev_dependencies, DependencyKind::DevDependencies)
    }

    /// Checks the `peerDependencies` map for emptiness and key order.
    pub fn check_peer_dependencies(&self) -> (r: Option<AnyIssue>)
        ensures
            r == spec_check_deps(&self.manifest.peer_dependencies, DependencyKind::PeerDependencies),
    {
        check_deps_impl(&self.manifest.peer_dependencies, DependencyKind::PeerDependencies)
    }

    /// Checks the `optionalDependencies` map for emptiness and key order.
    pub fn check_optional_dependencies(&self) -> (r: Option<AnyIssue>)
        ensures
            r == spec_check_deps(&self.manifest.optional_dependencies, DependencyKind::OptionalDependencies),
    {
        check_deps_impl(&self.manifest.optional_dependencies, DependencyKind::OptionalDependencies)
    }

    /// The `dependencies` entries whose version text parses, each with its
    /// parsed version.
    pub fn get_dependencies(&self) -> (r: Option<Vec<(String, SemVersion)>>)
        ensures
            self.manifest.dependencies is None <==> r is None,
            self.manifest.dependencies matches Some(d) ==> r matches Some(v) && spec_parsed_rel(
                d@,
                v@,
            ),
    {
        get_deps_impl(&self.manifest.dependencies)
    }

    /// The `devDependencies` entries whose version text parses, each with
    /// its parsed version.
    pub fn get_dev_dependencies(&self) -> (r: Option<Vec<(String, SemVersion)>>)
        ensures
            self.manifest.dev_dependencies is None <==> r is None,
            self.manifest.dev_dependencies matches Some(d) ==> r matches Some(v)
                && spec_parsed_rel(d@, v@),
    {
        get_deps_impl(&self.manifest.dev_dependencies)
    }

    /// Whether one ignore entry covers this package: a trailing `*` makes it
    /// a prefix pattern over the name and the path, anything else must equal
    /// the name or the path.
    pub open spec fn spec_ignored_by(&self, entry: Seq<char>) -> bool {
        match self.manifest.name {
            Option::Some(name) => {
                if spec_ends_with(entry, "*"@) {
                    let t = spec_trim_trailing(entry, '*');
                    spec_starts_with(name@, t) || spec_starts_with(self.path@, t)
                } else {
                    entry == name@ || entry == self.path@
                }
            },
            Option::None => false,
        }
    }

    /// Whether the ignore list covers this package, by name or path, exactly
    /// or by a trailing-`*` prefix pattern. A nameless package is never
    /// ignored.
    pub fn is_ignored(&self, ignored_packages: &Vec<String>) -> (r: bool)
        ensures
            r == exists|k: int|
                0 <= k < ignored_packages@.len() && self.spec_ignored_by(
                    (#[trigger] ignored_packages@[k])@,
                ),
    {
        if self.manifest.name.is_none() {
            return false;
        }
        let mut k: usize = 0;
        while k < ignored_packages.len()
            invariant
                k <= ignored_packages@.len(),
                self.manifest.name is Some,
                forall|j: int|
                    0 <= j < k ==> !self.spec_ignored_by((#[trigger] ignored_packages@[j])@),
            decreases ignored_packages@.len() - k,
        {
            let entry = &ignored_packages[k];
            let covered = if ends_with_str(entry.as_str(), "*") {
                let t = trim_trailing(entry.as_str(), '*');
                let name = match &self.manifest.name {
                    Option::Some(n) => n,
                    Option::None => unreached(),
                };
                starts_with_str(name.as_str(), t.as_str()) || starts_with_str(
                    self.path.as_str(),
                    t.as_str(),
                )
            } else {
                let name = match &self.manifest.name {
                    Option::Some(n) => n,
                    Option::None => unreached(),
                };
                str_eq(entry.as_str(), name.as_str()) || str_eq(
                    entry.as_str(),
                    self.path.as_str(),
                )
            };
            if covered {
                return true;
            }
            k = k + 1;
        }
        false
    }
}

/// The workspace's anchor package: the root manifest, with the root-only
/// rules.
pub struct RootPackage {
    pub package: Package,
}

impl RootPackage {
    /// The root package over its decoded manifest.
    pub fn new(package: Package) -> (r: RootPackage)
        ensures
            r.package == package,
    {
        RootPackage { package }
    }

    /// The declared root name, or empty when absent.
    pub fn get_name(&self) -> (r: String)
        ensures
            match self.package.manifest.name {
                Option::Some(n) => r@ == n@,
                Option::None => r@ == Seq::<char>::empty(),
            },
    {
        match &self.package.manifest.name {
            Option::Some(n) => n.clone(),
            Option::None => String::new(),
        }
    }

    /// The declared workspace patterns, normalized to a plain list; `None`
    /// when the root manifest declares no workspaces.
    pub fn get_workspaces(&self) -> (r: Option<Vec<String>>)
        ensures
            match self.package.manifest.workspaces {
                Option::Some(w) => r matches Some(l) && l@.map_values(|p: String| p@)
                    == w.spec_list(),
                Option::None => r is None,
            },
    {
        match &self.package.manifest.workspaces {
            Option::Some(w) => Option::Some(duplicate_strings(w.list())),
            Option::None => Option::None,
        }
    }

    /// What the root privacy check yields: a finding unless the manifest
    /// says `"private": true`.
    pub open spec fn spec_check_private(&self) -> Option<AnyIssue> {
        if self.package.manifest.private matches Some(true) {
            Option::None
        } else {
            Option::Some(
                AnyIssue::RootPackagePrivateField(RootPackagePrivateFieldIssue { fixed: false }),
            )
        }
    }

    /// The root should be `"private": true`; anything else is reported.
    pub fn check_private(&self) -> (r: Option<AnyIssue>)
        ensures
            r == self.spec_check_private(),
    {
        match self.package.manifest.private {
            Option::Some(true) => Option::None,
            _ => Option::Some(
                AnyIssue::RootPackagePrivateField(RootPackagePrivateFieldIssue::new()),
            ),
        }
    }

    /// What the package-manager check yields: a finding when the field is
    /// absent.
    pub open spec fn spec_check_package_manager(&self) -> Option<AnyIssue> {
        if self.package.manifest.package_manager is Some {
            Option::None
        } else {
            Option::Some(
                AnyIssue::RootPackageManagerField(RootPackageManagerFieldIssue { fixed: false }),
            )
        }
    }

    /// The root should pin a package manager; a missing `packageManager`
    /// field is reported.
    pub fn check_package_manager(&self) -> (r: Option<AnyIssue>)
        ensures
            r == self.spec_check_package_manager(),
    {
        match &self.package.manifest.package_manager {
            Option::Some(_) => Option::None,
            Option::None => Option::Some(
                AnyIssue::RootPackageManagerField(RootPackageManagerFieldIssue::new()),
            ),
        }
    }

    /// What the root dependency check yields: a finding when the root
    /// declares runtime dependencies at all.
    pub open spec fn spec_check_dependencies(&self) -> Option<AnyIssue> {
        if self.package.manifest.dependencies is Some {
            Option::Some(
                AnyIssue::RootPackageDependencies(RootPackageDependenciesIssue {  }),
            )
        } else {
            Option::None
        }
    }

    /// The root should not declare runtime dependencies; a present
    /// `dependencies` field is reported.
    pub fn check_dependencies(&self) -> (r: Option<AnyIssue>)
        ensures
            r == self.spec_check_dependencies(),
    {
        match &self.package.manifest.dependencies {
            Option::Some(_) => Option::Some(
                AnyIssue::RootPackageDependencies(RootPackageDependenciesIssue::new()),
            ),
            Option::None => Option::None,
        }
    }

    /// Checks the root's `devDependencies` map for emptiness and key order.
    pub fn check_dev_dependencies(&self) -> (r: Option<AnyIssue>)
        ensures
            r == spec_check_deps(&self.package.manifest.dev_dependencies, DependencyKind::DevDependencies),
    {
        self.package.check_dev_dependencies()
    }

    /// Checks the root's `peerDependencies` map for emptiness and key order.
    pub fn check_peer_dependencies(&self) -> (r: Option<AnyIssue>)
        ensures
            r == spec_check_deps(&self.package.manifest.peer_dependencies, DependencyKind::PeerDependencies),
    {
        self.package.check_peer_dependencies()
    }

    /// Checks the root's `optionalDependencies` map for emptiness and key
    /// order.
    pub fn check_optional_dependencies(&self) -> (r: Option<AnyIssue>)
        ensures
            r == spec_check_deps(&self.package.manifest.optional_dependencies, DependencyKind::OptionalDependencies),
    {
        self.package.check_optional_dependencies()
    }
}


/// A repair that drops a dependency map leaves nothing to report: the
/// check of an absent map never yields a finding, so a removed empty block
/// stays clean on the next pass.
pub proof fn lemma_absent_map_checks_clean(kind: DependencyKind)
    ensures
        spec_check_deps(&Option::None, kind) is None,
{
}

/// A repair that sorts a dependency map leaves nothing to report: the
/// check of a non-empty map whose keys come in order never yields a
/// finding, so a sorted block stays clean on the next pass.
pub proof fn lemma_sorted_map_checks_clean(d: Vec<(String, String)>, kind: DependencyKind)
    requires
        spec_keys_sorted(d@),
        d@.len() > 0,
    ensures
        spec_check_deps(&Option::Some(d), kind) is None,
{
}

/// What package resolution hands on: the root, the member packages in
/// discovery order, and the diagnostics resolution itself produced.
pub struct PackagesList {
    pub root_package: RootPackage,
    pub packages: Vec<Package>,
    pub packages_issues: Vec<AnyIssue>,
}

} // verus!
