//! Putting a run together: building the package list out of the resolved
//! candidates, and the check pass that turns the loaded packages into the
//! ordered issue collection, with cross-package dependency aggregation.

use vstd::prelude::*;
use crate::args::Args;
use crate::packages::{Package, PackageManifest, PackagesList, RootPackage};
use crate::rules::{AnyIssue, IssuesList, PackageType};
use crate::rules::multiple_dependency_versions::MultipleDependencyVersionsIssue;
use crate::rules::non_existant_packages::NonExistantPackagesIssue;
use crate::rules::packages_without_package_json::PackagesWithoutPackageJsonIssue;
use crate::rules::types_in_dependencies::TypesInDependenciesIssue;
use crate::rules::unsync_similar_dependencies::{
    spec_family_of, SimilarDependency, UnsyncSimilarDependenciesIssue,
};
use crate::strutil::{
    spec_starts_with, spec_ends_with, spec_contains, starts_with_str, ends_with_str,
    contains_str, str_eq, concat_str,
};
use crate::version::{same_version, SemVersion, VersionModel};

verus! {

/// A condition that aborts a whole run.
#[derive(Debug)]
pub enum CollectError {
    /// The given path is not a directory.
    NotADirectory(String),
    /// The directory holds no manifest file.
    ManifestNotFound(String),
    /// A manifest exists but could not be decoded: the file, and the
    /// decoder's words.
    ManifestParse(String, String),
    /// Neither a `workspaces` field nor a workspace document was found.
    NoWorkspaces(String),
}

impl CollectError {
    /// What the error's message must say.
    pub open spec fn spec_message(&self) -> Seq<char> {
        match self {
            CollectError::NotADirectory(p) => "Path \""@ + p@ + "\" is not a directory"@,
            CollectError::ManifestNotFound(p) => "`package.json` not found in \""@ + p@ + "\""@,
            CollectError::ManifestParse(p, e) => "Error while parsing \""@ + p@ + "\": "@ + e@,
            CollectError::NoWorkspaces(p) =>
                "No `workspaces` field in the root `package.json`, or `pnpm-workspace.yaml` file not found in \""@
                + p@ + "\""@,
        }
    }

    /// The error rendered for the operator.
    pub fn message(&self) -> (r: String)
        ensures
            r@ == self.spec_message(),
    {
        match self {
            CollectError::NotADirectory(p) => {
                let mut s = String::from_str("Path \"");
                s.append(p.as_str());
                s.append("\" is not a directory");
                s
            },
            CollectError::ManifestNotFound(p) => {
                let mut s = String::from_str("`package.json` not found in \"");
                s.append(p.as_str());
                s.append("\"");
                s
            },
            CollectError::ManifestParse(p, e) => {
                let mut s = String::from_str("Error while parsing \"");
                s.append(p.as_str());
                s.append("\": ");
                s.append(e.as_str());
                s
            },
            CollectError::NoWorkspaces(p) => {
                let mut s = String::from_str(
                    "No `workspaces` field in the root `package.json`, or `pnpm-workspace.yaml` file not found in \"",
                );
                s.append(p.as_str());
                s.append("\"");
                s
            },
        }
    }
}

/// What the caller found at a manifest's place.
pub enum ManifestOutcome {
    /// The manifest, decoded.
    Manifest(PackageManifest),
    /// The directory exists but holds no manifest file.
    NoManifest,
    /// The path is not a directory at all.
    NotADirectory,
    /// The manifest exists but failed to decode; the decoder's words.
    Parse(String),
}

/// Builds the root package from what the caller found at the root: a
/// missing directory, manifest or a decode failure each abort the run with
/// its error.
pub fn load_root(path: &str, outcome: ManifestOutcome) -> (r: Result<RootPackage, CollectError>)
    ensures
        match outcome {
            ManifestOutcome::Manifest(m) => r matches Ok(rp) && rp.package.path@ == path@
                && rp.package.manifest == m,
            ManifestOutcome::NoManifest => r matches Err(CollectError::ManifestNotFound(p)) && p@
                == path@,
            ManifestOutcome::NotADirectory => r matches Err(CollectError::NotADirectory(p)) && p@
                == path@,
            ManifestOutcome::Parse(e) => (r matches Err(CollectError::ManifestParse(p, m)) && p@
                == path@ + "/package.json"@ && m@ == e@),
        },
{
    match outcome {
        ManifestOutcome::Manifest(m) => Ok(RootPackage::new(Package::new(path.to_owned(), m))),
        ManifestOutcome::NoManifest => Err(CollectError::ManifestNotFound(path.to_owned())),
        ManifestOutcome::NotADirectory => Err(CollectError::NotADirectory(path.to_owned())),
        ManifestOutcome::Parse(e) => {
            let file = concat_str(path, "/package.json");
            Err(CollectError::ManifestParse(file, e))
        },
    }
}

/// Picks the workspace pattern source: the root manifest's `workspaces`
/// list when it has one, else the workspace document's list; neither is a
/// fatal error. The flag says the document was used.
pub fn workspace_source(
    root_path: &str,
    manifest_workspaces: Option<Vec<String>>,
    document_packages: Option<Vec<String>>,
) -> (r: Result<(Vec<String>, bool), CollectError>)
    ensures
        match manifest_workspaces {
            Some(l) => r matches Ok(t) && t.0 == l && !t.1,
            None => match document_packages {
                Some(l) => r matches Ok(t) && t.0 == l && t.1,
                None => (r matches Err(CollectError::NoWorkspaces(p)) && p@ == root_path@),
            },
        },
{
    match manifest_workspaces {
        Some(l) => Ok((l, false)),
        None => match document_packages {
            Some(l) => Ok((l, true)),
            None => Err(CollectError::NoWorkspaces(root_path.to_owned())),
        },
    }
}

/// The position of the first candidate whose manifest failed to decode, or
/// the candidate count.
pub open spec fn spec_first_parse_failure(outs: Seq<ManifestOutcome>, i: int) -> int
    decreases outs.len() - i,
{
    if i < 0 || i >= outs.len() {
        outs.len() as int
    } else if outs[i] is Parse {
        i
    } else {
        spec_first_parse_failure(outs, i + 1)
    }
}

/// The packages built from the first `n` candidates: one per decoded
/// manifest, in candidate order.
pub open spec fn spec_built_packages(
    cands: Seq<String>,
    outs: Seq<ManifestOutcome>,
    n: int,
) -> Seq<Package>
    decreases n,
{
    if n <= 0 {
        Seq::empty()
    } else {
        spec_built_packages(cands, outs, n - 1) + match outs[n - 1] {
            ManifestOutcome::Manifest(m) => seq![
                Package { path: cands[n - 1], manifest: m },
            ],
            _ => Seq::empty(),
        }
    }
}

/// The missing-manifest findings from the first `n` candidates, in
/// candidate order.
pub open spec fn spec_missing_issues(
    cands: Seq<String>,
    outs: Seq<ManifestOutcome>,
    n: int,
) -> Seq<AnyIssue>
    decreases n,
{
    if n <= 0 {
        Seq::empty()
    } else {
        spec_missing_issues(cands, outs, n - 1) + match outs[n - 1] {
            ManifestOutcome::NoManifest => seq![
                AnyIssue::PackagesWithoutPackageJson(
                    PackagesWithoutPackageJsonIssue { package: cands[n - 1] },
                ),
            ],
            _ => Seq::empty(),
        }
    }
}

/// Builds the package list from the resolved candidates and what the caller
/// found in each: a decoded manifest makes a package, a missing manifest a
/// diagnostic, a missing directory is dropped, and a manifest that fails to
/// decode aborts the run. Unmatched patterns become one diagnostic carrying
/// the full pattern list.
#[verifier::loop_isolation(false)]
pub fn build_packages_list(
    root_package: RootPackage,
    candidates: Vec<String>,
    outcomes: Vec<ManifestOutcome>,
    is_pnpm: bool,
    full_patterns: Vec<String>,
    unmatched: Vec<String>,
) -> (r: Result<PackagesList, CollectError>)
    requires
        outcomes@.len() == candidates@.len(),
    ensures
        ({
            let n = candidates@.len() as int;
            let bad = spec_first_parse_failure(outcomes@, 0);
            if bad == n {
                &&& r matches Ok(pl)
                &&& pl.root_package == root_package
                &&& pl.packages@ == spec_built_packages(candidates@, outcomes@, n)
                &&& pl.packages_issues@ == spec_missing_issues(candidates@, outcomes@, n)
                    + if unmatched@.len() > 0 {
                    seq![
                        AnyIssue::NonExistantPackages(
                            NonExistantPackagesIssue {
                                pnpm_workspace: is_pnpm,
                                packages_list: full_patterns,
                                paths: unmatched,
                                fixed: false,
                            },
                        ),
                    ]
                } else {
                    Seq::empty()
                }
            } else {
                &&& r matches Err(CollectError::ManifestParse(p, m))
                &&& p@ == candidates@[bad]@ + "/package.json"@
                &&& outcomes@[bad] matches ManifestOutcome::Parse(e) && m@ == e@
            }
        }),
{
    let mut packages: Vec<Package> = Vec::new();
    let mut packages_issues: Vec<AnyIssue> = Vec::new();
    let ghost cands = candidates@;
    let ghost outs = outcomes@;
    let n = candidates.len();
    let mut outcomes = outcomes;
    let mut candidates = candidates;
    let mut i: usize = 0;
    while i < n
        invariant
            i <= n,
            n == cands.len(),
            outs.len() == cands.len(),
            candidates@ == cands.skip(i as int),
            outcomes@ == outs.skip(i as int),
            forall|j: int| 0 <= j < i ==> !((#[trigger] outs[j]) is Parse),
            packages@ == spec_built_packages(cands, outs, i as int),
            packages_issues@ == spec_missing_issues(cands, outs, i as int),
        decreases n - i,
    {
        proof {
            assert(outcomes@[0] == outs[i as int]);
            assert(candidates@[0] == cands[i as int]);
            assert(spec_first_parse_failure(outs, i as int) == spec_first_parse_failure(outs, 0))
                by {
                lemma_first_parse_skip(outs, 0, i as int);
            }
        }
        let out = outcomes.remove(0);
        let cand = candidates.remove(0);
        match out {
            ManifestOutcome::Manifest(m) => {
                packages.push(Package { path: cand, manifest: m });
            },
            ManifestOutcome::NoManifest => {
                packages_issues.push(
                    AnyIssue::PackagesWithoutPackageJson(
                        PackagesWithoutPackageJsonIssue { package: cand },
                    ),
                );
            },
            ManifestOutcome::NotADirectory => {},
            ManifestOutcome::Parse(e) => {
                let file = concat_str(cand.as_str(), "/package.json");
                proof {
                    assert(spec_first_parse_failure(outs, i as int) == i as int);
                }
                return Err(CollectError::ManifestParse(file, e));
            },
        }
        proof {
            assert(cands.skip(i as int).skip(1) =~= cands.skip(i + 1));
            assert(outs.skip(i as int).skip(1) =~= outs.skip(i + 1));
            assert(packages@ =~= spec_built_packages(cands, outs, i + 1));
            assert(packages_issues@ =~= spec_missing_issues(cands, outs, i + 1));
        }
        i = i + 1;
    }
    proof {
        lemma_first_parse_skip(outs, 0, n as int);
    }
    if unmatched.len() > 0 {
        packages_issues.push(
            AnyIssue::NonExistantPackages(
                NonExistantPackagesIssue {
                    pnpm_workspace: is_pnpm,
                    packages_list: full_patterns,
                    paths: unmatched,
                    fixed: false,
                },
            ),
        );
    }
    Ok(PackagesList { root_package, packages, packages_issues })
}

proof fn lemma_first_parse_skip(outs: Seq<ManifestOutcome>, from: int, to: int)
    requires
        0 <= from <= to <= outs.len(),
        forall|j: int| from <= j < to ==> !(outs[j] is Parse),
    ensures
        spec_first_parse_failure(outs, from) == spec_first_parse_failure(outs, to),
    decreases to - from,
{
    if from < to {
        lemma_first_parse_skip(outs, from + 1, to);
    }
}

/// The first position in `s` of an entry named `name`, or the length.
pub open spec fn spec_find_name(s: Seq<(String, SemVersion)>, name: Seq<char>, i: int) -> int
    decreases s.len() - i,
{
    if i < 0 || i >= s.len() {
        s.len() as int
    } else if s[i].0@ == name {
        i
    } else {
        spec_find_name(s, name, i + 1)
    }
}

/// `s` with `(name, version)` written in: over the first entry of that
/// name, keeping its place, or appended when the name is new.
pub open spec fn spec_upsert(
    s: Seq<(String, SemVersion)>,
    name: String,
    version: SemVersion,
) -> Seq<(String, SemVersion)> {
    let i = spec_find_name(s, name@, 0);
    if i < s.len() {
        s.update(i, (name, version))
    } else {
        s.push((name, version))
    }
}

/// `b` with every entry of `m` written in, in order: a later entry for a
/// name already present overwrites its value in place.
pub open spec fn spec_extend_deps(
    b: Seq<(String, SemVersion)>,
    m: Seq<(String, SemVersion)>,
) -> Seq<(String, SemVersion)>
    decreases m.len(),
{
    if m.len() == 0 {
        b
    } else {
        spec_upsert(spec_extend_deps(b, m.drop_last()), m.last().0, m.last().1)
    }
}

fn find_name(s: &Vec<(String, SemVersion)>, name: &str) -> (r: usize)
    ensures
        r == spec_find_name(s@, name@, 0),
{
    let n = s.len();
    let mut i: usize = 0;
    while i < n
        invariant
            i <= n,
            n == s@.len(),
            spec_find_name(s@, name@, 0) == spec_find_name(s@, name@, i as int),
        decreases n - i,
    {
        if str_eq(s[i].0.as_str(), name) {
            return i;
        }
        i = i + 1;
    }
    n
}

/// Merges dependency lists as manifests do: later entries overwrite the
/// value of an already-present name in place, new names append.
pub fn extend_deps(base: Vec<(String, SemVersion)>, more: Vec<(String, SemVersion)>) -> (r: Vec<
    (String, SemVersion),
>)
    ensures
        r@ == spec_extend_deps(base@, more@),
{
    let ghost b0 = base@;
    let ghost m0 = more@;
    let mut out = base;
    let mut rest = more;
    let ghost mut k: int = 0;
    while rest.len() > 0
        invariant
            0 <= k <= m0.len(),
            rest@ == m0.skip(k),
            out@ == spec_extend_deps(b0, m0.take(k)),
        decreases rest@.len(),
    {
        proof {
            assert(rest@[0] == m0[k]);
        }
        let pair = rest.remove(0);
        let (name, version) = pair;
        let i = find_name(&out, name.as_str());
        let ghost o0 = out@;
        if i < out.len() {
            let _old = out.remove(i);
            out.insert(i, (name, version));
            proof {
                assert(out@ =~= o0.update(i as int, (name, version)));
            }
        } else {
            out.push((name, version));
        }
        proof {
            assert(m0.take(k + 1).drop_last() =~= m0.take(k));
            assert(m0.take(k + 1).last() == m0[k]);
            assert(out@ == spec_extend_deps(b0, m0.take(k + 1)));
            assert(m0.skip(k).skip(1) =~= m0.skip(k + 1));
        }
        proof {
            k = k + 1;
        }
    }
    proof {
        assert(m0.take(m0.len() as int) =~= m0);
    }
    out
}

/// The names among the entries that follow the type-definitions naming
/// convention, in order.
pub open spec fn spec_types_packages(deps: Seq<(String, SemVersion)>) -> Seq<Seq<char>>
    decreases deps.len(),
{
    if deps.len() == 0 {
        Seq::empty()
    } else {
        spec_types_packages(deps.drop_last()) + if spec_starts_with(
            deps.last().0@,
            "@types/"@,
        ) {
            seq![deps.last().0@]
        } else {
            Seq::empty()
        }
    }
}

fn types_packages(deps: &Vec<(String, SemVersion)>) -> (r: Vec<String>)
    ensures
        r@.map_values(|p: String| p@) == spec_types_packages(deps@),
{
    let mut out: Vec<String> = Vec::new();
    let mut i: usize = 0;
    proof {
        assert(deps@.take(0) =~= Seq::<(String, SemVersion)>::empty());
    }
    while i < deps.len()
        invariant
            i <= deps@.len(),
            out@.map_values(|p: String| p@) == spec_types_packages(deps@.take(i as int)),
        decreases deps@.len() - i,
    {
        let ghost o0 = out@.map_values(|p: String| p@);
        if starts_with_str(deps[i].0.as_str(), "@types/") {
            out.push(deps[i].0.clone());
        }
        proof {
            assert(deps@.take(i + 1).drop_last() =~= deps@.take(i as int));
            assert(deps@.take(i + 1).last() == deps@[i as int]);
            let on = out@.map_values(|p: String| p@);
            if spec_starts_with(deps@[i as int].0@, "@types/"@) {
                assert(on =~= o0.push(deps@[i as int].0@));
            } else {
                assert(on =~= o0);
            }
            assert(on =~= spec_types_packages(deps@.take(i + 1)));
        }
        i = i + 1;
    }
    proof {
        assert(deps@.take(deps@.len() as int) =~= deps@);
    }
    out
}

/// Whether all declared versions agree, in the compared model.
pub fn all_versions_same(vs: &Vec<(String, SemVersion)>) -> (r: bool)
    ensures
        r == (forall|i: int, j: int|
            0 <= i < vs@.len() && 0 <= j < vs@.len() ==> (#[trigger] vs@[i]).1.spec_same(
                &(#[trigger] vs@[j]).1,
            )),
{
    if vs.len() == 0 {
        return true;
    }
    let mut k: usize = 1;
    while k < vs.len()
        invariant
            vs@.len() > 0,
            1 <= k <= vs@.len(),
            forall|j: int| 0 <= j < k ==> vs@[0].1.spec_same(&(#[trigger] vs@[j]).1),
        decreases vs@.len() - k,
    {
        if !vs[0].1.same(&vs[k].1) {
            proof {
                assert(!vs@[0].1.spec_same(&vs@[k as int].1));
            }
            return false;
        }
        k = k + 1;
    }
    proof {
        assert forall|i: int, j: int|
            0 <= i < vs@.len() && 0 <= j < vs@.len() implies (#[trigger] vs@[i]).1.spec_same(
            &(#[trigger] vs@[j]).1,
        ) by {
            assert(vs@[0].1.spec_same(&vs@[i].1));
            assert(vs@[0].1.spec_same(&vs@[j].1));
        }
    }
    true
}

/// How an ignore-list entry is matched against a text: a `*` at either end
/// makes it a suffix, prefix or substring pattern; otherwise it must match
/// exactly.
pub open spec fn spec_pattern_match(e: Seq<char>, s: Seq<char>) -> bool {
    if e.len() >= 2 && spec_starts_with(e, "*"@) && spec_ends_with(e, "*"@) {
        spec_contains(s, e.subrange(1, e.len() - 1))
    } else if spec_ends_with(e, "*"@) {
        spec_starts_with(s, e.subrange(0, e.len() - 1))
    } else if spec_starts_with(e, "*"@) {
        spec_ends_with(s, e.subrange(1, e.len() as int))
    } else {
        e == s
    }
}

fn pattern_match(e: &str, s: &str) -> (r: bool)
    ensures
        r == spec_pattern_match(e@, s@),
{
    proof {
        reveal_strlit("*");
    }
    let el = crate::strutil::str_len(e);
    let starts = starts_with_str(e, "*");
    let ends = ends_with_str(e, "*");
    if el >= 2 && starts && ends {
        let mid = e.substring_char(1, el - 1);
        proof {
            assert(mid@ =~= e@.subrange(1, e@.len() - 1));
        }
        contains_str(s, mid)
    } else if ends {
        proof {
            assert(e@.len() >= 1);
        }
        let head = e.substring_char(0, el - 1);
        proof {
            assert(head@ =~= e@.subrange(0, e@.len() - 1));
        }
        starts_with_str(s, head)
    } else if starts {
        let tail = e.substring_char(1, el);
        proof {
            assert(tail@ =~= e@.subrange(1, e@.len() as int));
        }
        ends_with_str(s, tail)
    } else {
        str_eq(e, s)
    }
}

/// Whether the ignore-dependency list covers this dependency: an entry may
/// match the bare name, or the name with one of its declared versions as
/// `name@version`.
pub open spec fn spec_dep_ignored(
    entries: Seq<Seq<char>>,
    name: Seq<char>,
    versions: Seq<(String, SemVersion)>,
) -> bool {
    exists|k: int|
        0 <= k < entries.len() && (spec_pattern_match(#[trigger] entries[k], name) || exists|
            j: int,
        |
            0 <= j < versions.len() && spec_pattern_match(
                entries[k],
                name + "@"@ + (#[trigger] versions[j]).1.spec_rendered(),
            ))
}

fn dep_ignored(entries: &Vec<String>, name: &str, versions: &Vec<(String, SemVersion)>) -> (r:
    bool)
    ensures
        r == spec_dep_ignored(entries@.map_values(|p: String| p@), name@, versions@),
{
    let ghost ev = entries@.map_values(|p: String| p@);
    let mut k: usize = 0;
    while k < entries.len()
        invariant
            k <= entries@.len(),
            ev == entries@.map_values(|p: String| p@),
            forall|a: int|
                0 <= a < k ==> !(spec_pattern_match(#[trigger] ev[a], name@) || exists|j: int|
                    0 <= j < versions@.len() && spec_pattern_match(
                        ev[a],
                        name@ + "@"@ + (#[trigger] versions@[j]).1.spec_rendered(),
                    )),
        decreases entries@.len() - k,
    {
        let e = &entries[k];
        proof {
            assert(ev[k as int] == entries@[k as int]@);
        }
        if pattern_match(e.as_str(), name) {
            return true;
        }
        let mut j: usize = 0;
        while j < versions.len()
            invariant
                j <= versions@.len(),
                k < entries@.len(),
                ev == entries@.map_values(|p: String| p@),
                ev[k as int] == entries@[k as int]@,
                e@ == ev[k as int],
                forall|b: int|
                    0 <= b < j ==> !spec_pattern_match(
                        ev[k as int],
                        name@ + "@"@ + (#[trigger] versions@[b]).1.spec_rendered(),
                    ),
            decreases versions@.len() - j,
        {
            let mut full = name.to_owned();
            full.append("@");
            full.append(versions[j].1.rendered().as_str());
            if pattern_match(e.as_str(), full.as_str()) {
                proof {
                    assert(spec_pattern_match(
                        ev[k as int],
                        name@ + "@"@ + versions@[j as int].1.spec_rendered(),
                    ));
                }
                return true;
            }
            j = j + 1;
        }
        k = k + 1;
    }
    false
}

/// The divergence finding for one aggregated dependency, if owed: the name
/// has two or more entries, the versions do not all agree, and the
/// ignore-dependency list does not cover it. The finding holds exactly the
/// aggregated entries, reordered by version ascending.
pub fn divergence_issue(
    name: String,
    versions: Vec<(String, SemVersion)>,
    ignore_dependency: &Vec<String>,
    select: Option<crate::args::AutofixSelect>,
) -> (r: Option<AnyIssue>)
    ensures
        ({
            let owed = versions@.len() > 1 && !(forall|i: int, j: int|
                0 <= i < versions@.len() && 0 <= j < versions@.len() ==> (
                #[trigger] versions@[i]).1.spec_same(&(#[trigger] versions@[j]).1))
                && !spec_dep_ignored(
                ignore_dependency@.map_values(|p: String| p@),
                name@,
                versions@,
            );
            if owed {
                r matches Some(AnyIssue::MultipleDependencyVersions(m)) && m.name@ == name@
                    && m.select == select && !m.fixed && m.wf()
                    && m.versions@.to_multiset() == versions@.to_multiset()
            } else {
                r is None
            }
        }),
{
    if versions.len() <= 1 {
        return None;
    }
    if all_versions_same(&versions) {
        return None;
    }
    if dep_ignored(ignore_dependency, name.as_str(), &versions) {
        return None;
    }
    Some(
        AnyIssue::MultipleDependencyVersions(
            MultipleDependencyVersionsIssue::new(name, versions, select),
        ),
    )
}

/// The first position in a family group holding this version, or the
/// group's length.
pub open spec fn spec_ver_find(s: Seq<(SemVersion, String)>, v: &SemVersion, i: int) -> int
    decreases s.len() - i,
{
    if i < 0 || i >= s.len() {
        s.len() as int
    } else if s[i].0.spec_same(v) {
        i
    } else {
        spec_ver_find(s, v, i + 1)
    }
}

fn ver_find(s: &Vec<(SemVersion, String)>, v: &SemVersion) -> (r: usize)
    ensures
        r == spec_ver_find(s@, v, 0),
{
    let n = s.len();
    let mut i: usize = 0;
    while i < n
        invariant
            i <= n,
            n == s@.len(),
            spec_ver_find(s@, v, 0) == spec_ver_find(s@, v, i as int),
        decreases n - i,
    {
        if s[i].0.same(v) {
            return i;
        }
        i = i + 1;
    }
    n
}

/// The first position of a group of family `f`, or the group count.
pub open spec fn spec_group_find(
    groups: Seq<(SimilarDependency, Seq<(VersionModel, Seq<char>)>)>,
    f: SimilarDependency,
    i: int,
) -> int
    decreases groups.len() - i,
{
    if i < 0 || i >= groups.len() {
        groups.len() as int
    } else if groups[i].0 == f {
        i
    } else {
        spec_group_find(groups, f, i + 1)
    }
}

/// The first position in a group's entries carrying this compared version,
/// or the entry count.
pub open spec fn spec_entry_find(
    lst: Seq<(VersionModel, Seq<char>)>,
    m: VersionModel,
    i: int,
) -> int
    decreases lst.len() - i,
{
    if i < 0 || i >= lst.len() {
        lst.len() as int
    } else if same_version(lst[i].0, m) {
        i
    } else {
        spec_entry_find(lst, m, i + 1)
    }
}

/// Value-level version search agrees with model-level search: a version
/// matches an entry exactly when its model carries the same compared
/// version.
proof fn lemma_ver_find_model(s: Seq<(SemVersion, String)>, v: &SemVersion, i: int)
    requires
        0 <= i <= s.len(),
    ensures
        spec_ver_find(s, v, i) == spec_entry_find(
            s.map_values(|p: (SemVersion, String)| (p.0.model(), p.1@)),
            v.model(),
            i,
        ),
    decreases s.len() - i,
{
    let m = s.map_values(|p: (SemVersion, String)| (p.0.model(), p.1@));
    if i < s.len() {
        assert(m[i] == (s[i].0.model(), s[i].1@));
        assert(s[i].0.spec_same(v) == same_version(s[i].0.model(), v.model()));
        lemma_ver_find_model(s, v, i + 1);
    }
}

/// The family groups the first `k` entries build: entries of a known family
/// join their family's group, a new compared version appends, a repeated
/// one keeps its place and takes the later member name.
pub open spec fn spec_family_groups(joined: Seq<(String, SemVersion)>, k: int) -> Seq<
    (SimilarDependency, Seq<(VersionModel, Seq<char>)>),
>
    decreases k,
{
    if k <= 0 {
        Seq::empty()
    } else {
        let prev = spec_family_groups(joined, k - 1);
        let name = joined[k - 1].0@;
        let vm = joined[k - 1].1.model();
        match spec_family_of(name) {
            Some(f) => {
                let g = spec_group_find(prev, f, 0);
                if g < prev.len() {
                    let lst = prev[g].1;
                    let p = spec_entry_find(lst, vm, 0);
                    if p < lst.len() {
                        prev.update(g, (f, lst.update(p, (lst[p].0, name))))
                    } else {
                        prev.update(g, (f, lst.push((vm, name))))
                    }
                } else {
                    prev.push((f, seq![(vm, name)]))
                }
            },
            None => prev,
        }
    }
}

/// The groups among the first `k` that declare two or more distinct
/// compared versions, in group order: the families the rule reports.
pub open spec fn spec_unsync_selected(
    groups: Seq<(SimilarDependency, Seq<(VersionModel, Seq<char>)>)>,
    k: int,
) -> Seq<(SimilarDependency, Seq<(VersionModel, Seq<char>)>)>
    decreases k,
{
    if k <= 0 {
        Seq::empty()
    } else {
        spec_unsync_selected(groups, k - 1) + if groups[k - 1].1.len() >= 2 {
            seq![groups[k - 1]]
        } else {
            Seq::empty()
        }
    }
}

fn duplicate_entries(lst: &Vec<(SemVersion, String)>) -> (r: Vec<(SemVersion, String)>)
    ensures
        r@.map_values(|p: (SemVersion, String)| (p.0.model(), p.1@)) == lst@.map_values(
            |p: (SemVersion, String)| (p.0.model(), p.1@),
        ),
{
    let mut out: Vec<(SemVersion, String)> = Vec::new();
    let mut i: usize = 0;
    while i < lst.len()
        invariant
            i <= lst@.len(),
            out@.len() == i,
            forall|j: int|
                0 <= j < i ==> ((#[trigger] out@[j]).0.model() == lst@[j].0.model()
                    && out@[j].1@ == lst@[j].1@),
        decreases lst@.len() - i,
    {
        out.push((lst[i].0.duplicate(), lst[i].1.clone()));
        i = i + 1;
    }
    proof {
        let a = out@.map_values(|p: (SemVersion, String)| (p.0.model(), p.1@));
        let b = lst@.map_values(|p: (SemVersion, String)| (p.0.model(), p.1@));
        assert forall|j: int| 0 <= j < a.len() implies a[j] == b[j] by {
            assert(a[j] == (out@[j].0.model(), out@[j].1@));
            assert(b[j] == (lst@[j].0.model(), lst@[j].1@));
        }
        assert(a =~= b);
    }
    out
}

/// The findings the similar-family rule owes one package: one finding per
/// known ecosystem family that this manifest declares with two or more
/// distinct compared versions, in the order the families first appear, each
/// carrying exactly that family's distinct versions with the last member
/// name seen for each.
/// The similar-family findings `joined` owes, exactly: one per family
/// declared with two or more distinct compared versions, in the order the
/// families first appear, carrying that family's distinct versions with
/// the last member name seen for each.
pub open spec fn spec_unsync_result(joined: Seq<(String, SemVersion)>, r: Seq<AnyIssue>) -> bool {
    let groups = spec_family_groups(joined, joined.len() as int);
    let sel = spec_unsync_selected(groups, groups.len() as int);
    &&& r.len() == sel.len()
    &&& forall|k: int|
        0 <= k < r.len() ==> ((#[trigger] r[k]) matches AnyIssue::UnsyncSimilarDependencies(u)
            && !u.fixed && u.family == sel[k].0 && u.versions@.map_values(
            |p: (SemVersion, String)| (p.0.model(), p.1@),
        ) == sel[k].1)
}

pub fn unsync_issues(joined: &Vec<(String, SemVersion)>) -> (r: Vec<AnyIssue>)
    ensures
        spec_unsync_result(joined@, r@),
{
    let ghost group_model = |g: (SimilarDependency, Vec<(SemVersion, String)>)|
        (g.0, g.1@.map_values(|p: (SemVersion, String)| (p.0.model(), p.1@)));
    let mut fams: Vec<(SimilarDependency, Vec<(SemVersion, String)>)> = Vec::new();
    let mut i: usize = 0;
    proof {
        assert(fams@.map_values(group_model) =~= spec_family_groups(joined@, 0));
    }
    while i < joined.len()
        invariant
            i <= joined@.len(),
            group_model == (|g: (SimilarDependency, Vec<(SemVersion, String)>)|
                (g.0, g.1@.map_values(|p: (SemVersion, String)| (p.0.model(), p.1@)))),
            fams@.map_values(group_model) == spec_family_groups(joined@, i as int),
        decreases joined@.len() - i,
    {
        let ghost fm0 = fams@.map_values(group_model);
        let name = &joined[i].0;
        let version = &joined[i].1;
        match SimilarDependency::try_from(name.as_str()) {
            Some(fam) => {
                let mut scan: usize = 0;
                let mut found = false;
                let mut g: usize = 0;
                while scan < fams.len()
                    invariant
                        scan <= fams@.len(),
                        fm0 == fams@.map_values(group_model),
                        group_model == (|g: (SimilarDependency, Vec<(SemVersion, String)>)|
                            (g.0, g.1@.map_values(
                                |p: (SemVersion, String)| (p.0.model(), p.1@),
                            ))),
                        found ==> g < fams@.len() && fams@[g as int].0 == fam
                            && spec_group_find(fm0, fam, 0) == g,
                        !found ==> spec_group_find(fm0, fam, 0) == spec_group_find(
                            fm0,
                            fam,
                            scan as int,
                        ),
                    decreases fams@.len() - scan,
                {
                    proof {
                        assert(fm0[scan as int] == group_model(fams@[scan as int]));
                    }
                    if !found && fams[scan].0 == fam {
                        found = true;
                        g = scan;
                        proof {
                            assert(spec_group_find(fm0, fam, scan as int) == scan as int);
                        }
                    }
                    scan = scan + 1;
                }
                if found && g < fams.len() {
                    let ghost fams0 = fams@;
                    let entry = fams.remove(g);
                    let (f0, mut lst) = entry;
                    let ghost lst0 = lst@;
                    let ghost lst0m = lst0.map_values(
                        |p: (SemVersion, String)| (p.0.model(), p.1@),
                    );
                    proof {
                        assert(fm0[g as int] == group_model(fams0[g as int]));
                        assert(fm0[g as int].1 == lst0m);
                        lemma_ver_find_model(lst0, version, 0);
                    }
                    let pos = ver_find(&lst, version);
                    if pos < lst.len() {
                        let kept = lst.remove(pos);
                        lst.insert(pos, (kept.0, name.clone()));
                        proof {
                            assert(lst@ =~= lst0.update(pos as int, (lst0[pos as int].0, lst@[pos as int].1)));
                            let lm = lst@.map_values(
                                |p: (SemVersion, String)| (p.0.model(), p.1@),
                            );
                            assert forall|j: int| 0 <= j < lm.len() implies lm[j] == lst0m.update(
                                pos as int,
                                (lst0m[pos as int].0, name@),
                            )[j] by {
                                assert(lm[j] == (lst@[j].0.model(), lst@[j].1@));
                                assert(lst0m[j] == (lst0[j].0.model(), lst0[j].1@));
                            }
                            assert(lm =~= lst0m.update(pos as int, (lst0m[pos as int].0, name@)));
                        }
                    } else {
                        lst.push((version.duplicate(), name.clone()));
                        proof {
                            let lm = lst@.map_values(
                                |p: (SemVersion, String)| (p.0.model(), p.1@),
                            );
                            assert forall|j: int| 0 <= j < lm.len() implies lm[j] == lst0m.push(
                                (version.model(), name@),
                            )[j] by {
                                assert(lm[j] == (lst@[j].0.model(), lst@[j].1@));
                                if j < lm.len() - 1 {
                                    assert(lst0m[j] == (lst0[j].0.model(), lst0[j].1@));
                                }
                            }
                            assert(lm =~= lst0m.push((version.model(), name@)));
                        }
                    }
                    fams.insert(g, (f0, lst));
                    proof {
                        let fm = fams@.map_values(group_model);
                        assert(fams@ =~= fams0.update(g as int, (f0, fams@[g as int].1)));
                        assert forall|h: int| 0 <= h < fm.len() implies fm[h]
                            == spec_family_groups(joined@, i + 1)[h] by {
                            assert(fm[h] == group_model(fams@[h]));
                            if h != g {
                                assert(fams@[h] == fams0[h]);
                                assert(fm0[h] == group_model(fams0[h]));
                            }
                        }
                        assert(fm =~= spec_family_groups(joined@, i + 1));
                    }
                } else {
                    let mut lst: Vec<(SemVersion, String)> = Vec::new();
                    lst.push((version.duplicate(), name.clone()));
                    fams.push((fam, lst));
                    proof {
                        assert(spec_group_find(fm0, fam, 0) == fm0.len());
                        let fm = fams@.map_values(group_model);
                        assert forall|h: int| 0 <= h < fm.len() implies fm[h]
                            == spec_family_groups(joined@, i + 1)[h] by {
                            assert(fm[h] == group_model(fams@[h]));
                            if h < fm.len() - 1 {
                                assert(fams@[h] == fams@.drop_last()[h]);
                                assert(fm0[h] == group_model(fams@[h]));
                            } else {
                                assert(fams@[h].1@ =~= Seq::<(SemVersion, String)>::empty().push(
                                    (fams@[h].1@[0].0, fams@[h].1@[0].1),
                                ));
                            }
                        }
                        assert(fm =~= spec_family_groups(joined@, i + 1));
                    }
                }
            },
            None => {
                proof {
                    assert(fams@.map_values(group_model) =~= spec_family_groups(joined@, i + 1));
                }
            },
        }
        i = i + 1;
    }
    let ghost groups = spec_family_groups(joined@, joined@.len() as int);
    proof {
        assert(fams@.map_values(group_model) == groups);
    }
    let mut out: Vec<AnyIssue> = Vec::new();
    let mut g: usize = 0;
    proof {
        assert(spec_unsync_selected(groups, 0) =~= Seq::<
            (SimilarDependency, Seq<(VersionModel, Seq<char>)>),
        >::empty());
    }
    while g < fams.len()
        invariant
            g <= fams@.len(),
            group_model == (|g: (SimilarDependency, Vec<(SemVersion, String)>)|
                (g.0, g.1@.map_values(|p: (SemVersion, String)| (p.0.model(), p.1@)))),
            fams@.map_values(group_model) == groups,
            ({
                let sel = spec_unsync_selected(groups, g as int);
                &&& out@.len() == sel.len()
                &&& forall|k: int|
                    0 <= k < out@.len() ==> ((#[trigger] out@[k]) matches
                        AnyIssue::UnsyncSimilarDependencies(u) && !u.fixed && u.family == sel[k].0
                        && u.versions@.map_values(
                        |p: (SemVersion, String)| (p.0.model(), p.1@),
                    ) == sel[k].1)
            }),
        decreases fams@.len() - g,
    {
        proof {
            assert(groups[g as int] == group_model(fams@[g as int]));
        }
        if fams[g].1.len() >= 2 {
            let copy = duplicate_entries(&fams[g].1);
            let issue = UnsyncSimilarDependenciesIssue::new(fams[g].0, copy);
            let ghost sel0 = spec_unsync_selected(groups, g as int);
            out.push(AnyIssue::UnsyncSimilarDependencies(issue));
            proof {
                assert(spec_unsync_selected(groups, g + 1) =~= sel0.push(groups[g as int]));
            }
        } else {
            proof {
                assert(spec_unsync_selected(groups, g + 1) =~= spec_unsync_selected(
                    groups,
                    g as int,
                ));
            }
        }
        g = g + 1;
    }
    proof {
        assert(groups.len() == fams@.len());
    }
    out
}

/// Prefixes chain: a prefix of a prefix is a prefix.
proof fn lemma_prefix_trans(
    a: Seq<(PackageType, AnyIssue)>,
    b: Seq<(PackageType, AnyIssue)>,
    c: Seq<(PackageType, AnyIssue)>,
)
    requires
        a.is_prefix_of(b),
        b.is_prefix_of(c),
    ensures
        a.is_prefix_of(c),
{
    assert(c.take(a.len() as int) =~= c.take(b.len() as int).take(a.len() as int));
    assert(c.take(b.len() as int).take(a.len() as int) =~= b.take(a.len() as int));
}

/// A chain of prefixes splits a suffix at the middle stage.
proof fn lemma_prefix_split(
    a_len: int,
    b: Seq<(PackageType, AnyIssue)>,
    c: Seq<(PackageType, AnyIssue)>,
)
    requires
        b.is_prefix_of(c),
        0 <= a_len <= b.len(),
    ensures
        c.skip(a_len) == b.skip(a_len) + c.skip(b.len() as int),
{
    assert forall|j: int| 0 <= j < c.len() - a_len implies c.skip(a_len)[j] == (b.skip(a_len)
        + c.skip(b.len() as int))[j] by {
        if j < b.len() - a_len {
            assert(b[a_len + j] == c.take(b.len() as int)[a_len + j]);
        }
    }
    assert(c.skip(a_len) =~= b.skip(a_len) + c.skip(b.len() as int));
}

/// Appending keeps every earlier prefix a prefix.
proof fn lemma_prefix_push(
    a: Seq<(PackageType, AnyIssue)>,
    b: Seq<(PackageType, AnyIssue)>,
    x: (PackageType, AnyIssue),
)
    requires
        a.is_prefix_of(b),
    ensures
        a.is_prefix_of(b.push(x)),
{
    assert(b.push(x).take(a.len() as int) =~= b.take(a.len() as int));
}

/// No two entries carry one dependency name.
pub open spec fn spec_names_unique(s: Seq<(String, SemVersion)>) -> bool {
    forall|i: int, j: int|
        0 <= i < j < s.len() ==> (#[trigger] s[i]).0@ != (#[trigger] s[j]).0@
}

proof fn lemma_find_name_none(s: Seq<(String, SemVersion)>, name: Seq<char>, i: int)
    requires
        0 <= i <= s.len(),
        spec_find_name(s, name, i) >= s.len(),
    ensures
        forall|j: int| i <= j < s.len() ==> (#[trigger] s[j]).0@ != name,
    decreases s.len() - i,
{
    if i < s.len() {
        lemma_find_name_none(s, name, i + 1);
    }
}

proof fn lemma_upsert_unique(s: Seq<(String, SemVersion)>, name: String, version: SemVersion)
    requires
        spec_names_unique(s),
    ensures
        spec_names_unique(spec_upsert(s, name, version)),
{
    let i = spec_find_name(s, name@, 0);
    let r = spec_upsert(s, name, version);
    if i < s.len() {
        lemma_find_name_at(s, name@, 0);
        assert forall|a: int, b: int|
            0 <= a < b < r.len() implies (#[trigger] r[a]).0@ != (#[trigger] r[b]).0@ by {
            assert(s[a].0@ != s[b].0@);
            if a == i {
                assert(r[a].0@ == s[i].0@);
            }
            if b == i {
                assert(r[b].0@ == s[i].0@);
            }
        }
    } else {
        lemma_find_name_none(s, name@, 0);
        assert forall|a: int, b: int|
            0 <= a < b < r.len() implies (#[trigger] r[a]).0@ != (#[trigger] r[b]).0@ by {
            if b < r.len() - 1 {
                assert(s[a].0@ != s[b].0@);
            } else {
                assert(s[a].0@ != name@);
            }
        }
    }
}

proof fn lemma_find_name_at(s: Seq<(String, SemVersion)>, name: Seq<char>, i: int)
    requires
        0 <= i <= s.len(),
        spec_find_name(s, name, i) < s.len(),
    ensures
        ({
            let f = spec_find_name(s, name, i);
            i <= f < s.len() && s[f].0@ == name
        }),
    decreases s.len() - i,
{
    if i < s.len() && s[i].0@ != name {
        lemma_find_name_at(s, name, i + 1);
    }
}

proof fn lemma_extend_unique(b: Seq<(String, SemVersion)>, m: Seq<(String, SemVersion)>)
    requires
        spec_names_unique(b),
    ensures
        spec_names_unique(spec_extend_deps(b, m)),
    decreases m.len(),
{
    if m.len() > 0 {
        lemma_extend_unique(b, m.drop_last());
        lemma_upsert_unique(spec_extend_deps(b, m.drop_last()), m.last().0, m.last().1);
    }
}

proof fn lemma_agg_find_none(
    s: Seq<(String, Vec<(String, SemVersion)>)>,
    name: Seq<char>,
    i: int,
)
    requires
        0 <= i <= s.len(),
        forall|j: int| i <= j < s.len() ==> (#[trigger] s[j]).0@ != name,
    ensures
        spec_agg_find(s, name, i) == s.len(),
    decreases s.len() - i,
{
    if i < s.len() {
        lemma_agg_find_none(s, name, i + 1);
    }
}

/// Joins a manifest's `dependencies` and `devDependencies` and feeds every
/// entry whose version is usable into the aggregate under the manifest's
/// path. Feeding an empty aggregate leaves every opened group with exactly
/// one entry: one manifest alone never makes a dependency diverge.
#[verifier::rlimit(100)]
#[verifier::spinoff_prover]
fn aggregate_declarations(
    all_dependencies: &mut Vec<(String, Vec<(String, SemVersion)>)>,
    package: &Package,
)
    ensures
        spec_manifest_fed(package, old(all_dependencies)@, final(all_dependencies)@),
        old(all_dependencies)@.len() == 0 ==> forall|g: int|
            0 <= g < final(all_dependencies)@.len()
                ==> (#[trigger] final(all_dependencies)@[g]).1@.len() == 1,
{
    let ghost agg0 = old(all_dependencies)@;
    let ghost was_empty = agg0.len() == 0;
    let deps = package.get_dependencies();
    let ghost dwit = deps;
    let dev_deps = package.get_dev_dependencies();
    let ghost devwit = dev_deps;
    let mut joined: Vec<(String, SemVersion)> = Vec::new();
    proof {
        assert(joined@ =~= Seq::<(String, SemVersion)>::empty());
        assert(spec_names_unique(joined@));
    }
    match deps {
        Some(d) => {
            let ghost dv = d@;
            joined = extend_deps(joined, d);
            proof {
                lemma_extend_unique(Seq::<(String, SemVersion)>::empty(), dv);
            }
        },
        None => {},
    }
    proof {
        assert(spec_names_unique(joined@));
    }
    match dev_deps {
        Some(d) => {
            let ghost j1 = joined@;
            let ghost dv = d@;
            joined = extend_deps(joined, d);
            proof {
                lemma_extend_unique(j1, dv);
            }
        },
        None => {},
    }
    let ghost joined0 = joined@;
    proof {
        assert(spec_names_unique(joined0));
        assert(joined0 == spec_joined_of(&dwit, &devwit));
        assert(joined0.take(0) =~= Seq::<(String, SemVersion)>::empty());
        assert(spec_agg_fed(agg0, joined0.take(0), package.path@, all_dependencies@));
    }
    let mut rest = joined;
    let ghost mut k: int = 0;
    while rest.len() > 0
        invariant
            0 <= k <= joined0.len(),
            rest@ == joined0.skip(k),
            spec_names_unique(joined0),
            agg0 == old(all_dependencies)@,
            was_empty == (agg0.len() == 0),
            spec_agg_fed(agg0, joined0.take(k), package.path@, all_dependencies@),
            was_empty ==> forall|g: int|
                0 <= g < all_dependencies@.len() ==> (#[trigger] all_dependencies@[g]).1@.len()
                    == 1,
            was_empty ==> forall|g: int|
                0 <= g < all_dependencies@.len() ==> exists|j: int|
                    0 <= j < k && (#[trigger] all_dependencies@[g]).0@ == joined0[j].0@,
        decreases rest@.len(),
    {
        proof {
            assert(rest@[0] == joined0[k]);
        }
        let pair = rest.remove(0);
        let (name, version) = pair;
        let ghost namev = name;
        let ghost verv = version;
        let ghost mid = all_dependencies@;
        if version.is_valid() {
            proof {
                if was_empty {
                    assert forall|j: int|
                        0 <= j < mid.len() implies (#[trigger] mid[j]).0@ != name@ by {
                        let j2 = choose|j2: int|
                            0 <= j2 < k && (#[trigger] mid[j]).0@ == joined0[j2].0@;
                        assert(joined0[j2].0@ != joined0[k].0@);
                    }
                    lemma_agg_find_none(mid, name@, 0);
                }
            }
            let path = package.get_path();
            let ghost pathv = path;
            agg_add(all_dependencies, name, path, version);
            proof {
                assert(spec_agg_step(
                    mid,
                    joined0[k].0@,
                    joined0[k].1,
                    package.path@,
                    all_dependencies@,
                )) by {
                    let pr = (pathv, verv);
                    assert(pr.0 == pathv && pr.1 == verv);
                    assert(pr.0@ == package.path@);
                    let g = spec_agg_find(mid, namev@, 0);
                    if g < mid.len() {
                        assert(all_dependencies@[g].1@ == mid[g].1@.push(pr));
                    } else {
                        assert(all_dependencies@.last().1@ == seq![pr]);
                    }
                }
                if was_empty {
                    assert forall|g: int|
                        0 <= g < all_dependencies@.len() implies (
                        #[trigger] all_dependencies@[g]).1@.len() == 1 by {
                        if g < mid.len() {
                            assert(all_dependencies@[g] == mid[g]);
                        }
                    }
                    assert forall|g: int|
                        0 <= g < all_dependencies@.len() implies exists|j: int|
                            0 <= j < k + 1 && (#[trigger] all_dependencies@[g]).0@ == joined0[
                            j].0@ by {
                        if g < mid.len() {
                            assert(all_dependencies@[g] == mid[g]);
                            let j2 = choose|j2: int|
                                0 <= j2 < k && (#[trigger] mid[g]).0@ == joined0[j2].0@;
                            assert(all_dependencies@[g].0@ == joined0[j2].0@);
                        } else {
                            assert(all_dependencies@[g].0@ == joined0[k].0@);
                        }
                    }
                }
            }
        }
        proof {
            assert(joined0.take(k + 1).drop_last() =~= joined0.take(k));
            assert(joined0.take(k + 1).last() == joined0[k]);
            lemma_fed_extend(agg0, joined0, package.path@, k, mid, all_dependencies@);
            assert(joined0.skip(k).skip(1) =~= joined0.skip(k + 1));
            k = k + 1;
        }
    }
    proof {
        assert(joined0.take(joined0.len() as int) =~= joined0);
        assert(spec_parsed_opt(&package.manifest.dependencies, &dwit));
        assert(spec_parsed_opt(&package.manifest.dev_dependencies, &devwit));
        assert(spec_manifest_fed(package, agg0, all_dependencies@));
    }
}

/// The entry stands against this package's directory and carries this
/// finding.
pub open spec fn spec_pkg_entry(
    e: (PackageType, AnyIssue),
    path: Seq<char>,
    issue: AnyIssue,
) -> bool {
    (e.0 matches PackageType::Package(q) && q@ == path) && e.1 == issue
}

/// The four per-manifest dependency checks of one package, in rule order.
pub open spec fn spec_manifest_check_findings(p: &Package) -> Seq<Option<AnyIssue>> {
    seq![
        crate::packages::spec_check_deps(
            &p.manifest.dependencies,
            crate::rules::empty_dependencies::DependencyKind::Dependencies,
        ),
        crate::packages::spec_check_deps(
            &p.manifest.dev_dependencies,
            crate::rules::empty_dependencies::DependencyKind::DevDependencies,
        ),
        crate::packages::spec_check_deps(
            &p.manifest.peer_dependencies,
            crate::rules::empty_dependencies::DependencyKind::PeerDependencies,
        ),
        crate::packages::spec_check_deps(
            &p.manifest.optional_dependencies,
            crate::rules::empty_dependencies::DependencyKind::OptionalDependencies,
        ),
    ]
}

/// The first `k` findings recorded against the package scope: each present
/// finding in order, unless its rule stands in the ignore list.
pub open spec fn spec_findings_recorded(
    ig: Seq<Seq<char>>,
    path: Seq<char>,
    findings: Seq<Option<AnyIssue>>,
    k: int,
    seg: Seq<(PackageType, AnyIssue)>,
) -> bool
    decreases k,
{
    if k <= 0 {
        seg.len() == 0
    } else {
        match findings[k - 1] {
            Option::Some(i) => if !ig.contains(i.spec_name()) {
                seg.len() > 0 && spec_pkg_entry(seg.last(), path, i) && spec_findings_recorded(
                    ig,
                    path,
                    findings,
                    k - 1,
                    seg.drop_last(),
                )
            } else {
                spec_findings_recorded(ig, path, findings, k - 1, seg)
            },
            Option::None => spec_findings_recorded(ig, path, findings, k - 1, seg),
        }
    }
}

/// The first `k` raw findings recorded against the package scope, in
/// order, unless their rule stands in the ignore list.
pub open spec fn spec_raw_recorded(
    ig: Seq<Seq<char>>,
    path: Seq<char>,
    items: Seq<AnyIssue>,
    k: int,
    seg: Seq<(PackageType, AnyIssue)>,
) -> bool
    decreases k,
{
    if k <= 0 {
        seg.len() == 0
    } else {
        if !ig.contains(items[k - 1].spec_name()) {
            seg.len() > 0 && spec_pkg_entry(seg.last(), path, items[k - 1]) && spec_raw_recorded(
                ig,
                path,
                items,
                k - 1,
                seg.drop_last(),
            )
        } else {
            spec_raw_recorded(ig, path, items, k - 1, seg)
        }
    }
}

/// The type-definitions segment one package records: one pinned finding
/// when the package is private and parsed runtime dependencies hold
/// `@types/*` names and the rule is not ignored; nothing otherwise.
pub open spec fn spec_types_recorded(
    ig: Seq<Seq<char>>,
    p: &Package,
    d: Seq<(String, SemVersion)>,
    seg: Seq<(PackageType, AnyIssue)>,
) -> bool {
    let names = spec_types_packages(d);
    let owed = (p.manifest.private matches Some(true)) && names.len() > 0;
    if owed && !ig.contains("types-in-dependencies"@) {
        &&& seg.len() == 1
        &&& (seg[0].0 matches PackageType::Package(q) && q@ == p.path@)
        &&& (seg[0].1 matches AnyIssue::TypesInDependencies(t) && !t.fixed && t.packages@
            .map_values(|p: String| p@) == names)
    } else {
        seg.len() == 0
    }
}

/// One aggregate write: the entry joins the first group of its name, or a
/// fresh group opens at the end.
pub open spec fn spec_agg_step(
    a0: Seq<(String, Vec<(String, SemVersion)>)>,
    name: Seq<char>,
    version: SemVersion,
    path: Seq<char>,
    a1: Seq<(String, Vec<(String, SemVersion)>)>,
) -> bool {
    let g = spec_agg_find(a0, name, 0);
    if g < a0.len() {
        &&& a1.len() == a0.len()
        &&& (forall|h: int| 0 <= h < a1.len() && h != g ==> #[trigger] a1[h] == a0[h])
        &&& a1[g].0 == a0[g].0
        &&& exists|pr: (String, SemVersion)|
            a1[g].1@ == a0[g].1@.push(pr) && (#[trigger] pr.0)@ == path && pr.1 == version
    } else {
        &&& a1.len() == a0.len() + 1
        &&& (forall|h: int| 0 <= h < a0.len() ==> #[trigger] a1[h] == a0[h])
        &&& a1.last().0@ == name
        &&& exists|pr: (String, SemVersion)|
            a1.last().1@ == seq![pr] && (#[trigger] pr.0)@ == path && pr.1 == version
    }
}

/// Marks a candidate intermediate aggregate state.
pub open spec fn spec_agg_stage(mid: Seq<(String, Vec<(String, SemVersion)>)>) -> bool {
    true
}

/// The aggregate after the joined entries are fed in under this
/// manifest's path: each usable entry written in order, the rest skipped.
pub open spec fn spec_agg_fed(
    a0: Seq<(String, Vec<(String, SemVersion)>)>,
    entries: Seq<(String, SemVersion)>,
    path: Seq<char>,
    a1: Seq<(String, Vec<(String, SemVersion)>)>,
) -> bool
    decreases entries.len(),
{
    if entries.len() == 0 {
        a1 == a0
    } else {
        exists|mid: Seq<(String, Vec<(String, SemVersion)>)>|
            #![trigger spec_agg_stage(mid)]
            spec_agg_stage(mid) && spec_agg_fed(a0, entries.drop_last(), path, mid) && (if entries
                .last().1.spec_valid() {
                spec_agg_step(mid, entries.last().0@, entries.last().1, path, a1)
            } else {
                a1 == mid
            })
    }
}

/// Feeding one more entry extends the aggregate relation by one step.
proof fn lemma_fed_extend(
    a0: Seq<(String, Vec<(String, SemVersion)>)>,
    entries: Seq<(String, SemVersion)>,
    path: Seq<char>,
    k: int,
    mid: Seq<(String, Vec<(String, SemVersion)>)>,
    a1: Seq<(String, Vec<(String, SemVersion)>)>,
)
    requires
        0 <= k < entries.len(),
        spec_agg_fed(a0, entries.take(k), path, mid),
        entries[k].1.spec_valid() ==> spec_agg_step(mid, entries[k].0@, entries[k].1, path, a1),
        !entries[k].1.spec_valid() ==> a1 == mid,
    ensures
        spec_agg_fed(a0, entries.take(k + 1), path, a1),
{
    let pre = entries.take(k + 1);
    assert(pre.drop_last() =~= entries.take(k));
    assert(pre.last() == entries[k]);
    assert(spec_agg_stage(mid));
    assert(spec_agg_fed(a0, pre.drop_last(), path, mid));
    if entries[k].1.spec_valid() {
        assert(spec_agg_step(mid, pre.last().0@, pre.last().1, path, a1));
    }
    assert(spec_agg_fed(a0, pre, path, a1));
}

/// The parsed form of one optional raw dependency map.
pub open spec fn spec_parsed_opt(
    raw: &Option<Vec<(String, String)>>,
    d: &Option<Vec<(String, SemVersion)>>,
) -> bool {
    &&& (raw is None <==> d is None)
    &&& (raw matches Some(rv) ==> (d matches Some(dv) && crate::packages::spec_parsed_rel(
        rv@,
        dv@,
    )))
}

/// The joined dependency list of a manifest, given its parsed maps.
pub open spec fn spec_joined_of(
    d: &Option<Vec<(String, SemVersion)>>,
    dev: &Option<Vec<(String, SemVersion)>>,
) -> Seq<(String, SemVersion)> {
    let j1 = match d {
        Option::Some(dv) => spec_extend_deps(Seq::empty(), dv@),
        Option::None => Seq::empty(),
    };
    match dev {
        Option::Some(xv) => spec_extend_deps(j1, xv@),
        Option::None => j1,
    }
}

/// The type-definitions segment for an optional parsed map: empty when
/// the manifest has no runtime map.
pub open spec fn spec_types_seg(
    ig: Seq<Seq<char>>,
    p: &Package,
    d: &Option<Vec<(String, SemVersion)>>,
    st: Seq<(PackageType, AnyIssue)>,
) -> bool {
    match d {
        Option::Some(dv) => spec_types_recorded(ig, p, dv@, st),
        Option::None => st.len() == 0,
    }
}

/// The ignore-package list covers this package.
pub open spec fn spec_package_ignored(args: &Args, p: &Package) -> bool {
    exists|k: int|
        0 <= k < args.ignore_package@.len() && p.spec_ignored_by(
            (#[trigger] args.ignore_package@[k])@,
        )
}

/// One member package's whole contribution to the run: nothing when the
/// ignore-package list covers it; otherwise the four manifest checks, the
/// type-definitions finding and the similar-family findings, in that
/// order, each ignore-filtered, and its usable declarations fed into the
/// aggregate.
pub open spec fn spec_package_checked(
    args: &Args,
    p: Package,
    a0: Seq<(String, Vec<(String, SemVersion)>)>,
    a1: Seq<(String, Vec<(String, SemVersion)>)>,
    seg: Seq<(PackageType, AnyIssue)>,
) -> bool {
    let ig = args.ignore_rule@.map_values(|p: String| p@);
    if spec_package_ignored(args, &p) {
        seg.len() == 0 && a1 == a0
    } else {
        exists|
            d: Option<Vec<(String, SemVersion)>>,
            dev: Option<Vec<(String, SemVersion)>>,
            u: Seq<AnyIssue>,
            s4: Seq<(PackageType, AnyIssue)>,
            st: Seq<(PackageType, AnyIssue)>,
            su: Seq<(PackageType, AnyIssue)>,
        |
            #![trigger spec_parsed_opt(&p.manifest.dependencies, &d),
                spec_parsed_opt(&p.manifest.dev_dependencies, &dev),
                spec_findings_recorded(ig, p.path@, spec_manifest_check_findings(&p), 4, s4),
                spec_types_seg(ig, &p, &d, st),
                spec_raw_recorded(ig, p.path@, u, u.len() as int, su)]
            {
                let joined = spec_joined_of(&d, &dev);
                &&& spec_parsed_opt(&p.manifest.dependencies, &d)
                &&& spec_parsed_opt(&p.manifest.dev_dependencies, &dev)
                &&& seg == s4 + st + su
                &&& spec_findings_recorded(ig, p.path@, spec_manifest_check_findings(&p), 4, s4)
                &&& spec_types_seg(ig, &p, &d, st)
                &&& spec_unsync_result(joined, u)
                &&& spec_raw_recorded(ig, p.path@, u, u.len() as int, su)
                &&& spec_agg_fed(a0, joined, p.path@, a1)
            }
    }
}

/// Marks one stage of the per-package fold.
pub open spec fn spec_fold_stage(
    mid: Seq<(String, Vec<(String, SemVersion)>)>,
    s1: Seq<(PackageType, AnyIssue)>,
    s2: Seq<(PackageType, AnyIssue)>,
) -> bool {
    true
}

/// The first `k` member packages' contributions, in discovery order.
pub open spec fn spec_checked_packages(
    args: &Args,
    packages: Seq<Package>,
    a0: Seq<(String, Vec<(String, SemVersion)>)>,
    a1: Seq<(String, Vec<(String, SemVersion)>)>,
    seg: Seq<(PackageType, AnyIssue)>,
) -> bool
    decreases packages.len(),
{
    if packages.len() == 0 {
        seg.len() == 0 && a1 == a0
    } else {
        exists|
            mid: Seq<(String, Vec<(String, SemVersion)>)>,
            s1: Seq<(PackageType, AnyIssue)>,
            s2: Seq<(PackageType, AnyIssue)>,
        |
            #![trigger spec_fold_stage(mid, s1, s2)]
            spec_fold_stage(mid, s1, s2) && seg == s1 + s2 && spec_checked_packages(
                args,
                packages.drop_last(),
                a0,
                mid,
                s1,
            ) && spec_package_checked(args, packages.last(), mid, a1, s2)
    }
}

/// A manifest's declarations fed into the aggregate: the parsed, joined
/// dependency maps written in under its path.
pub open spec fn spec_manifest_fed(
    p: &Package,
    a0: Seq<(String, Vec<(String, SemVersion)>)>,
    a1: Seq<(String, Vec<(String, SemVersion)>)>,
) -> bool {
    exists|d: Option<Vec<(String, SemVersion)>>, dev: Option<Vec<(String, SemVersion)>>|
        #![trigger spec_parsed_opt(&p.manifest.dependencies, &d),
            spec_parsed_opt(&p.manifest.dev_dependencies, &dev)]
        {
            let joined = spec_joined_of(&d, &dev);
            &&& spec_parsed_opt(&p.manifest.dependencies, &d)
            &&& spec_parsed_opt(&p.manifest.dev_dependencies, &dev)
            &&& spec_agg_fed(a0, joined, p.path@, a1)
        }
}

/// Whether an aggregated group owes a divergence finding: two or more
/// entries whose versions do not all agree, its name not covered by the
/// ignore-dependency list.
pub open spec fn spec_divergence_owed(
    ignore_dep: Seq<Seq<char>>,
    group: (String, Vec<(String, SemVersion)>),
) -> bool {
    &&& group.1@.len() > 1
    &&& !(forall|i: int, j: int|
        0 <= i < group.1@.len() && 0 <= j < group.1@.len() ==> (#[trigger] group.1@[
        i]).1.spec_same(&(#[trigger] group.1@[j]).1))
    &&& !spec_dep_ignored(ignore_dep, group.0@, group.1@)
}

/// The divergence findings the first `k` aggregated groups record, in
/// group order: exactly one pinned finding per owed group, unless the rule
/// itself stands in the ignore-rule list.
pub open spec fn spec_div_recorded(
    ig: Seq<Seq<char>>,
    ignore_dep: Seq<Seq<char>>,
    select: Option<crate::args::AutofixSelect>,
    groups: Seq<(String, Vec<(String, SemVersion)>)>,
    k: int,
    seg: Seq<(PackageType, AnyIssue)>,
) -> bool
    decreases k,
{
    if k <= 0 {
        seg.len() == 0
    } else {
        if spec_divergence_owed(ignore_dep, groups[k - 1]) && !ig.contains(
            "multiple-dependency-versions"@,
        ) {
            &&& seg.len() > 0
            &&& seg.last().0 == PackageType::Workspace
            &&& (seg.last().1 matches AnyIssue::MultipleDependencyVersions(m) && m.name@
                == groups[k - 1].0@ && m.select == select && !m.fixed && m.wf() && m.versions@
                .to_multiset() == groups[k - 1].1@.to_multiset())
            &&& spec_div_recorded(ig, ignore_dep, select, groups, k - 1, seg.drop_last())
        } else {
            spec_div_recorded(ig, ignore_dep, select, groups, k - 1, seg)
        }
    }
}

/// Records the four per-manifest dependency checks for one package: the
/// appended entries are exactly the present findings, in rule order,
/// ignore-filtered, each against the package's scope.
#[verifier::rlimit(100)]
#[verifier::spinoff_prover]
fn record_manifest_checks(issues: &mut IssuesList, package: &Package)
    requires
        old(issues).wf(),
    ensures
        final(issues).wf(),
        final(issues).ignored_issues == old(issues).ignored_issues,
        old(issues).entries@.is_prefix_of(final(issues).entries@),
        spec_findings_recorded(
            old(issues).ignored_issues@.map_values(|p: String| p@),
            package.path@,
            spec_manifest_check_findings(package),
            4,
            final(issues).entries@.skip(old(issues).entries@.len() as int),
        ),
{
    let ghost entries0 = old(issues).entries@;
    let ghost n0 = entries0.len() as int;
    let ghost ig = issues.ignored_issues@.map_values(|p: String| p@);
    let ghost f4 = spec_manifest_check_findings(package);
    proof {
        assert(entries0.is_prefix_of(issues.entries@));
        assert(f4.len() == 4);
        assert(f4[0] == crate::packages::spec_check_deps(
            &package.manifest.dependencies,
            crate::rules::empty_dependencies::DependencyKind::Dependencies,
        ));
        assert(f4[1] == crate::packages::spec_check_deps(
            &package.manifest.dev_dependencies,
            crate::rules::empty_dependencies::DependencyKind::DevDependencies,
        ));
        assert(f4[2] == crate::packages::spec_check_deps(
            &package.manifest.peer_dependencies,
            crate::rules::empty_dependencies::DependencyKind::PeerDependencies,
        ));
        assert(f4[3] == crate::packages::spec_check_deps(
            &package.manifest.optional_dependencies,
            crate::rules::empty_dependencies::DependencyKind::OptionalDependencies,
        ));
        assert(issues.entries@.skip(n0) =~= Seq::<(PackageType, AnyIssue)>::empty());
        assert(spec_findings_recorded(ig, package.path@, f4, 0, issues.entries@.skip(n0)));
    }
    let ghost e0 = issues.entries@;
    issues.add(PackageType::Package(package.get_path()), package.check_dependencies());
    proof {
        if issues.entries@ != e0 {
            lemma_prefix_push(entries0, e0, issues.entries@.last());
            assert(issues.entries@ =~= e0.push(issues.entries@.last()));
            assert(issues.entries@.skip(n0) =~= e0.skip(n0).push(issues.entries@.last()));
            assert(issues.entries@.skip(n0).drop_last() =~= e0.skip(n0));
        }
        assert(spec_findings_recorded(ig, package.path@, f4, 1, issues.entries@.skip(n0)));
    }
    let ghost e1 = issues.entries@;
    issues.add(PackageType::Package(package.get_path()), package.check_dev_dependencies());
    proof {
        if issues.entries@ != e1 {
            lemma_prefix_push(entries0, e1, issues.entries@.last());
            assert(issues.entries@ =~= e1.push(issues.entries@.last()));
            assert(issues.entries@.skip(n0) =~= e1.skip(n0).push(issues.entries@.last()));
            assert(issues.entries@.skip(n0).drop_last() =~= e1.skip(n0));
        }
        assert(spec_findings_recorded(ig, package.path@, f4, 2, issues.entries@.skip(n0)));
    }
    let ghost e2 = issues.entries@;
    issues.add(PackageType::Package(package.get_path()), package.check_peer_dependencies());
    proof {
        if issues.entries@ != e2 {
            lemma_prefix_push(entries0, e2, issues.entries@.last());
            assert(issues.entries@ =~= e2.push(issues.entries@.last()));
            assert(issues.entries@.skip(n0) =~= e2.skip(n0).push(issues.entries@.last()));
            assert(issues.entries@.skip(n0).drop_last() =~= e2.skip(n0));
        }
        assert(spec_findings_recorded(ig, package.path@, f4, 3, issues.entries@.skip(n0)));
    }
    let ghost e3 = issues.entries@;
    issues.add(
        PackageType::Package(package.get_path()),
        package.check_optional_dependencies(),
    );
    proof {
        if issues.entries@ != e3 {
            lemma_prefix_push(entries0, e3, issues.entries@.last());
            assert(issues.entries@ =~= e3.push(issues.entries@.last()));
            assert(issues.entries@.skip(n0) =~= e3.skip(n0).push(issues.entries@.last()));
            assert(issues.entries@.skip(n0).drop_last() =~= e3.skip(n0));
        }
        assert(spec_findings_recorded(ig, package.path@, f4, 4, issues.entries@.skip(n0)));
    }
}

/// Records the type-definitions finding for one package: a private package
/// whose parsed runtime dependencies hold `@types/*` names gets exactly one
/// finding carrying exactly those names in declaration order; any other
/// package, and an ignored rule, records nothing.
fn record_types(issues: &mut IssuesList, package: &Package, d: &Vec<(String, SemVersion)>)
    requires
        old(issues).wf(),
    ensures
        final(issues).wf(),
        final(issues).ignored_issues == old(issues).ignored_issues,
        old(issues).entries@.is_prefix_of(final(issues).entries@),
        spec_types_recorded(
            old(issues).ignored_issues@.map_values(|p: String| p@),
            package,
            d@,
            final(issues).entries@.skip(old(issues).entries@.len() as int),
        ),
{
    let ghost entries0 = old(issues).entries@;
    let ghost n0 = entries0.len() as int;
    proof {
        assert(entries0.is_prefix_of(issues.entries@));
        assert(issues.entries@.skip(n0) =~= Seq::<(PackageType, AnyIssue)>::empty());
    }
    if package.is_private() {
        let types = types_packages(d);
        if types.len() > 0 {
            let ghost e0 = issues.entries@;
            issues.add_raw(
                PackageType::Package(package.get_path()),
                AnyIssue::TypesInDependencies(TypesInDependenciesIssue::new(types)),
            );
            proof {
                if issues.entries@ != e0 {
                    lemma_prefix_push(entries0, e0, issues.entries@.last());
                    assert(issues.entries@ =~= e0.push(issues.entries@.last()));
                    assert(issues.entries@.skip(n0) =~= seq![issues.entries@.last()]);
                }
            }
        }
    }
}

/// Records the similar-family findings for one package: exactly what
/// `unsync_issues` owes the joined dependency list, in order,
/// ignore-filtered, each against the package's scope.
fn record_unsync(issues: &mut IssuesList, package: &Package, joined: &Vec<(String, SemVersion)>)
    requires
        old(issues).wf(),
    ensures
        final(issues).wf(),
        final(issues).ignored_issues == old(issues).ignored_issues,
        old(issues).entries@.is_prefix_of(final(issues).entries@),
        exists|u: Seq<AnyIssue>|
            #![trigger spec_unsync_result(joined@, u)]
            spec_unsync_result(joined@, u) && spec_raw_recorded(
                old(issues).ignored_issues@.map_values(|p: String| p@),
                package.path@,
                u,
                u.len() as int,
                final(issues).entries@.skip(old(issues).entries@.len() as int),
            ),
{
    let ghost entries0 = old(issues).entries@;
    let ghost n0 = entries0.len() as int;
    let ghost ig = issues.ignored_issues@.map_values(|p: String| p@);
    proof {
        assert(entries0.is_prefix_of(issues.entries@));
    }
    let mut unsync = unsync_issues(joined);
    let ghost u0 = unsync@;
    let ghost mut k: int = 0;
    proof {
        assert(issues.entries@.skip(n0) =~= Seq::<(PackageType, AnyIssue)>::empty());
        assert(spec_raw_recorded(ig, package.path@, u0, 0, issues.entries@.skip(n0)));
    }
    while unsync.len() > 0
        invariant
            issues.wf(),
            issues.ignored_issues == old(issues).ignored_issues,
            ig == old(issues).ignored_issues@.map_values(|p: String| p@),
            entries0.is_prefix_of(issues.entries@),
            entries0.len() as int == n0,
            0 <= k <= u0.len(),
            unsync@ == u0.skip(k),
            spec_raw_recorded(ig, package.path@, u0, k, issues.entries@.skip(n0)),
        decreases unsync@.len(),
    {
        proof {
            assert(unsync@[0] == u0[k]);
        }
        let ghost e0 = issues.entries@;
        let u = unsync.remove(0);
        issues.add_raw(PackageType::Package(package.get_path()), u);
        proof {
            if issues.entries@ != e0 {
                lemma_prefix_push(entries0, e0, issues.entries@.last());
                assert(issues.entries@ =~= e0.push(issues.entries@.last()));
                assert(issues.entries@.skip(n0) =~= e0.skip(n0).push(issues.entries@.last()));
                assert(issues.entries@.skip(n0).drop_last() =~= e0.skip(n0));
            }
            assert(spec_raw_recorded(ig, package.path@, u0, k + 1, issues.entries@.skip(n0)));
            assert(u0.skip(k).skip(1) =~= u0.skip(k + 1));
            k = k + 1;
        }
    }
    proof {
        assert(spec_unsync_result(joined@, u0));
        assert(k == u0.len());
    }
}

/// Feeds a manifest's joined declarations into the aggregate, in order:
/// each usable entry written in under the manifest's path, the rest
/// skipped.
#[verifier::rlimit(60)]
fn feed_aggregate(
    all_dependencies: &mut Vec<(String, Vec<(String, SemVersion)>)>,
    package: &Package,
    joined: Vec<(String, SemVersion)>,
)
    ensures
        spec_agg_fed(
            old(all_dependencies)@,
            joined@,
            package.path@,
            final(all_dependencies)@,
        ),
{
    let ghost agg0 = old(all_dependencies)@;
    let ghost joined0 = joined@;
    let mut rest = joined;
    let ghost mut k: int = 0;
    proof {
        assert(joined0.take(0) =~= Seq::<(String, SemVersion)>::empty());
        assert(spec_agg_fed(agg0, joined0.take(0), package.path@, all_dependencies@));
    }
    while rest.len() > 0
        invariant
            0 <= k <= joined0.len(),
            rest@ == joined0.skip(k),
            agg0 == old(all_dependencies)@,
            spec_agg_fed(agg0, joined0.take(k), package.path@, all_dependencies@),
        decreases rest@.len(),
    {
        proof {
            assert(rest@[0] == joined0[k]);
        }
        let pair = rest.remove(0);
        let (name, version) = pair;
        let ghost namev = name;
        let ghost verv = version;
        let ghost mid = all_dependencies@;
        if version.is_valid() {
            let path = package.get_path();
            let ghost pathv = path;
            agg_add(all_dependencies, name, path, version);
            proof {
                assert(spec_agg_step(
                    mid,
                    joined0[k].0@,
                    joined0[k].1,
                    package.path@,
                    all_dependencies@,
                )) by {
                    let pr = (pathv, verv);
                    assert(pr.0 == pathv && pr.1 == verv);
                    assert(pr.0@ == package.path@);
                    let g = spec_agg_find(mid, namev@, 0);
                    if g < mid.len() {
                        assert(all_dependencies@[g].1@ == mid[g].1@.push(pr));
                    } else {
                        assert(all_dependencies@.last().1@ == seq![pr]);
                    }
                }
            }
        }
        proof {
            lemma_fed_extend(agg0, joined0, package.path@, k, mid, all_dependencies@);
            assert(joined0.skip(k).skip(1) =~= joined0.skip(k + 1));
            k = k + 1;
        }
    }
    proof {
        assert(joined0.take(joined0.len() as int) =~= joined0);
    }
}

/// Packaging the witnesses: the component facts of one package's run
/// amount to its described contribution.
proof fn lemma_package_checked_intro(
    args: &Args,
    p: Package,
    agg0: Seq<(String, Vec<(String, SemVersion)>)>,
    agg1: Seq<(String, Vec<(String, SemVersion)>)>,
    d: Option<Vec<(String, SemVersion)>>,
    dev: Option<Vec<(String, SemVersion)>>,
    u: Seq<AnyIssue>,
    s4: Seq<(PackageType, AnyIssue)>,
    st: Seq<(PackageType, AnyIssue)>,
    su: Seq<(PackageType, AnyIssue)>,
    seg: Seq<(PackageType, AnyIssue)>,
)
    requires
        !spec_package_ignored(args, &p),
        spec_parsed_opt(&p.manifest.dependencies, &d),
        spec_parsed_opt(&p.manifest.dev_dependencies, &dev),
        seg == s4 + st + su,
        spec_findings_recorded(
            args.ignore_rule@.map_values(|p2: String| p2@),
            p.path@,
            spec_manifest_check_findings(&p),
            4,
            s4,
        ),
        spec_types_seg(args.ignore_rule@.map_values(|p2: String| p2@), &p, &d, st),
        spec_unsync_result(spec_joined_of(&d, &dev), u),
        spec_raw_recorded(
            args.ignore_rule@.map_values(|p2: String| p2@),
            p.path@,
            u,
            u.len() as int,
            su,
        ),
        spec_agg_fed(agg0, spec_joined_of(&d, &dev), p.path@, agg1),
    ensures
        spec_package_checked(args, p, agg0, agg1, seg),
{
}

/// Runs the per-package rules for one member package and feeds its
/// declarations into the aggregate: exactly the contribution
/// `spec_package_checked` describes, appended after everything already
/// recorded; a package the ignore-package list covers records nothing and
/// feeds nothing.
#[verifier::rlimit(100)]
#[verifier::spinoff_prover]
fn check_package(
    issues: &mut IssuesList,
    all_dependencies: &mut Vec<(String, Vec<(String, SemVersion)>)>,
    package: Package,
    args: &Args,
)
    requires
        old(issues).wf(),
        old(issues).ignored_issues@.map_values(|p: String| p@) == args.ignore_rule@.map_values(
            |p: String| p@,
        ),
    ensures
        final(issues).wf(),
        final(issues).ignored_issues == old(issues).ignored_issues,
        old(issues).entries@.is_prefix_of(final(issues).entries@),
        spec_package_checked(
            args,
            package,
            old(all_dependencies)@,
            final(all_dependencies)@,
            final(issues).entries@.skip(old(issues).entries@.len() as int),
        ),
{
    let ghost entries0 = old(issues).entries@;
    let ghost n0 = entries0.len() as int;
    let ghost agg0 = all_dependencies@;
    let ghost ig = args.ignore_rule@.map_values(|p: String| p@);
    if package.is_ignored(&args.ignore_package) {
        proof {
            assert(entries0.is_prefix_of(issues.entries@));
            assert(spec_package_ignored(args, &package));
            assert(issues.entries@.skip(n0) =~= Seq::<(PackageType, AnyIssue)>::empty());
        }
        return ;
    }
    proof {
        assert(!spec_package_ignored(args, &package));
    }
    record_manifest_checks(issues, &package);
    let ghost e1 = issues.entries@;
    let ghost s4 = e1.skip(n0);
    proof {
        assert(entries0.is_prefix_of(issues.entries@));
    }
    let deps = package.get_dependencies();
    let ghost dwit = deps;
    let dev_deps = package.get_dev_dependencies();
    let ghost devwit = dev_deps;
    let mut joined: Vec<(String, SemVersion)> = Vec::new();
    proof {
        assert(joined@ =~= Seq::<(String, SemVersion)>::empty());
    }
    match deps {
        Some(d) => {
            let ghost ep = issues.entries@;
            record_types(issues, &package, &d);
            proof {
                lemma_prefix_trans(entries0, ep, issues.entries@);
            }
            joined = extend_deps(joined, d);
        },
        None => {},
    }
    let ghost e2 = issues.entries@;
    let ghost st = e2.skip(e1.len() as int);
    proof {
        if dwit is None {
            assert(st.len() == 0);
        }
        assert(spec_types_seg(ig, &package, &dwit, st));
    }
    match dev_deps {
        Some(d) => {
            joined = extend_deps(joined, d);
        },
        None => {},
    }
    proof {
        assert(joined@ == spec_joined_of(&dwit, &devwit));
    }
    let ghost eu = issues.entries@;
    record_unsync(issues, &package, &joined);
    proof {
        lemma_prefix_trans(entries0, eu, issues.entries@);
    }
    let ghost e3 = issues.entries@;
    let ghost su = e3.skip(e2.len() as int);
    let ghost joined0 = joined@;
    feed_aggregate(all_dependencies, &package, joined);
    proof {
        let seg = issues.entries@.skip(n0);
        lemma_prefix_split(e1.len() as int, e2, e3);
        lemma_prefix_split(n0, e1, e2);
        assert(e3.skip(n0) =~= e2.skip(n0) + e3.skip(e2.len() as int));
        assert(e2.skip(n0) =~= e1.skip(n0) + e2.skip(e1.len() as int));
        assert(seg =~= (s4 + st) + su);
        assert(seg == s4 + st + su);
        let u = choose|u: Seq<AnyIssue>|
            #![trigger spec_unsync_result(joined0, u)]
            spec_unsync_result(joined0, u) && spec_raw_recorded(
                ig,
                package.path@,
                u,
                u.len() as int,
                su,
            );
        assert(spec_unsync_result(joined0, u) && spec_raw_recorded(
            ig,
            package.path@,
            u,
            u.len() as int,
            su,
        ));
        assert(spec_parsed_opt(&package.manifest.dependencies, &dwit));
        assert(spec_parsed_opt(&package.manifest.dev_dependencies, &devwit));
        lemma_package_checked_intro(
            args,
            package,
            agg0,
            all_dependencies@,
            dwit,
            devwit,
            u,
            s4,
            st,
            su,
            seg,
        );
        assert(spec_package_checked(args, package, agg0, all_dependencies@, seg));
    }
}

/// The findings the six root rules yield, in the order the check runs
/// them.
pub open spec fn spec_root_findings(rp: &RootPackage) -> Seq<Option<AnyIssue>> {
    seq![
        rp.spec_check_private(),
        rp.spec_check_package_manager(),
        rp.spec_check_dependencies(),
        crate::packages::spec_check_deps(
            &rp.package.manifest.dev_dependencies,
            crate::rules::empty_dependencies::DependencyKind::DevDependencies,
        ),
        crate::packages::spec_check_deps(
            &rp.package.manifest.peer_dependencies,
            crate::rules::empty_dependencies::DependencyKind::PeerDependencies,
        ),
        crate::packages::spec_check_deps(
            &rp.package.manifest.optional_dependencies,
            crate::rules::empty_dependencies::DependencyKind::OptionalDependencies,
        ),
    ]
}

/// What the first `k` of those findings put into the collection: each
/// present finding against the root scope, in order, unless its rule
/// stands in the ignore list.
pub open spec fn spec_recorded_upto(
    ignored: Seq<Seq<char>>,
    findings: Seq<Option<AnyIssue>>,
    k: int,
) -> Seq<(PackageType, AnyIssue)>
    decreases k,
{
    if k <= 0 {
        Seq::empty()
    } else {
        spec_recorded_upto(ignored, findings, k - 1) + match findings[k - 1] {
            Option::Some(i) => if ignored.contains(i.spec_name()) {
                Seq::empty()
            } else {
                seq![(PackageType::Root, i)]
            },
            Option::None => Seq::empty(),
        }
    }
}

/// One more package's contribution extends the fold.
proof fn lemma_checked_push(
    args: &Args,
    prefix: Seq<Package>,
    p: Package,
    a0: Seq<(String, Vec<(String, SemVersion)>)>,
    midv: Seq<(String, Vec<(String, SemVersion)>)>,
    a1: Seq<(String, Vec<(String, SemVersion)>)>,
    s1: Seq<(PackageType, AnyIssue)>,
    s2: Seq<(PackageType, AnyIssue)>,
)
    requires
        spec_checked_packages(args, prefix, a0, midv, s1),
        spec_package_checked(args, p, midv, a1, s2),
    ensures
        spec_checked_packages(args, prefix.push(p), a0, a1, s1 + s2),
{
    let all = prefix.push(p);
    assert(all.drop_last() =~= prefix);
    assert(all.last() == p);
    assert(spec_fold_stage(midv, s1, s2));
    assert(spec_checked_packages(args, all, a0, a1, s1 + s2));
}

/// Marks one candidate decomposition of a whole run's output.
pub open spec fn spec_run_stage(
    agg1: Seq<(String, Vec<(String, SemVersion)>)>,
    agg2: Seq<(String, Vec<(String, SemVersion)>)>,
    pkg_seg: Seq<(PackageType, AnyIssue)>,
    div_seg: Seq<(PackageType, AnyIssue)>,
) -> bool {
    true
}

/// What the resolution diagnostics put into the collection: each against
/// the workspace scope, in order, unless its rule stands in the ignore
/// list.
pub open spec fn spec_diag_recorded(
    ignored: Seq<Seq<char>>,
    diags: Seq<AnyIssue>,
    k: int,
) -> Seq<(PackageType, AnyIssue)>
    decreases k,
{
    if k <= 0 {
        Seq::empty()
    } else {
        spec_diag_recorded(ignored, diags, k - 1) + if ignored.contains(
            diags[k - 1].spec_name(),
        ) {
            Seq::empty()
        } else {
            seq![(PackageType::Workspace, diags[k - 1])]
        }
    }
}

/// Records the six root-rule findings, in order, against the root scope.
#[verifier::rlimit(100)]
fn record_root_checks(issues: &mut IssuesList, root_package: &RootPackage)
    requires
        old(issues).wf(),
    ensures
        final(issues).wf(),
        final(issues).ignored_issues == old(issues).ignored_issues,
        final(issues).entries@ == old(issues).entries@ + spec_recorded_upto(
            old(issues).ignored_issues@.map_values(|p: String| p@),
            spec_root_findings(root_package),
            6,
        ),
{
    let ghost ig = issues.ignored_issues@.map_values(|p: String| p@);
    let ghost findings = spec_root_findings(root_package);
    let ghost base = old(issues).entries@;
    proof {
        assert(findings.len() == 6);
        assert(findings[0] == root_package.spec_check_private());
        assert(findings[1] == root_package.spec_check_package_manager());
        assert(findings[2] == root_package.spec_check_dependencies());
        assert(findings[3] == crate::packages::spec_check_deps(
            &root_package.package.manifest.dev_dependencies,
            crate::rules::empty_dependencies::DependencyKind::DevDependencies,
        ));
        assert(findings[4] == crate::packages::spec_check_deps(
            &root_package.package.manifest.peer_dependencies,
            crate::rules::empty_dependencies::DependencyKind::PeerDependencies,
        ));
        assert(findings[5] == crate::packages::spec_check_deps(
            &root_package.package.manifest.optional_dependencies,
            crate::rules::empty_dependencies::DependencyKind::OptionalDependencies,
        ));
        assert(issues.entries@ =~= base + spec_recorded_upto(ig, findings, 0));
    }
    issues.add(PackageType::Root, root_package.check_private());
    proof {
        assert(issues.entries@ =~= base + spec_recorded_upto(ig, findings, 1));
    }
    issues.add(PackageType::Root, root_package.check_package_manager());
    proof {
        assert(issues.entries@ =~= base + spec_recorded_upto(ig, findings, 2));
    }
    issues.add(PackageType::Root, root_package.check_dependencies());
    proof {
        assert(issues.entries@ =~= base + spec_recorded_upto(ig, findings, 3));
    }
    issues.add(PackageType::Root, root_package.check_dev_dependencies());
    proof {
        assert(issues.entries@ =~= base + spec_recorded_upto(ig, findings, 4));
    }
    issues.add(PackageType::Root, root_package.check_peer_dependencies());
    proof {
        assert(issues.entries@ =~= base + spec_recorded_upto(ig, findings, 5));
    }
    issues.add(PackageType::Root, root_package.check_optional_dependencies());
    proof {
        assert(issues.entries@ =~= base + spec_recorded_upto(ig, findings, 6));
    }
}

/// Records the divergence findings of the aggregated groups, in group
/// order: exactly one per owed group. Groups of at most one entry never
/// record anything.
#[verifier::rlimit(100)]
#[verifier::spinoff_prover]
fn record_divergences(
    issues: &mut IssuesList,
    groups: Vec<(String, Vec<(String, SemVersion)>)>,
    args: &Args,
)
    requires
        old(issues).wf(),
        old(issues).ignored_issues@.map_values(|p: String| p@) == args.ignore_rule@.map_values(
            |p: String| p@,
        ),
    ensures
        final(issues).wf(),
        final(issues).ignored_issues == old(issues).ignored_issues,
        old(issues).entries@.is_prefix_of(final(issues).entries@),
        spec_div_recorded(
            args.ignore_rule@.map_values(|p: String| p@),
            args.ignore_dependency@.map_values(|p: String| p@),
            args.select,
            groups@,
            groups@.len() as int,
            final(issues).entries@.skip(old(issues).entries@.len() as int),
        ),
        (forall|g: int| 0 <= g < groups@.len() ==> (#[trigger] groups@[g]).1@.len() <= 1)
            ==> final(issues).entries@ == old(issues).entries@,
{
    let ghost entries0 = old(issues).entries@;
    let ghost nd = entries0.len() as int;
    let ghost igr = args.ignore_rule@.map_values(|p: String| p@);
    let ghost igdep = args.ignore_dependency@.map_values(|p: String| p@);
    let ghost groups0 = groups@;
    let ghost all_small = forall|g: int|
        0 <= g < groups0.len() ==> (#[trigger] groups0[g]).1@.len() <= 1;
    let mut rest = groups;
    let ghost mut kd: int = 0;
    proof {
        assert(entries0.is_prefix_of(issues.entries@));
        assert(issues.entries@.skip(nd) =~= Seq::<(PackageType, AnyIssue)>::empty());
        assert(spec_div_recorded(igr, igdep, args.select, groups0, 0, issues.entries@.skip(nd)));
    }
    while rest.len() > 0
        invariant
            issues.wf(),
            issues.ignored_issues == old(issues).ignored_issues,
            issues.ignored_issues@.map_values(|p: String| p@) == igr,
            igdep == args.ignore_dependency@.map_values(|p: String| p@),
            entries0.is_prefix_of(issues.entries@),
            entries0.len() as int == nd,
            0 <= kd <= groups0.len(),
            rest@ == groups0.skip(kd),
            igr == args.ignore_rule@.map_values(|p: String| p@),
            spec_div_recorded(igr, igdep, args.select, groups0, kd, issues.entries@.skip(nd)),
            all_small == (forall|g: int|
                0 <= g < groups0.len() ==> (#[trigger] groups0[g]).1@.len() <= 1),
            all_small ==> issues.entries@ == entries0,
        decreases rest@.len(),
    {
        proof {
            assert(rest@[0] == groups0[kd]);
        }
        let group = rest.remove(0);
        let ghost gwit = group;
        let (name, versions) = group;
        let ghost nmv = name;
        let ghost vsv = versions;
        proof {
            assert(gwit == groups0[kd]);
            assert(gwit.0 == nmv && gwit.1 == vsv);
        }
        let ghost e0 = issues.entries@;
        proof {
            assert(spec_divergence_owed(igdep, groups0[kd]) == (vsv@.len() > 1 && !(forall|
                i: int,
                j: int,
            |
                0 <= i < vsv@.len() && 0 <= j < vsv@.len() ==> (#[trigger] vsv@[i]).1.spec_same(
                    &(#[trigger] vsv@[j]).1,
                )) && !spec_dep_ignored(igdep, nmv@, vsv@)));
            if all_small {
                assert(groups0[kd].1@.len() <= 1);
                assert(!spec_divergence_owed(igdep, groups0[kd]));
            }
        }
        match divergence_issue(name, versions, &args.ignore_dependency, args.select) {
            Some(issue) => {
                proof {
                    assert(spec_divergence_owed(igdep, groups0[kd]));
                    assert(issue.spec_name() == "multiple-dependency-versions"@);
                }
                issues.add_raw(PackageType::Workspace, issue);
                proof {
                    if issues.entries@ != e0 {
                        lemma_prefix_push(entries0, e0, issues.entries@.last());
                        assert(issues.entries@ =~= e0.push(issues.entries@.last()));
                        assert(issues.entries@.skip(nd) =~= e0.skip(nd).push(
                            issues.entries@.last(),
                        ));
                        assert(issues.entries@.skip(nd).drop_last() =~= e0.skip(nd));
                        assert(issues.entries@.last().0 == PackageType::Workspace);
                        assert(!igr.contains("multiple-dependency-versions"@));
                    } else {
                        assert(igr.contains("multiple-dependency-versions"@));
                    }
                    assert(spec_div_recorded(igr, igdep, args.select, groups0, kd + 1, issues
                        .entries@.skip(nd)));
                }
            },
            None => {
                proof {
                    assert(!spec_divergence_owed(igdep, groups0[kd]));
                    assert(spec_div_recorded(igr, igdep, args.select, groups0, kd + 1, issues
                        .entries@.skip(nd)));
                }
            },
        }
        proof {
            assert(groups0.skip(kd).skip(1) =~= groups0.skip(kd + 1));
            kd = kd + 1;
        }
    }
    proof {
        if forall|g: int| 0 <= g < groups0.len() ==> (#[trigger] groups0[g]).1@.len() <= 1 {
            assert(all_small);
            assert(issues.entries@ == entries0);
        } else {
            let g0 = choose|g0: int|
                0 <= g0 < groups0.len() && !((#[trigger] groups0[g0]).1@.len() <= 1);
            assert(!(groups0[g0].1@.len() <= 1));
        }
    }
}

/// The check pass: every rule run over the loaded packages, the findings
/// recorded in discovery order — resolution diagnostics first, then the
/// root rules, then each package's rules in discovery order, then the
/// cross-package aggregation rules — each filtered against the ignore-rule
/// list on insertion. The aggregate joins the root's declarations with
/// every non-ignored package's. On a workspace with no member packages,
/// the collection holds exactly the diagnostics and what the root rules
/// yield, in that order.
#[verifier::rlimit(100)]
#[verifier::spinoff_prover]
pub fn collect_issues(args: &Args, packages_list: PackagesList) -> (r: IssuesList)
    ensures
        r.wf(),
        r.ignored_issues@.map_values(|p: String| p@) == args.ignore_rule@.map_values(
            |p: String| p@,
        ),
        (spec_diag_recorded(
            args.ignore_rule@.map_values(|p: String| p@),
            packages_list.packages_issues@,
            packages_list.packages_issues@.len() as int,
        ) + spec_recorded_upto(
            args.ignore_rule@.map_values(|p: String| p@),
            spec_root_findings(&packages_list.root_package),
            spec_root_findings(&packages_list.root_package).len() as int,
        )).is_prefix_of(r.entries@),
        exists|
            agg1: Seq<(String, Vec<(String, SemVersion)>)>,
            agg2: Seq<(String, Vec<(String, SemVersion)>)>,
            pkg_seg: Seq<(PackageType, AnyIssue)>,
            div_seg: Seq<(PackageType, AnyIssue)>,
        |
            #![trigger spec_run_stage(agg1, agg2, pkg_seg, div_seg)]
            {
                &&& spec_run_stage(agg1, agg2, pkg_seg, div_seg)
                &&& r.entries@ == spec_diag_recorded(
                    args.ignore_rule@.map_values(|p: String| p@),
                    packages_list.packages_issues@,
                    packages_list.packages_issues@.len() as int,
                ) + spec_recorded_upto(
                    args.ignore_rule@.map_values(|p: String| p@),
                    spec_root_findings(&packages_list.root_package),
                    spec_root_findings(&packages_list.root_package).len() as int,
                ) + pkg_seg + div_seg
                &&& spec_manifest_fed(&packages_list.root_package.package, Seq::empty(), agg1)
                &&& spec_checked_packages(args, packages_list.packages@, agg1, agg2, pkg_seg)
                &&& spec_div_recorded(
                    args.ignore_rule@.map_values(|p: String| p@),
                    args.ignore_dependency@.map_values(|p: String| p@),
                    args.select,
                    agg2,
                    agg2.len() as int,
                    div_seg,
                )
            },
        packages_list.packages@.len() == 0 ==> r.entries@ == spec_diag_recorded(
            args.ignore_rule@.map_values(|p: String| p@),
            packages_list.packages_issues@,
            packages_list.packages_issues@.len() as int,
        ) + spec_recorded_upto(
            args.ignore_rule@.map_values(|p: String| p@),
            spec_root_findings(&packages_list.root_package),
            spec_root_findings(&packages_list.root_package).len() as int,
        ),
{
    let ghost no_packages = packages_list.packages@.len() == 0;
    let ghost ig = args.ignore_rule@.map_values(|p: String| p@);
    let ghost findings = spec_root_findings(&packages_list.root_package);
    let ghost pi0 = packages_list.packages_issues@;
    let mut issues = IssuesList::new(crate::strutil::duplicate_strings(&args.ignore_rule));
    let PackagesList { root_package, packages, packages_issues } = packages_list;
    let mut packages_issues = packages_issues;
    let ghost mut d: int = 0;
    proof {
        assert(issues.entries@ =~= spec_diag_recorded(ig, pi0, 0));
    }
    while packages_issues.len() > 0
        invariant
            issues.wf(),
            issues.ignored_issues@.map_values(|p: String| p@) == ig,
            ig == args.ignore_rule@.map_values(|p: String| p@),
            0 <= d <= pi0.len(),
            packages_issues@ == pi0.skip(d),
            issues.entries@ == spec_diag_recorded(ig, pi0, d),
        decreases packages_issues@.len(),
    {
        proof {
            assert(packages_issues@[0] == pi0[d]);
        }
        let issue = packages_issues.remove(0);
        issues.add_raw(PackageType::Workspace, issue);
        proof {
            assert(issues.entries@ =~= spec_diag_recorded(ig, pi0, d + 1));
            assert(pi0.skip(d).skip(1) =~= pi0.skip(d + 1));
            d = d + 1;
        }
    }
    let ghost diag_part = spec_diag_recorded(ig, pi0, pi0.len() as int);
    proof {
        assert(issues.entries@ == diag_part);
        assert(findings.len() == 6);
    }
    record_root_checks(&mut issues, &root_package);
    proof {
        assert(issues.entries@ == diag_part + spec_recorded_upto(ig, findings, 6));
    }
    let mut all_dependencies: Vec<(String, Vec<(String, SemVersion)>)> = Vec::new();
    aggregate_declarations(&mut all_dependencies, &root_package.package);
    let ghost agg1v = all_dependencies@;
    let ghost base = diag_part + spec_recorded_upto(ig, findings, 6);
    let ghost nb = base.len() as int;
    let ghost packages0 = packages@;
    let ghost mut kp: int = 0;
    proof {
        assert(base.is_prefix_of(issues.entries@)) by {
            assert(issues.entries@.take(base.len() as int) =~= base);
        }
        assert(packages0.take(0) =~= Seq::<Package>::empty());
        assert(issues.entries@.skip(nb) =~= Seq::<(PackageType, AnyIssue)>::empty());
        assert(spec_checked_packages(
            args,
            packages0.take(0),
            agg1v,
            all_dependencies@,
            issues.entries@.skip(nb),
        ));
    }
    let mut packages = packages;
    while packages.len() > 0
        invariant
            issues.wf(),
            issues.ignored_issues@.map_values(|p: String| p@) == ig,
            ig == args.ignore_rule@.map_values(|p: String| p@),
            base == diag_part + spec_recorded_upto(ig, findings, 6),
            nb == base.len() as int,
            base.is_prefix_of(issues.entries@),
            0 <= kp <= packages0.len(),
            packages@ == packages0.skip(kp),
            spec_checked_packages(
                args,
                packages0.take(kp),
                agg1v,
                all_dependencies@,
                issues.entries@.skip(nb),
            ),
            no_packages ==> issues.entries@ == diag_part + spec_recorded_upto(ig, findings, 6)
                && packages@.len() == 0 && (forall|g: int|
                0 <= g < all_dependencies@.len() ==> (#[trigger] all_dependencies@[g]).1@.len()
                    == 1),
        decreases packages@.len(),
    {
        proof {
            assert(packages@[0] == packages0[kp]);
        }
        let package = packages.remove(0);
        let ghost pwit = package;
        let ghost e0 = issues.entries@;
        let ghost mid_agg = all_dependencies@;
        check_package(&mut issues, &mut all_dependencies, package, args);
        proof {
            lemma_prefix_trans(base, e0, issues.entries@);
            lemma_prefix_split(nb, e0, issues.entries@);
            assert(issues.entries@.skip(nb) =~= e0.skip(nb) + issues.entries@.skip(
                e0.len() as int,
            ));
            lemma_checked_push(
                args,
                packages0.take(kp),
                pwit,
                agg1v,
                mid_agg,
                all_dependencies@,
                e0.skip(nb),
                issues.entries@.skip(e0.len() as int),
            );
            assert(packages0.take(kp + 1) =~= packages0.take(kp).push(packages0[kp]));
            assert(packages0.skip(kp).skip(1) =~= packages0.skip(kp + 1));
            kp = kp + 1;
        }
    }
    let ghost pkgsegv = issues.entries@.skip(nb);
    proof {
        assert(packages0.take(packages0.len() as int) =~= packages0);
    }
    let ghost agg2v = all_dependencies@;
    let ghost igdep = args.ignore_dependency@.map_values(|p: String| p@);
    let ghost e_div = issues.entries@;
    record_divergences(&mut issues, all_dependencies, args);
    proof {
        lemma_prefix_trans(base, e_div, issues.entries@);
        let divsegv = issues.entries@.skip(e_div.len() as int);
        if no_packages {
            assert forall|g: int|
                0 <= g < agg2v.len() implies (#[trigger] agg2v[g]).1@.len() <= 1 by {
            }
            assert(issues.entries@ == e_div);
            assert(issues.entries@ =~= diag_part + spec_recorded_upto(ig, findings, 6));
        }
        assert(e_div =~= base + pkgsegv);
        assert(issues.entries@ =~= e_div + divsegv);
        assert(issues.entries@ =~= (base + pkgsegv) + divsegv);
        assert(issues.entries@ == diag_part + spec_recorded_upto(ig, findings, 6) + pkgsegv
            + divsegv) by {
            assert(issues.entries@ =~= diag_part + spec_recorded_upto(ig, findings, 6) + pkgsegv
                + divsegv);
        }
        assert(spec_run_stage(agg1v, agg2v, pkgsegv, divsegv));
        assert(spec_manifest_fed(&root_package.package, Seq::empty(), agg1v));
        assert(spec_checked_packages(args, packages0, agg1v, agg2v, pkgsegv));
        assert(spec_div_recorded(ig, igdep, args.select, agg2v, agg2v.len() as int, divsegv));
    }
    issues
}

/// The first position of a group named `name` in the aggregate, or the
/// group count.
pub open spec fn spec_agg_find(
    s: Seq<(String, Vec<(String, SemVersion)>)>,
    name: Seq<char>,
    i: int,
) -> int
    decreases s.len() - i,
{
    if i < 0 || i >= s.len() {
        s.len() as int
    } else if s[i].0@ == name {
        i
    } else {
        spec_agg_find(s, name, i + 1)
    }
}

/// Appends one declaration to the aggregate: the entry joins the first
/// group of its dependency's name, a first declaration opening a new group
/// at the end.
fn agg_add(
    agg: &mut Vec<(String, Vec<(String, SemVersion)>)>,
    name: String,
    path: String,
    version: SemVersion,
)
    ensures
        ({
            let oldv = old(agg)@;
            let newv = final(agg)@;
            let g = spec_agg_find(oldv, name@, 0);
            if g < oldv.len() {
                &&& newv.len() == oldv.len()
                &&& (forall|h: int| 0 <= h < newv.len() && h != g ==> #[trigger] newv[h] == oldv[h])
                &&& newv[g].0 == oldv[g].0
                &&& newv[g].1@ == oldv[g].1@.push((path, version))
            } else {
                &&& newv.len() == oldv.len() + 1
                &&& (forall|h: int| 0 <= h < oldv.len() ==> #[trigger] newv[h] == oldv[h])
                &&& newv.last().0 == name
                &&& newv.last().1@ == seq![(path, version)]
            }
        }),
{
    let n = agg.len();
    let mut g: usize = 0;
    while g < n
        invariant
            n == agg@.len(),
            g <= n,
            agg == old(agg),
            spec_agg_find(agg@, name@, 0) == spec_agg_find(agg@, name@, g as int),
        decreases n - g,
    {
        if str_eq(agg[g].0.as_str(), name.as_str()) {
            let ghost agg0 = agg@;
            let entry = agg.remove(g);
            let (gname, mut lst) = entry;
            let ghost lst0 = lst@;
            lst.push((path, version));
            agg.insert(g, (gname, lst));
            proof {
                assert(spec_agg_find(agg0, name@, g as int) == g as int);
                assert(agg@.len() == agg0.len());
                assert forall|h: int| 0 <= h < agg@.len() && h != g implies #[trigger] agg@[h]
                    == agg0[h] by {
                    if h < g {
                        assert(agg@[h] == agg0.remove(g as int).insert(g as int, (gname, lst))[h]);
                    }
                }
                assert(agg@[g as int].0 == agg0[g as int].0);
                assert(agg@[g as int].1@ == agg0[g as int].1@.push((path, version)));
            }
            return ;
        }
        g = g + 1;
    }
    let mut lst: Vec<(String, SemVersion)> = Vec::new();
    lst.push((path, version));
    proof {
        assert(lst@ =~= seq![(path, version)]);
    }
    agg.push((name, lst));
}

} // verus!
