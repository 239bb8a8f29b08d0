//! The rule catalogue: severity levels, the scope an issue is reported
//! against, the issue interface, and the ordered, ignore-filtered collection
//! that a check run fills.

use vstd::prelude::*;
use crate::strutil::{str_eq, vec_contains_str};

pub mod duplicated_dependency_from_root;
pub mod empty_dependencies;
pub mod multiple_dependency_versions;
pub mod non_existant_packages;
pub mod packages_without_package_json;
pub mod root_package_dependencies;
pub mod root_package_manager_field;
pub mod root_package_private_field;
pub mod types_in_dependencies;
pub mod unordered_dependencies;
pub mod unsync_similar_dependencies;

verus! {

/// How serious an issue is; a repaired issue moves to `Fixed`.
#[derive(Debug, Clone, Copy, PartialEq, Eq, Structural)]
pub enum IssueLevel {
    Error,
    Warning,
    Fixed,
}

impl IssueLevel {
    /// The level's display tag.
    pub open spec fn spec_as_str(&self) -> Seq<char> {
        match self {
            IssueLevel::Error => "⨯ error"@,
            IssueLevel::Warning => "⚠️ warning"@,
            IssueLevel::Fixed => "✓ fixed"@,
        }
    }

    /// The level's display tag.
    pub fn as_str(&self) -> (r: &'static str)
        ensures
            r@ == self.spec_as_str(),
    {
        match self {
            IssueLevel::Error => "⨯ error",
            IssueLevel::Warning => "⚠️ warning",
            IssueLevel::Fixed => "✓ fixed",
        }
    }
}

/// Where an issue applies: the whole workspace, the root manifest, or one
/// package's directory.
#[derive(Debug)]
pub enum PackageType {
    Workspace,
    Root,
    Package(String),
}

impl PackageType {
    /// Scopes are the same place: same form, and for packages the same path.
    pub open spec fn spec_same(&self, other: &PackageType) -> bool {
        match (self, other) {
            (PackageType::Workspace, PackageType::Workspace) => true,
            (PackageType::Root, PackageType::Root) => true,
            (PackageType::Package(a), PackageType::Package(b)) => a@ == b@,
            _ => false,
        }
    }

    /// A copy naming the same place.
    pub fn duplicate(&self) -> (r: PackageType)
        ensures
            r.spec_same(self),
            self.spec_same(&r),
    {
        match self {
            PackageType::Workspace => PackageType::Workspace,
            PackageType::Root => PackageType::Root,
            PackageType::Package(p) => PackageType::Package(p.clone()),
        }
    }
}

impl PartialEq for PackageType {
    fn eq(&self, other: &PackageType) -> (r: bool) {
        match (self, other) {
            (PackageType::Workspace, PackageType::Workspace) => true,
            (PackageType::Root, PackageType::Root) => true,
            (PackageType::Package(a), PackageType::Package(b)) => str_eq(a.as_str(), b.as_str()),
            _ => false,
        }
    }
}

impl vstd::std_specs::cmp::PartialEqSpecImpl for PackageType {
    open spec fn obeys_eq_spec() -> bool {
        true
    }

    open spec fn eq_spec(&self, other: &PackageType) -> bool {
        self.spec_same(other)
    }
}

/// What every rule's finding exposes: a stable machine name, a severity, a
/// rendered message and a rationale.
pub trait Issue {
    /// The stable machine name, as contracts see it.
    spec fn spec_name(&self) -> Seq<char>;

    /// The severity, as contracts see it.
    spec fn spec_level(&self) -> IssueLevel;

    /// The rendered message, as contracts see it.
    spec fn spec_message(&self) -> Seq<char>;

    /// The rationale, as contracts see it.
    spec fn spec_why(&self) -> Seq<char>;

    /// The stable machine name of the rule.
    fn name(&self) -> (r: &'static str)
        ensures
            r@ == self.spec_name(),
    ;

    /// The severity: `Error` or `Warning` when reported, `Fixed` after a
    /// successful repair.
    fn level(&self) -> (r: IssueLevel)
        ensures
            r == self.spec_level(),
    ;

    /// The rendered, human-readable message.
    fn message(&self) -> (r: String)
        ensures
            r@ == self.spec_message(),
    ;

    /// Why the rule exists.
    fn why(&self) -> (r: String)
        ensures
            r@ == self.spec_why(),
    ;
}

/// Any rule's finding, as one closed sum: the collection and the repair pass
/// dispatch over it exhaustively.
pub enum AnyIssue {
    DuplicatedDependencyFromRoot(
        duplicated_dependency_from_root::DuplicatedDependencyFromRootIssue,
    ),
    EmptyDependencies(empty_dependencies::EmptyDependenciesIssue),
    MultipleDependencyVersions(multiple_dependency_versions::MultipleDependencyVersionsIssue),
    NonExistantPackages(non_existant_packages::NonExistantPackagesIssue),
    PackagesWithoutPackageJson(packages_without_package_json::PackagesWithoutPackageJsonIssue),
    RootPackageDependencies(root_package_dependencies::RootPackageDependenciesIssue),
    RootPackageManagerField(root_package_manager_field::RootPackageManagerFieldIssue),
    RootPackagePrivateField(root_package_private_field::RootPackagePrivateFieldIssue),
    TypesInDependencies(types_in_dependencies::TypesInDependenciesIssue),
    UnorderedDependencies(unordered_dependencies::UnorderedDependenciesIssue),
    UnsyncSimilarDependencies(unsync_similar_dependencies::UnsyncSimilarDependenciesIssue),
}

impl AnyIssue {
    /// The stable machine name, as contracts see it.
    pub open spec fn spec_name(&self) -> Seq<char> {
        match self {
            AnyIssue::DuplicatedDependencyFromRoot(i) => i.spec_name(),
            AnyIssue::EmptyDependencies(i) => i.spec_name(),
            AnyIssue::MultipleDependencyVersions(i) => i.spec_name(),
            AnyIssue::NonExistantPackages(i) => i.spec_name(),
            AnyIssue::PackagesWithoutPackageJson(i) => i.spec_name(),
            AnyIssue::RootPackageDependencies(i) => i.spec_name(),
            AnyIssue::RootPackageManagerField(i) => i.spec_name(),
            AnyIssue::RootPackagePrivateField(i) => i.spec_name(),
            AnyIssue::TypesInDependencies(i) => i.spec_name(),
            AnyIssue::UnorderedDependencies(i) => i.spec_name(),
            AnyIssue::UnsyncSimilarDependencies(i) => i.spec_name(),
        }
    }

    /// The severity, as contracts see it.
    pub open spec fn spec_level(&self) -> IssueLevel {
        match self {
            AnyIssue::DuplicatedDependencyFromRoot(i) => i.spec_level(),
            AnyIssue::EmptyDependencies(i) => i.spec_level(),
            AnyIssue::MultipleDependencyVersions(i) => i.spec_level(),
            AnyIssue::NonExistantPackages(i) => i.spec_level(),
            AnyIssue::PackagesWithoutPackageJson(i) => i.spec_level(),
            AnyIssue::RootPackageDependencies(i) => i.spec_level(),
            AnyIssue::RootPackageManagerField(i) => i.spec_level(),
            AnyIssue::RootPackagePrivateField(i) => i.spec_level(),
            AnyIssue::TypesInDependencies(i) => i.spec_level(),
            AnyIssue::UnorderedDependencies(i) => i.spec_level(),
            AnyIssue::UnsyncSimilarDependencies(i) => i.spec_level(),
        }
    }

    /// The rendered message, as contracts see it.
    pub open spec fn spec_message(&self) -> Seq<char> {
        match self {
            AnyIssue::DuplicatedDependencyFromRoot(i) => i.spec_message(),
            AnyIssue::EmptyDependencies(i) => i.spec_message(),
            AnyIssue::MultipleDependencyVersions(i) => i.spec_message(),
            AnyIssue::NonExistantPackages(i) => i.spec_message(),
            AnyIssue::PackagesWithoutPackageJson(i) => i.spec_message(),
            AnyIssue::RootPackageDependencies(i) => i.spec_message(),
            AnyIssue::RootPackageManagerField(i) => i.spec_message(),
            AnyIssue::RootPackagePrivateField(i) => i.spec_message(),
            AnyIssue::TypesInDependencies(i) => i.spec_message(),
            AnyIssue::UnorderedDependencies(i) => i.spec_message(),
            AnyIssue::UnsyncSimilarDependencies(i) => i.spec_message(),
        }
    }

    /// The rationale, as contracts see it.
    pub open spec fn spec_why(&self) -> Seq<char> {
        match self {
            AnyIssue::DuplicatedDependencyFromRoot(i) => i.spec_why(),
            AnyIssue::EmptyDependencies(i) => i.spec_why(),
            AnyIssue::MultipleDependencyVersions(i) => i.spec_why(),
            AnyIssue::NonExistantPackages(i) => i.spec_why(),
            AnyIssue::PackagesWithoutPackageJson(i) => i.spec_why(),
            AnyIssue::RootPackageDependencies(i) => i.spec_why(),
            AnyIssue::RootPackageManagerField(i) => i.spec_why(),
            AnyIssue::RootPackagePrivateField(i) => i.spec_why(),
            AnyIssue::TypesInDependencies(i) => i.spec_why(),
            AnyIssue::UnorderedDependencies(i) => i.spec_why(),
            AnyIssue::UnsyncSimilarDependencies(i) => i.spec_why(),
        }
    }

    /// The stable machine name of the rule behind this finding.
    pub fn name(&self) -> (r: &'static str)
        ensures
            r@ == self.spec_name(),
    {
        match self {
            AnyIssue::DuplicatedDependencyFromRoot(i) => i.name(),
            AnyIssue::EmptyDependencies(i) => i.name(),
            AnyIssue::MultipleDependencyVersions(i) => i.name(),
            AnyIssue::NonExistantPackages(i) => i.name(),
            AnyIssue::PackagesWithoutPackageJson(i) => i.name(),
            AnyIssue::RootPackageDependencies(i) => i.name(),
            AnyIssue::RootPackageManagerField(i) => i.name(),
            AnyIssue::RootPackagePrivateField(i) => i.name(),
            AnyIssue::TypesInDependencies(i) => i.name(),
            AnyIssue::UnorderedDependencies(i) => i.name(),
            AnyIssue::UnsyncSimilarDependencies(i) => i.name(),
        }
    }

    /// The severity of this finding.
    pub fn level(&self) -> (r: IssueLevel)
        ensures
            r == self.spec_level(),
    {
        match self {
            AnyIssue::DuplicatedDependencyFromRoot(i) => i.level(),
            AnyIssue::EmptyDependencies(i) => i.level(),
            AnyIssue::MultipleDependencyVersions(i) => i.level(),
            AnyIssue::NonExistantPackages(i) => i.level(),
            AnyIssue::PackagesWithoutPackageJson(i) => i.level(),
            AnyIssue::RootPackageDependencies(i) => i.level(),
            AnyIssue::RootPackageManagerField(i) => i.level(),
            AnyIssue::RootPackagePrivateField(i) => i.level(),
            AnyIssue::TypesInDependencies(i) => i.level(),
            AnyIssue::UnorderedDependencies(i) => i.level(),
            AnyIssue::UnsyncSimilarDependencies(i) => i.level(),
        }
    }

    /// The rendered, human-readable message of this finding.
    pub fn message(&self) -> (r: String)
        ensures
            r@ == self.spec_message(),
    {
        match self {
            AnyIssue::DuplicatedDependencyFromRoot(i) => i.message(),
            AnyIssue::EmptyDependencies(i) => i.message(),
            AnyIssue::MultipleDependencyVersions(i) => i.message(),
            AnyIssue::NonExistantPackages(i) => i.message(),
            AnyIssue::PackagesWithoutPackageJson(i) => i.message(),
            AnyIssue::RootPackageDependencies(i) => i.message(),
            AnyIssue::RootPackageManagerField(i) => i.message(),
            AnyIssue::RootPackagePrivateField(i) => i.message(),
            AnyIssue::TypesInDependencies(i) => i.message(),
            AnyIssue::UnorderedDependencies(i) => i.message(),
            AnyIssue::UnsyncSimilarDependencies(i) => i.message(),
        }
    }

    /// Why the rule behind this finding exists.
    pub fn why(&self) -> (r: String)
        ensures
            r@ == self.spec_why(),
    {
        match self {
            AnyIssue::DuplicatedDependencyFromRoot(i) => i.why(),
            AnyIssue::EmptyDependencies(i) => i.why(),
            AnyIssue::MultipleDependencyVersions(i) => i.why(),
            AnyIssue::NonExistantPackages(i) => i.why(),
            AnyIssue::PackagesWithoutPackageJson(i) => i.why(),
            AnyIssue::RootPackageDependencies(i) => i.why(),
            AnyIssue::RootPackageManagerField(i) => i.why(),
            AnyIssue::RootPackagePrivateField(i) => i.why(),
            AnyIssue::TypesInDependencies(i) => i.why(),
            AnyIssue::UnorderedDependencies(i) => i.why(),
            AnyIssue::UnsyncSimilarDependencies(i) => i.why(),
        }
    }
}

/// How many of the entries carry the given severity.
pub open spec fn spec_count_level(s: Seq<(PackageType, AnyIssue)>, level: IssueLevel) -> int
    decreases s.len(),
{
    if s.len() == 0 {
        0
    } else {
        spec_count_level(s.drop_last(), level) + if s.last().1.spec_level() == level {
            1int
        } else {
            0int
        }
    }
}

/// The findings of one run, in discovery order, each against its scope.
/// Filtered at insertion: a finding whose rule name stands in the ignore
/// list is dropped, so an ignored rule never appears in the collection.
pub struct IssuesList {
    pub ignored_issues: Vec<String>,
    pub entries: Vec<(PackageType, AnyIssue)>,
}

impl IssuesList {
    /// The rule name is in the ignore list.
    pub open spec fn spec_ignored(&self, name: Seq<char>) -> bool {
        self.ignored_issues@.map_values(|p: String| p@).contains(name)
    }

    /// No recorded finding belongs to an ignored rule.
    pub open spec fn wf(&self) -> bool {
        forall|i: int| 0 <= i < self.entries@.len() ==> !self.spec_ignored(
            (#[trigger] self.entries@[i]).1.spec_name(),
        )
    }

    /// An empty collection with the given ignore list.
    pub fn new(ignored_issues: Vec<String>) -> (r: IssuesList)
        ensures
            r.ignored_issues == ignored_issues,
            r.entries@.len() == 0,
            r.wf(),
    {
        IssuesList { ignored_issues, entries: Vec::new() }
    }

    /// Records a finding against a scope, unless its rule is ignored: the one
    /// enforcement point of the ignore list.
    pub fn add_raw(&mut self, package_type: PackageType, issue: AnyIssue)
        requires
            old(self).wf(),
        ensures
            final(self).wf(),
            final(self).ignored_issues == old(self).ignored_issues,
            old(self).spec_ignored(issue.spec_name()) ==> final(self).entries == old(
                self,
            ).entries,
            !old(self).spec_ignored(issue.spec_name()) ==> final(self).entries@ == old(
                self,
            ).entries@.push((package_type, issue)),
    {
        let name = issue.name();
        if vec_contains_str(&self.ignored_issues, name) {
            return ;
        }
        self.entries.push((package_type, issue));
    }

    /// Records a finding a rule may or may not have produced.
    pub fn add(&mut self, package_type: PackageType, issue: Option<AnyIssue>)
        requires
            old(self).wf(),
        ensures
            final(self).wf(),
            final(self).ignored_issues == old(self).ignored_issues,
            match issue {
                Some(i) => (old(self).spec_ignored(i.spec_name()) ==> final(self).entries == old(
                    self,
                ).entries) && (!old(self).spec_ignored(i.spec_name()) ==> final(self).entries@
                    == old(self).entries@.push((package_type, i))),
                None => final(self).entries == old(self).entries,
            },
    {
        if let Some(issue) = issue {
            self.add_raw(package_type, issue);
        }
    }

    /// How many findings the run recorded.
    pub fn total_len(&self) -> (r: usize)
        ensures
            r == self.entries@.len(),
    {
        self.entries.len()
    }

    /// How many findings carry the given severity.
    pub fn len_by_level(&self, level: IssueLevel) -> (r: usize)
        ensures
            r == spec_count_level(self.entries@, level),
    {
        let mut count: usize = 0;
        let mut i: usize = 0;
        while i < self.entries.len()
            invariant
                i <= self.entries@.len(),
                count == spec_count_level(self.entries@.take(i as int), level),
                count <= i,
            decreases self.entries@.len() - i,
        {
            proof {
                assert(self.entries@.take(i + 1).drop_last() =~= self.entries@.take(i as int));
                assert(self.entries@.take(i + 1).last() == self.entries@[i as int]);
            }
            if self.entries[i].1.level() == level {
                count = count + 1;
            }
            i = i + 1;
        }
        proof {
            assert(self.entries@.take(self.entries@.len() as int) =~= self.entries@);
        }
        count
    }

    /// How many findings there are; none belongs to an ignored rule.
    pub fn len(&self) -> (r: usize)
        ensures
            r == self.entries@.len(),
    {
        self.entries.len()
    }

    /// The scope and finding at one position of the discovery order.
    pub fn entry(&self, i: usize) -> (r: &(PackageType, AnyIssue))
        requires
            i < self.entries@.len(),
        ensures
            *r == self.entries@[i as int],
    {
        &self.entries[i]
    }

    /// Some listed scope names the same place as `s`.
    pub open spec fn spec_scope_listed(scopes: Seq<PackageType>, s: &PackageType) -> bool {
        exists|j: int| 0 <= j < scopes.len() && s.spec_same(&(#[trigger] scopes[j]))
    }

    /// The position `k` stands among the listed positions.
    pub open spec fn spec_position_listed(idxs: Seq<usize>, k: int) -> bool {
        exists|j: int| 0 <= j < idxs.len() && (#[trigger] idxs[j]) == k
    }

    /// Some group lists position `k`.
    pub open spec fn spec_grouped(groups: Seq<(PackageType, Vec<usize>)>, k: int) -> bool {
        exists|g: int, j: int|
            #![trigger groups[g].1@[j]]
            0 <= g < groups.len() && 0 <= j < groups[g].1@.len() && groups[g].1@[j] == k
    }

    /// The distinct scopes among the findings, in order of first
    /// appearance, beside the position where each first appears.
    fn scope_catalog(&self) -> (r: (Vec<PackageType>, Ghost<Seq<int>>))
        ensures
            ({
                let scopes = r.0@;
                let firsts = r.1@;
                &&& firsts.len() == scopes.len()
                &&& (forall|a: int, b: int|
                    #![trigger scopes[a].spec_same(&scopes[b])]
                    0 <= a < b < scopes.len() ==> !scopes[a].spec_same(&scopes[b]))
                &&& (forall|j: int|
                    0 <= j < scopes.len() ==> 0 <= #[trigger] firsts[j] < self.entries@.len()
                        && self.entries@[firsts[j]].0.spec_same(&scopes[j]) && scopes[
                    j].spec_same(&self.entries@[firsts[j]].0))
                &&& (forall|j: int, k: int|
                    #![trigger scopes[j], self.entries@[k]]
                    0 <= j < scopes.len() && 0 <= k < firsts[j] ==> !self.entries@[k].0.spec_same(
                        &scopes[j],
                    ))
                &&& (forall|a: int, b: int|
                    #![trigger firsts[a], firsts[b]]
                    0 <= a < b < firsts.len() ==> firsts[a] < firsts[b])
                &&& (forall|k: int|
                    #![trigger self.entries@[k]]
                    0 <= k < self.entries@.len() ==> IssuesList::spec_scope_listed(
                        scopes,
                        &self.entries@[k].0,
                    ))
            }),
    {
        let mut scopes: Vec<PackageType> = Vec::new();
        let ghost mut firsts: Seq<int> = Seq::empty();
        let mut i: usize = 0;
        while i < self.entries.len()
            invariant
                i <= self.entries@.len(),
                firsts.len() == scopes@.len(),
                forall|a: int, b: int|
                    #![trigger scopes@[a].spec_same(&scopes@[b])]
                    0 <= a < b < scopes@.len() ==> !scopes@[a].spec_same(&scopes@[b]),
                forall|j: int|
                    0 <= j < scopes@.len() ==> 0 <= #[trigger] firsts[j] < i
                        && self.entries@[firsts[j]].0.spec_same(&scopes@[j]) && scopes@[
                    j].spec_same(&self.entries@[firsts[j]].0),
                forall|j: int, k: int|
                    #![trigger scopes@[j], self.entries@[k]]
                    0 <= j < scopes@.len() && 0 <= k < firsts[j] ==> !self.entries@[
                    k].0.spec_same(&scopes@[j]),
                forall|a: int, b: int|
                    #![trigger firsts[a], firsts[b]]
                    0 <= a < b < firsts.len() ==> firsts[a] < firsts[b],
                forall|k: int|
                    #![trigger self.entries@[k]]
                    0 <= k < i ==> IssuesList::spec_scope_listed(scopes@, &self.entries@[k].0),
            decreases self.entries@.len() - i,
        {
            let scope = &self.entries[i].0;
            let mut seen = false;
            let mut g: usize = 0;
            while g < scopes.len()
                invariant
                    g <= scopes@.len(),
                    seen ==> exists|j: int|
                        0 <= j < scopes@.len() && (#[trigger] scopes@[j]).spec_same(scope)
                            && scope.spec_same(&scopes@[j]),
                    !seen ==> forall|j: int|
                        0 <= j < g ==> !(#[trigger] scopes@[j]).spec_same(scope),
                decreases scopes@.len() - g,
            {
                if scopes[g].eq(scope) {
                    seen = true;
                }
                g = g + 1;
            }
            if seen {
                proof {
                    let j1 = choose|j1: int|
                        0 <= j1 < scopes@.len() && (#[trigger] scopes@[j1]).spec_same(scope)
                            && scope.spec_same(&scopes@[j1]);
                    assert forall|k: int|
                        #![trigger self.entries@[k]]
                        0 <= k < i + 1 implies IssuesList::spec_scope_listed(
                        scopes@,
                        &self.entries@[k].0,
                    ) by {
                        if k == i {
                            assert(self.entries@[k].0.spec_same(&scopes@[j1]));
                        }
                    }
                }
            } else {
                let ghost s0 = scopes@;
                scopes.push(scope.duplicate());
                proof {
                    firsts = firsts.push(i as int);
                    let last = scopes@.len() - 1;
                    assert forall|a: int, b: int|
                        #![trigger scopes@[a].spec_same(&scopes@[b])]
                        0 <= a < b < scopes@.len() implies !scopes@[a].spec_same(&scopes@[b]) by {
                        if b < last {
                            assert(scopes@[a] == s0[a] && scopes@[b] == s0[b]);
                        } else {
                            assert(scopes@[a] == s0[a]);
                            assert(!s0[a].spec_same(scope));
                            assert(scopes@[b].spec_same(scope) && scope.spec_same(&scopes@[b]));
                        }
                    }
                    assert forall|j: int, k: int|
                        #![trigger scopes@[j], self.entries@[k]]
                        0 <= j < scopes@.len() && 0 <= k < firsts[j] implies !self.entries@[
                        k].0.spec_same(&scopes@[j]) by {
                        if j < last {
                            assert(scopes@[j] == s0[j]);
                        } else {
                            if self.entries@[k].0.spec_same(&scopes@[j]) {
                                assert(IssuesList::spec_scope_listed(s0, &self.entries@[k].0));
                                let j2 = choose|j2: int|
                                    0 <= j2 < s0.len() && self.entries@[k].0.spec_same(
                                        &(#[trigger] s0[j2]),
                                    );
                                assert(s0[j2].spec_same(scope));
                                assert(false);
                            }
                        }
                    }
                    assert forall|k: int|
                        #![trigger self.entries@[k]]
                        0 <= k < i + 1 implies IssuesList::spec_scope_listed(
                        scopes@,
                        &self.entries@[k].0,
                    ) by {
                        if k < i {
                            assert(IssuesList::spec_scope_listed(s0, &self.entries@[k].0));
                            let j0 = choose|j0: int|
                                0 <= j0 < s0.len() && self.entries@[k].0.spec_same(
                                    &(#[trigger] s0[j0]),
                                );
                            assert(scopes@[j0] == s0[j0]);
                            assert(self.entries@[k].0.spec_same(&scopes@[j0]));
                        } else {
                            assert(self.entries@[k].0.spec_same(&scopes@[last]));
                        }
                    }
                }
            }
            i = i + 1;
        }
        (scopes, Ghost(firsts))
    }

    /// The positions of the findings carrying the given scope, in discovery
    /// order: all of them, each once, strictly increasing.
    fn scope_members(&self, scope: &PackageType) -> (r: Vec<usize>)
        ensures
            forall|k: int|
                0 <= k < r@.len() ==> (#[trigger] r@[k]) < self.entries@.len()
                    && self.entries@[r@[k] as int].0.spec_same(scope),
            forall|a: int, b: int| 0 <= a < b < r@.len() ==> (#[trigger] r@[a]) < (#[trigger] r@[b]),
            forall|k: int|
                #![trigger self.entries@[k]]
                0 <= k < self.entries@.len() && self.entries@[k].0.spec_same(scope)
                    ==> IssuesList::spec_position_listed(r@, k),
    {
        let mut idxs: Vec<usize> = Vec::new();
        let mut i: usize = 0;
        while i < self.entries.len()
            invariant
                i <= self.entries@.len(),
                forall|k: int|
                    0 <= k < idxs@.len() ==> (#[trigger] idxs@[k]) < i
                        && self.entries@[idxs@[k] as int].0.spec_same(scope),
                forall|a: int, b: int|
                    0 <= a < b < idxs@.len() ==> (#[trigger] idxs@[a]) < (#[trigger] idxs@[b]),
                forall|k: int|
                    #![trigger self.entries@[k]]
                    0 <= k < i && self.entries@[k].0.spec_same(scope)
                        ==> IssuesList::spec_position_listed(idxs@, k),
            decreases self.entries@.len() - i,
        {
            let ghost i0 = idxs@;
            if self.entries[i].0.eq(scope) {
                idxs.push(i);
            }
            proof {
                assert forall|k: int|
                    #![trigger self.entries@[k]]
                    0 <= k < i + 1 && self.entries@[k].0.spec_same(scope)
                        implies IssuesList::spec_position_listed(idxs@, k) by {
                    if k < i {
                        assert(IssuesList::spec_position_listed(i0, k));
                        let j0 = choose|j0: int| 0 <= j0 < i0.len() && (#[trigger] i0[j0]) == k;
                        assert(idxs@[j0] == k);
                    } else {
                        assert(idxs@[idxs@.len() - 1] == k);
                    }
                }
            }
            i = i + 1;
        }
        idxs
    }

    /// The positions of the findings, grouped by scope: scopes in order of
    /// their first finding, each scope once; within a scope the findings
    /// come in discovery order; and every finding stands in some group.
    #[verifier::loop_isolation(false)]
    #[verifier::rlimit(100)]
    pub fn grouped_indices(&self) -> (r: Vec<(PackageType, Vec<usize>)>)
        ensures
            forall|g: int, k: int|
                0 <= g < r@.len() && 0 <= k < r@[g].1@.len() ==> (#[trigger] r@[g].1@[k])
                    < self.entries@.len() && self.entries@[r@[g].1@[k] as int].0.spec_same(
                    &r@[g].0,
                ),
            forall|g: int, a: int, b: int|
                0 <= g < r@.len() && 0 <= a < b < (#[trigger] r@[g]).1@.len() ==> (
                #[trigger] r@[g].1@[a]) < (#[trigger] r@[g].1@[b]),
            forall|g: int, h: int|
                0 <= g < h < r@.len() ==> !(#[trigger] r@[g]).0.spec_same(&(#[trigger] r@[h]).0),
            forall|k: int|
                #![trigger IssuesList::spec_grouped(r@, k)]
                0 <= k < self.entries@.len() ==> IssuesList::spec_grouped(r@, k),
            forall|g: int| 0 <= g < r@.len() ==> (#[trigger] r@[g]).1@.len() > 0,
            forall|g: int, h: int|
                0 <= g < h < r@.len() ==> (#[trigger] r@[g]).1@[0] < (#[trigger] r@[h]).1@[0],
    {
        let catalog = self.scope_catalog();
        let (scopes, firsts_ghost) = catalog;
        let ghost firsts = firsts_ghost@;
        let mut groups: Vec<(PackageType, Vec<usize>)> = Vec::new();
        let mut g: usize = 0;
        while g < scopes.len()
            invariant
                g <= scopes@.len(),
                groups@.len() == g,
                forall|h: int|
                    0 <= h < g ==> (#[trigger] groups@[h]).0.spec_same(&scopes@[h])
                        && scopes@[h].spec_same(&groups@[h].0),
                forall|h: int, k: int|
                    0 <= h < groups@.len() && 0 <= k < groups@[h].1@.len() ==> (
                    #[trigger] groups@[h].1@[k]) < self.entries@.len() && self.entries@[groups@[
                    h].1@[k] as int].0.spec_same(&groups@[h].0),
                forall|h: int, a: int, b: int|
                    0 <= h < groups@.len() && 0 <= a < b < (#[trigger] groups@[h]).1@.len() ==> (
                    #[trigger] groups@[h].1@[a]) < (#[trigger] groups@[h].1@[b]),
                forall|h: int, k: int|
                    #![trigger scopes@[h], self.entries@[k]]
                    0 <= h < g && 0 <= k < self.entries@.len() && self.entries@[k].0.spec_same(
                        &scopes@[h],
                    ) ==> IssuesList::spec_position_listed(groups@[h].1@, k),
                forall|h: int|
                    0 <= h < g ==> (#[trigger] groups@[h]).1@.len() > 0 && groups@[h].1@[0]
                        == firsts[h],
            decreases scopes@.len() - g,
        {
            let scope = scopes[g].duplicate();
            let idxs = self.scope_members(&scope);
            proof {
                assert(self.entries@[firsts[g as int]].0.spec_same(&scope));
                let j0 = choose|j0: int|
                    0 <= j0 < idxs@.len() && (#[trigger] idxs@[j0]) == firsts[g as int];
                assert(idxs@.len() > 0);
                if idxs@[0] < firsts[g as int] {
                    assert(self.entries@[idxs@[0] as int].0.spec_same(&scope));
                    assert(self.entries@[idxs@[0] as int].0.spec_same(&scopes@[g as int]));
                    assert(false);
                }
                if idxs@[0] > firsts[g as int] {
                    if j0 > 0 {
                        assert(idxs@[0] < idxs@[j0]);
                    }
                    assert(false);
                }
                assert(idxs@[0] == firsts[g as int]);
            }
            let ghost groups0 = groups@;
            groups.push((scope, idxs));
            proof {
                assert forall|h: int, k: int|
                    #![trigger scopes@[h], self.entries@[k]]
                    0 <= h < g + 1 && 0 <= k < self.entries@.len() && self.entries@[
                    k].0.spec_same(&scopes@[h]) implies IssuesList::spec_position_listed(
                    groups@[h].1@,
                    k,
                ) by {
                    if h < g {
                        assert(groups@[h] == groups0[h]);
                        assert(IssuesList::spec_position_listed(groups0[h].1@, k));
                    } else {
                        assert(self.entries@[k].0.spec_same(&scope));
                        assert(groups@[h].1@ == idxs@);
                    }
                }
            }
            g = g + 1;
        }
        proof {
            lemma_groups_distinct(scopes@, groups@);
            lemma_groups_cover(self.entries@, scopes@, groups@);
        }
        groups
    }
}


/// Groups mirroring pairwise-distinct scopes are pairwise distinct
/// themselves, and ordered by their first positions when those mirror an
/// increasing sequence.
proof fn lemma_groups_distinct(scopes: Seq<PackageType>, groups: Seq<(PackageType, Vec<usize>)>)
    requires
        groups.len() == scopes.len(),
        forall|a: int, b: int|
            #![trigger scopes[a].spec_same(&scopes[b])]
            0 <= a < b < scopes.len() ==> !scopes[a].spec_same(&scopes[b]),
        forall|h: int|
            0 <= h < groups.len() ==> (#[trigger] groups[h]).0.spec_same(&scopes[h])
                && scopes[h].spec_same(&groups[h].0),
    ensures
        forall|g: int, h: int|
            0 <= g < h < groups.len() ==> !(#[trigger] groups[g]).0.spec_same(
                &(#[trigger] groups[h]).0,
            ),
{
    assert forall|g: int, h: int|
        0 <= g < h < groups.len() implies !(#[trigger] groups[g]).0.spec_same(
        &(#[trigger] groups[h]).0,
    ) by {
        if groups[g].0.spec_same(&groups[h].0) {
            assert(scopes[g].spec_same(&groups[g].0));
            assert(groups[h].0.spec_same(&scopes[h]));
            assert(scopes[g].spec_same(&scopes[h]));
        }
    }
}

/// When every finding's scope stands in the catalogue and every group lists
/// all positions of its scope, every finding stands in some group.
proof fn lemma_groups_cover(
    entries: Seq<(PackageType, AnyIssue)>,
    scopes: Seq<PackageType>,
    groups: Seq<(PackageType, Vec<usize>)>,
)
    requires
        groups.len() == scopes.len(),
        forall|k: int|
            #![trigger entries[k]]
            0 <= k < entries.len() ==> IssuesList::spec_scope_listed(scopes, &entries[k].0),
        forall|h: int, k: int|
            #![trigger scopes[h], entries[k]]
            0 <= h < groups.len() && 0 <= k < entries.len() && entries[k].0.spec_same(
                &scopes[h],
            ) ==> IssuesList::spec_position_listed(groups[h].1@, k),
    ensures
        forall|k: int|
            #![trigger IssuesList::spec_grouped(groups, k)]
            0 <= k < entries.len() ==> IssuesList::spec_grouped(groups, k),
{
    assert forall|k: int|
        #![trigger IssuesList::spec_grouped(groups, k)]
        0 <= k < entries.len() implies IssuesList::spec_grouped(groups, k) by {
        assert(IssuesList::spec_scope_listed(scopes, &entries[k].0));
        let h = choose|h: int|
            0 <= h < scopes.len() && entries[k].0.spec_same(&(#[trigger] scopes[h]));
        assert(IssuesList::spec_position_listed(groups[h].1@, k));
        let j0 = choose|j: int|
            0 <= j < groups[h].1@.len() && (#[trigger] groups[h].1@[j]) == k;
        assert(0 <= j0 < groups[h].1@.len() && groups[h].1@[j0] == k);
        assert(IssuesList::spec_grouped(groups, k));
    }
}

} // verus!
