//! The repair pass, as decisions: which file each finding wants rewritten
//! and how. The caller walks the findings in discovery order, performs the
//! reads and writes, and reports back; every choice of edit, target and
//! version is made and checked here.

use vstd::prelude::*;
use crate::rules::{AnyIssue, IssuesList, PackageType};
use crate::strutil::concat_str;
use crate::version::SemVersion;

verus! {

/// One field-level change to a manifest document, applied by the matching
/// verified operation on `JsonValue`.
pub enum JsonEdit {
    /// Drop the named field when it is an empty object.
    RemoveEmptyField(String),
    /// Write a boolean field, keeping an existing field's place.
    InsertBool(String, bool),
    /// Write a string field, keeping an existing field's place.
    InsertText(String, String),
    /// Reorder the object under the named field alphabetically.
    SortField(String),
    /// Move the named entries from `dependencies` to `devDependencies`.
    MoveTypesToDev(Vec<String>),
    /// Drop the given entries from the `workspaces` array.
    RetainWorkspaces(Vec<String>),
    /// Overwrite one dependency's version in `dependencies` and
    /// `devDependencies`.
    SetDependencyVersion(String, String),
}

/// What one finding asks the caller to do.
pub enum FixPlan {
    /// Nothing: the rule has no repair, or the scope does not apply.
    NoOp,
    /// Rewrite one manifest with the given edit.
    Manifest { path: String, edit: JsonEdit },
    /// Rewrite each listed manifest, overwriting the named dependency with
    /// the chosen version text.
    ManyManifests { paths: Vec<String>, name: String, version: String },
    /// Rewrite the workspace document's pattern list, dropping the given
    /// entries.
    WorkspaceDocument { path: String, drop: Vec<String> },
    /// Detect the package manager in use first, then write it with
    /// `manager_edit`.
    NeedsPackageManager { path: String },
    /// Settle the version to keep first — by policy or by asking the
    /// operator — then plan with `divergence_fix_plan`.
    NeedsVersionChoice,
}

/// The finding with its repaired state recorded; rules without a repair
/// state stay as they are. The rule name never changes.
pub open spec fn spec_mark_fixed(issue: AnyIssue) -> AnyIssue {
    match issue {
        AnyIssue::EmptyDependencies(i) => AnyIssue::EmptyDependencies(
            crate::rules::empty_dependencies::EmptyDependenciesIssue {
                dependency_kind: i.dependency_kind,
                fixed: true,
            },
        ),
        AnyIssue::UnorderedDependencies(i) => AnyIssue::UnorderedDependencies(
            crate::rules::unordered_dependencies::UnorderedDependenciesIssue {
                dependency_kind: i.dependency_kind,
                fixed: true,
            },
        ),
        AnyIssue::NonExistantPackages(i) => AnyIssue::NonExistantPackages(
            crate::rules::non_existant_packages::NonExistantPackagesIssue {
                pnpm_workspace: i.pnpm_workspace,
                packages_list: i.packages_list,
                paths: i.paths,
                fixed: true,
            },
        ),
        AnyIssue::RootPackagePrivateField(_) => AnyIssue::RootPackagePrivateField(
            crate::rules::root_package_private_field::RootPackagePrivateFieldIssue {
                fixed: true,
            },
        ),
        AnyIssue::RootPackageManagerField(_) => AnyIssue::RootPackageManagerField(
            crate::rules::root_package_manager_field::RootPackageManagerFieldIssue {
                fixed: true,
            },
        ),
        AnyIssue::TypesInDependencies(i) => AnyIssue::TypesInDependencies(
            crate::rules::types_in_dependencies::TypesInDependenciesIssue {
                packages: i.packages,
                fixed: true,
            },
        ),
        AnyIssue::MultipleDependencyVersions(i) => AnyIssue::MultipleDependencyVersions(
            crate::rules::multiple_dependency_versions::MultipleDependencyVersionsIssue {
                name: i.name,
                versions: i.versions,
                select: i.select,
                fixed: true,
            },
        ),
        AnyIssue::UnsyncSimilarDependencies(i) => AnyIssue::UnsyncSimilarDependencies(
            crate::rules::unsync_similar_dependencies::UnsyncSimilarDependenciesIssue {
                family: i.family,
                versions: i.versions,
                fixed: true,
            },
        ),
        other => other,
    }
}

impl IssuesList {
    /// Records that the finding at `i` was repaired: its severity moves to
    /// `Fixed`, nothing else changes, and the collection stays
    /// ignore-clean.
    pub fn mark_fixed(&mut self, i: usize)
        requires
            old(self).wf(),
            i < old(self).entries@.len(),
        ensures
            final(self).wf(),
            final(self).ignored_issues == old(self).ignored_issues,
            final(self).entries@ == old(self).entries@.update(
                i as int,
                (old(self).entries@[i as int].0, spec_mark_fixed(old(self).entries@[i as int].1)),
            ),
    {
        let ghost e0 = self.entries@;
        let entry = self.entries.remove(i);
        let (scope, issue) = entry;
        let new_issue = match issue {
            AnyIssue::EmptyDependencies(x) => AnyIssue::EmptyDependencies(
                crate::rules::empty_dependencies::EmptyDependenciesIssue {
                    dependency_kind: x.dependency_kind,
                    fixed: true,
                },
            ),
            AnyIssue::UnorderedDependencies(x) => AnyIssue::UnorderedDependencies(
                crate::rules::unordered_dependencies::UnorderedDependenciesIssue {
                    dependency_kind: x.dependency_kind,
                    fixed: true,
                },
            ),
            AnyIssue::NonExistantPackages(x) => AnyIssue::NonExistantPackages(
                crate::rules::non_existant_packages::NonExistantPackagesIssue {
                    pnpm_workspace: x.pnpm_workspace,
                    packages_list: x.packages_list,
                    paths: x.paths,
                    fixed: true,
                },
            ),
            AnyIssue::RootPackagePrivateField(_) => AnyIssue::RootPackagePrivateField(
                crate::rules::root_package_private_field::RootPackagePrivateFieldIssue {
                    fixed: true,
                },
            ),
            AnyIssue::RootPackageManagerField(_) => AnyIssue::RootPackageManagerField(
                crate::rules::root_package_manager_field::RootPackageManagerFieldIssue {
                    fixed: true,
                },
            ),
            AnyIssue::TypesInDependencies(x) => AnyIssue::TypesInDependencies(
                crate::rules::types_in_dependencies::TypesInDependenciesIssue {
                    packages: x.packages,
                    fixed: true,
                },
            ),
            AnyIssue::MultipleDependencyVersions(x) => AnyIssue::MultipleDependencyVersions(
                crate::rules::multiple_dependency_versions::MultipleDependencyVersionsIssue {
                    name: x.name,
                    versions: x.versions,
                    select: x.select,
                    fixed: true,
                },
            ),
            AnyIssue::UnsyncSimilarDependencies(x) => AnyIssue::UnsyncSimilarDependencies(
                crate::rules::unsync_similar_dependencies::UnsyncSimilarDependenciesIssue {
                    family: x.family,
                    versions: x.versions,
                    fixed: true,
                },
            ),
            other => other,
        };
        self.entries.insert(i, (scope, new_issue));
        proof {
            assert(self.entries@ =~= e0.update(
                i as int,
                (e0[i as int].0, spec_mark_fixed(e0[i as int].1)),
            ));
            assert forall|h: int|
                0 <= h < self.entries@.len() implies !self.spec_ignored(
                (#[trigger] self.entries@[h]).1.spec_name(),
            ) by {
                if h != i {
                    assert(self.entries@[h] == e0[h]);
                } else {
                    assert(spec_mark_fixed(e0[h].1).spec_name() == e0[h].1.spec_name());
                }
            }
        }
    }
}

/// What the finding at `i` asks the caller to do, when the run repairs.
/// Each rule's repair touches exactly the file its scope names; a rule
/// without a repair, or a finding whose scope its repair does not apply
/// to, plans nothing.
pub fn fix_plan(list: &IssuesList, i: usize, root: &str) -> (r: FixPlan)
    requires
        i < list.entries@.len(),
    ensures
        ({
            let scope = list.entries@[i as int].0;
            let issue = list.entries@[i as int].1;
            match issue {
                AnyIssue::EmptyDependencies(x) => match scope {
                    PackageType::Package(p) => r matches FixPlan::Manifest { path, edit }
                        && path@ == p@ + "/package.json"@ && (edit matches
                        JsonEdit::RemoveEmptyField(k) && k@ == x.dependency_kind.spec_as_str()),
                    _ => r is NoOp,
                },
                AnyIssue::UnorderedDependencies(x) => match scope {
                    PackageType::Package(p) => r matches FixPlan::Manifest { path, edit }
                        && path@ == p@ + "/package.json"@ && (edit matches JsonEdit::SortField(k)
                        && k@ == x.dependency_kind.spec_as_str()),
                    PackageType::Root => r matches FixPlan::Manifest { path, edit } && path@
                        == root@ + "/package.json"@ && (edit matches JsonEdit::SortField(k) && k@
                        == x.dependency_kind.spec_as_str()),
                    _ => r is NoOp,
                },
                AnyIssue::RootPackagePrivateField(_) => match scope {
                    PackageType::Root => r matches FixPlan::Manifest { path, edit } && path@
                        == root@ + "/package.json"@ && (edit matches JsonEdit::InsertBool(k, b)
                        && k@ == "private"@ && b),
                    _ => r is NoOp,
                },
                AnyIssue::RootPackageManagerField(_) => match scope {
                    PackageType::Root => r matches FixPlan::NeedsPackageManager { path } && path@
                        == root@ + "/package.json"@,
                    _ => r is NoOp,
                },
                AnyIssue::TypesInDependencies(x) => match scope {
                    PackageType::Package(p) => r matches FixPlan::Manifest { path, edit }
                        && path@ == p@ + "/package.json"@ && (edit matches
                        JsonEdit::MoveTypesToDev(names) && names@.map_values(|q: String| q@)
                        == x.packages@.map_values(|q: String| q@)),
                    _ => r is NoOp,
                },
                AnyIssue::NonExistantPackages(x) => match scope {
                    PackageType::Workspace => if x.pnpm_workspace {
                        r matches FixPlan::WorkspaceDocument { path, drop } && path@ == root@
                            + "/pnpm-workspace.yaml"@ && drop@.map_values(|q: String| q@)
                            == x.paths@.map_values(|q: String| q@)
                    } else {
                        r matches FixPlan::Manifest { path, edit } && path@ == root@
                            + "/package.json"@ && (edit matches JsonEdit::RetainWorkspaces(d)
                            && d@.map_values(|q: String| q@) == x.paths@.map_values(
                            |q: String| q@,
                        ))
                    },
                    _ => r is NoOp,
                },
                AnyIssue::MultipleDependencyVersions(_) => match scope {
                    PackageType::Workspace => r is NeedsVersionChoice,
                    _ => r is NoOp,
                },
                _ => r is NoOp,
            }
        }),
{
    let entry = list.entry(i);
    let scope = &entry.0;
    let issue = &entry.1;
    match issue {
        AnyIssue::EmptyDependencies(x) => match scope {
            PackageType::Package(p) => FixPlan::Manifest {
                path: concat_str(p.as_str(), "/package.json"),
                edit: JsonEdit::RemoveEmptyField(String::from_str(x.dependency_kind.as_str())),
            },
            _ => FixPlan::NoOp,
        },
        AnyIssue::UnorderedDependencies(x) => match scope {
            PackageType::Package(p) => FixPlan::Manifest {
                path: concat_str(p.as_str(), "/package.json"),
                edit: JsonEdit::SortField(String::from_str(x.dependency_kind.as_str())),
            },
            PackageType::Root => FixPlan::Manifest {
                path: concat_str(root, "/package.json"),
                edit: JsonEdit::SortField(String::from_str(x.dependency_kind.as_str())),
            },
            _ => FixPlan::NoOp,
        },
        AnyIssue::RootPackagePrivateField(_) => match scope {
            PackageType::Root => FixPlan::Manifest {
                path: concat_str(root, "/package.json"),
                edit: JsonEdit::InsertBool(String::from_str("private"), true),
            },
            _ => FixPlan::NoOp,
        },
        AnyIssue::RootPackageManagerField(_) => match scope {
            PackageType::Root => FixPlan::NeedsPackageManager {
                path: concat_str(root, "/package.json"),
            },
            _ => FixPlan::NoOp,
        },
        AnyIssue::TypesInDependencies(x) => match scope {
            PackageType::Package(p) => FixPlan::Manifest {
                path: concat_str(p.as_str(), "/package.json"),
                edit: JsonEdit::MoveTypesToDev(crate::strutil::duplicate_strings(&x.packages)),
            },
            _ => FixPlan::NoOp,
        },
        AnyIssue::NonExistantPackages(x) => match scope {
            PackageType::Workspace => {
                if x.pnpm_workspace {
                    FixPlan::WorkspaceDocument {
                        path: concat_str(root, "/pnpm-workspace.yaml"),
                        drop: crate::strutil::duplicate_strings(&x.paths),
                    }
                } else {
                    FixPlan::Manifest {
                        path: concat_str(root, "/package.json"),
                        edit: JsonEdit::RetainWorkspaces(
                            crate::strutil::duplicate_strings(&x.paths),
                        ),
                    }
                }
            },
            _ => FixPlan::NoOp,
        },
        AnyIssue::MultipleDependencyVersions(_) => match scope {
            PackageType::Workspace => FixPlan::NeedsVersionChoice,
            _ => FixPlan::NoOp,
        },
        _ => FixPlan::NoOp,
    }
}

/// The edit that writes the detected package manager into the root
/// manifest.
pub fn manager_edit(manager: String) -> (r: JsonEdit)
    ensures
        r matches JsonEdit::InsertText(k, v) && k@ == "packageManager"@ && v == manager,
{
    JsonEdit::InsertText(String::from_str("packageManager"), manager)
}

/// The plan once a diverging dependency's version is settled: every
/// declaring package's manifest gets the dependency overwritten with the
/// chosen text; no choice plans nothing, and the finding stays reported.
pub fn divergence_fix_plan(
    issue: &crate::rules::multiple_dependency_versions::MultipleDependencyVersionsIssue,
    choice: Option<String>,
) -> (r: FixPlan)
    ensures
        match choice {
            Some(v) => {
                &&& r matches FixPlan::ManyManifests { paths, name, version }
                &&& version == v
                &&& name@ == issue.name@
                &&& paths@.len() == issue.versions@.len()
                &&& (forall|k: int|
                    0 <= k < paths@.len() ==> (#[trigger] paths@[k])@ == issue.versions@[k].0@
                        + "/package.json"@)
            },
            None => r is NoOp,
        },
{
    match choice {
        Some(v) => {
            let mut paths: Vec<String> = Vec::new();
            let mut k: usize = 0;
            while k < issue.versions.len()
                invariant
                    k <= issue.versions@.len(),
                    paths@.len() == k,
                    forall|j: int|
                        0 <= j < k ==> (#[trigger] paths@[j])@ == issue.versions@[j].0@
                            + "/package.json"@,
                decreases issue.versions@.len() - k,
            {
                paths.push(concat_str(issue.versions[k].0.as_str(), "/package.json"));
                k = k + 1;
            }
            FixPlan::ManyManifests { paths, name: issue.name.clone(), version: v }
        },
        None => FixPlan::NoOp,
    }
}

/// The choices an interactive selection offers for the first `k` entries of
/// a diverging dependency: one `(label, version text)` pair per annotated
/// label, in entry order, a label already offered not offered again.
pub open spec fn spec_prompt_options(
    versions: Seq<(String, SemVersion)>,
    k: int,
) -> Seq<(Seq<char>, Seq<char>)>
    decreases k,
{
    if k <= 0 {
        Seq::empty()
    } else {
        let prev = spec_prompt_options(versions, k - 1);
        let label = crate::rules::multiple_dependency_versions::spec_fv(
            &versions[k - 1].1,
            &versions[0].1,
            &versions[versions.len() - 1].1,
        );
        if exists|a: int| 0 <= a < prev.len() && (#[trigger] prev[a]).0 == label {
            prev
        } else {
            prev.push((label, versions[k - 1].1.spec_rendered()))
        }
    }
}

/// The choices an interactive selection offers for a diverging dependency:
/// the distinct annotated version labels in entry order, each beside the
/// version text it stands for; a label already offered is not offered
/// again.
pub fn prompt_options(
    issue: &crate::rules::multiple_dependency_versions::MultipleDependencyVersionsIssue,
) -> (r: Vec<(String, String)>)
    ensures
        r@.map_values(|p: (String, String)| (p.0@, p.1@)) == spec_prompt_options(
            issue.versions@,
            issue.versions@.len() as int,
        ),
{
    let mut out: Vec<(String, String)> = Vec::new();
    let mut k: usize = 0;
    proof {
        assert(out@.map_values(|p: (String, String)| (p.0@, p.1@)) =~= spec_prompt_options(
            issue.versions@,
            0,
        ));
    }
    while k < issue.versions.len()
        invariant
            k <= issue.versions@.len(),
            out@.map_values(|p: (String, String)| (p.0@, p.1@)) == spec_prompt_options(
                issue.versions@,
                k as int,
            ),
        decreases issue.versions@.len() - k,
    {
        let ghost o0 = out@.map_values(|p: (String, String)| (p.0@, p.1@));
        let label = issue.format_label(k);
        let rendered = issue.versions[k].1.rendered().clone();
        let mut seen = false;
        let mut a: usize = 0;
        while a < out.len()
            invariant
                a <= out@.len(),
                seen ==> exists|b: int|
                    0 <= b < out@.len() && (#[trigger] out@[b]).0@ == label@,
                !seen ==> forall|b: int| 0 <= b < a ==> (#[trigger] out@[b]).0@ != label@,
            decreases out@.len() - a,
        {
            if crate::strutil::str_eq(out[a].0.as_str(), label.as_str()) {
                seen = true;
            }
            a = a + 1;
        }
        proof {
            if seen {
                let b = choose|b: int| 0 <= b < out@.len() && (#[trigger] out@[b]).0@ == label@;
                assert(o0[b].0 == label@);
            } else {
                assert forall|b: int| 0 <= b < o0.len() implies (#[trigger] o0[b]).0 != label@ by {
                    assert(o0[b].0 == out@[b].0@);
                }
            }
        }
        if !seen {
            out.push((label, rendered));
            proof {
                assert(out@.map_values(|p: (String, String)| (p.0@, p.1@)) =~= o0.push(
                    (label@, rendered@),
                ));
            }
        }
        proof {
            assert(out@.map_values(|p: (String, String)| (p.0@, p.1@)) =~= spec_prompt_options(
                issue.versions@,
                k + 1,
            ));
        }
        k = k + 1;
    }
    out
}

/// The pattern entries kept by the workspace-document repair: everything
/// except the unmatched ones.
pub open spec fn spec_retain_strings(items: Seq<Seq<char>>, drop: Seq<Seq<char>>) -> Seq<
    Seq<char>,
>
    decreases items.len(),
{
    if items.len() == 0 {
        Seq::empty()
    } else {
        spec_retain_strings(items.drop_last(), drop) + if drop.contains(items.last()) {
            Seq::empty()
        } else {
            seq![items.last()]
        }
    }
}

/// Keeps every pattern not standing in the unmatched list, in order: the
/// workspace document's list after the repair.
pub fn retain_strings(items: &Vec<String>, drop: &Vec<String>) -> (r: Vec<String>)
    ensures
        r@.map_values(|p: String| p@) == spec_retain_strings(
            items@.map_values(|p: String| p@),
            drop@.map_values(|p: String| p@),
        ),
{
    let ghost iv = items@.map_values(|p: String| p@);
    let ghost dv = drop@.map_values(|p: String| p@);
    let mut out: Vec<String> = Vec::new();
    let mut i: usize = 0;
    proof {
        assert(iv.take(0) =~= Seq::<Seq<char>>::empty());
    }
    while i < items.len()
        invariant
            i <= items@.len(),
            iv == items@.map_values(|p: String| p@),
            dv == drop@.map_values(|p: String| p@),
            out@.map_values(|p: String| p@) == spec_retain_strings(iv.take(i as int), dv),
        decreases items@.len() - i,
    {
        let ghost o0 = out@.map_values(|p: String| p@);
        proof {
            assert(iv[i as int] == items@[i as int]@);
        }
        let dropped = crate::strutil::vec_contains_str(drop, items[i].as_str());
        if !dropped {
            out.push(items[i].clone());
        }
        proof {
            assert(iv.take(i + 1).drop_last() =~= iv.take(i as int));
            assert(iv.take(i + 1).last() == iv[i as int]);
            let on = out@.map_values(|p: String| p@);
            if dropped {
                assert(on =~= spec_retain_strings(iv.take(i + 1), dv));
            } else {
                assert(on =~= o0.push(iv[i as int]));
                assert(on =~= spec_retain_strings(iv.take(i + 1), dv));
            }
        }
        i = i + 1;
    }
    proof {
        assert(iv.take(items@.len() as int) =~= iv);
    }
    out
}

} // verus!
