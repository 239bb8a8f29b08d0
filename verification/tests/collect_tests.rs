use sherif::args::Args;
use sherif::collect::{
    build_packages_list, collect_issues, load_root, workspace_source, CollectError,
    ManifestOutcome,
};
use sherif::packages::{Package, PackageManifest, PackagesList, RootPackage, Workspaces};
use sherif::rules::{IssueLevel, PackageType};
use sherif::rules::packages_without_package_json::PackagesWithoutPackageJsonIssue;
use sherif::rules::AnyIssue;

fn empty_manifest() -> PackageManifest {
    PackageManifest {
        name: None,
        private: None,
        workspaces: None,
        package_manager: None,
        dependencies: None,
        dev_dependencies: None,
        peer_dependencies: None,
        optional_dependencies: None,
    }
}

fn clean_root() -> RootPackage {
    let mut m = empty_manifest();
    m.name = Some("root".to_string());
    m.private = Some(true);
    m.package_manager = Some("npm@10.0.0".to_string());
    RootPackage::new(Package::new(".".to_string(), m))
}

fn package_with_deps(path: &str, deps: Vec<(&str, &str)>) -> Package {
    let mut m = empty_manifest();
    m.name = Some(path.to_string());
    m.dependencies = Some(
        deps.into_iter()
            .map(|(k, v)| (k.to_string(), v.to_string()))
            .collect(),
    );
    Package::new(path.to_string(), m)
}

fn args() -> Args {
    Args {
        path: ".".to_string(),
        fix: false,
        select: None,
        no_install: false,
        fail_on_warnings: false,
        ignore_dependency: Vec::new(),
        ignore_package: Vec::new(),
        ignore_rule: Vec::new(),
    }
}

#[test]
fn collect_error_messages() {
    assert_eq!(
        CollectError::NotADirectory("unknown".to_string()).message(),
        "Path \"unknown\" is not a directory"
    );
    assert_eq!(
        CollectError::ManifestNotFound("fixtures/empty".to_string()).message(),
        "`package.json` not found in \"fixtures/empty\""
    );
    assert_eq!(
        CollectError::NoWorkspaces("fixtures/no-workspace-pnpm".to_string()).message(),
        "No `workspaces` field in the root `package.json`, or `pnpm-workspace.yaml` file not found in \"fixtures/no-workspace-pnpm\""
    );
    assert_eq!(
        CollectError::ManifestParse("pkg/package.json".to_string(), "bad".to_string()).message(),
        "Error while parsing \"pkg/package.json\": bad"
    );
}

#[test]
fn load_root_reports_each_failure() {
    assert!(matches!(
        load_root("unknown", ManifestOutcome::NotADirectory),
        Err(CollectError::NotADirectory(_))
    ));
    assert!(matches!(
        load_root("empty", ManifestOutcome::NoManifest),
        Err(CollectError::ManifestNotFound(_))
    ));
    assert!(matches!(
        load_root("bad", ManifestOutcome::Parse("oops".to_string())),
        Err(CollectError::ManifestParse(_, _))
    ));
    let ok = load_root("dir", ManifestOutcome::Manifest(empty_manifest()));
    assert!(ok.is_ok());
}

#[test]
fn workspace_source_prefers_manifest() {
    let r = workspace_source("r", Some(vec!["a/*".to_string()]), None).unwrap();
    assert_eq!(r.0, vec!["a/*".to_string()]);
    assert!(!r.1);

    let r = workspace_source("r", None, Some(vec!["b/*".to_string()])).unwrap();
    assert_eq!(r.0, vec!["b/*".to_string()]);
    assert!(r.1);

    let r = workspace_source("r", None, None);
    assert!(matches!(r, Err(CollectError::NoWorkspaces(_))));
}

#[test]
fn build_packages_list_collects_diagnostics() {
    let root = clean_root();
    let candidates = vec!["r/a".to_string(), "r/b".to_string(), "r/c".to_string()];
    let outcomes = vec![
        ManifestOutcome::Manifest(empty_manifest()),
        ManifestOutcome::NoManifest,
        ManifestOutcome::NotADirectory,
    ];
    let pl = build_packages_list(
        root,
        candidates,
        outcomes,
        false,
        vec!["a".to_string()],
        vec!["stale/*".to_string()],
    )
    .unwrap();
    assert_eq!(pl.packages.len(), 1);
    assert_eq!(pl.packages[0].path, "r/a");
    assert_eq!(pl.packages_issues.len(), 2);
    assert_eq!(pl.packages_issues[0].name(), "packages-without-package-json");
    assert_eq!(pl.packages_issues[1].name(), "non-existant-packages");
}

#[test]
fn build_packages_list_parse_failure_is_fatal() {
    let root = clean_root();
    let candidates = vec!["r/a".to_string()];
    let outcomes = vec![ManifestOutcome::Parse("unexpected token".to_string())];
    let r = build_packages_list(root, candidates, outcomes, false, Vec::new(), Vec::new());
    match r {
        Err(CollectError::ManifestParse(path, msg)) => {
            assert_eq!(path, "r/a/package.json");
            assert_eq!(msg, "unexpected token");
        }
        _ => panic!("expected a fatal parse error"),
    }
}

#[test]
fn divergence_three_packages_one_issue() {
    // Three packages declare react as 1.2.3, 1.2.3 and 4.5.6: exactly one
    // multiple-dependency-versions issue, lowest 1.2.3, highest 4.5.6.
    let packages = vec![
        package_with_deps("./packages/a", vec![("react", "1.2.3")]),
        package_with_deps("./packages/b", vec![("react", "1.2.3")]),
        package_with_deps("./packages/c", vec![("react", "4.5.6")]),
    ];
    let pl = PackagesList {
        root_package: clean_root(),
        packages,
        packages_issues: Vec::new(),
    };
    let issues = collect_issues(&args(), pl);
    assert_eq!(issues.total_len(), 1);
    let entry = issues.entry(0);
    assert!(matches!(entry.0, PackageType::Workspace));
    assert_eq!(entry.1.name(), "multiple-dependency-versions");
    match &entry.1 {
        AnyIssue::MultipleDependencyVersions(m) => {
            assert_eq!(m.versions[0].1.rendered().as_str(), "1.2.3");
            assert_eq!(m.versions[m.versions.len() - 1].1.rendered().as_str(), "4.5.6");
        }
        _ => panic!("expected a divergence issue"),
    }
}

#[test]
fn divergence_ignored_dependency_yields_nothing() {
    let packages = vec![
        package_with_deps("./packages/a", vec![("react", "1.2.3")]),
        package_with_deps("./packages/b", vec![("react", "1.2.3")]),
        package_with_deps("./packages/c", vec![("react", "4.5.6")]),
    ];
    let pl = PackagesList {
        root_package: clean_root(),
        packages,
        packages_issues: Vec::new(),
    };
    let mut a = args();
    a.ignore_dependency = vec!["react".to_string()];
    let issues = collect_issues(&a, pl);
    assert_eq!(issues.total_len(), 0);
}

#[test]
fn agreeing_versions_yield_nothing() {
    let packages = vec![
        package_with_deps("./packages/a", vec![("react", "1.2.3")]),
        package_with_deps("./packages/b", vec![("react", "1.2.3")]),
    ];
    let pl = PackagesList {
        root_package: clean_root(),
        packages,
        packages_issues: Vec::new(),
    };
    let issues = collect_issues(&args(), pl);
    assert_eq!(issues.total_len(), 0);
}

#[test]
fn ignore_rule_filters_at_insertion() {
    // With root-package-manager-field ignored, recording that issue leaves
    // the collection empty.
    let mut m = empty_manifest();
    m.private = Some(true);
    // no packageManager: the check would report root-package-manager-field.
    let pl = PackagesList {
        root_package: RootPackage::new(Package::new(".".to_string(), m)),
        packages: Vec::new(),
        packages_issues: Vec::new(),
    };
    let mut a = args();
    a.ignore_rule = vec!["root-package-manager-field".to_string()];
    let issues = collect_issues(&a, pl);
    assert_eq!(issues.total_len(), 0);
}

#[test]
fn root_missing_private_and_manager() {
    // A root with "private": false and no packageManager, zero packages:
    // exactly two issues, in order, both errors.
    let mut m = empty_manifest();
    m.name = Some("root-issues".to_string());
    m.private = Some(false);
    let pl = PackagesList {
        root_package: RootPackage::new(Package::new(".".to_string(), m)),
        packages: Vec::new(),
        packages_issues: Vec::new(),
    };
    let issues = collect_issues(&args(), pl);
    assert_eq!(issues.total_len(), 2);
    assert_eq!(issues.entry(0).1.name(), "root-package-private-field");
    assert_eq!(issues.entry(1).1.name(), "root-package-manager-field");
    assert_eq!(issues.entry(0).1.level(), IssueLevel::Error);
    assert_eq!(issues.entry(1).1.level(), IssueLevel::Error);
    assert!(matches!(issues.entry(0).0, PackageType::Root));
    assert!(matches!(issues.entry(1).0, PackageType::Root));
}

#[test]
fn empty_dependency_block_is_reported() {
    // A package manifest with "dependencies": {} produces one
    // empty-dependencies issue.
    let mut m = empty_manifest();
    m.name = Some("pkg".to_string());
    m.dependencies = Some(Vec::new());
    let pl = PackagesList {
        root_package: clean_root(),
        packages: vec![Package::new("./pkg".to_string(), m)],
        packages_issues: Vec::new(),
    };
    let issues = collect_issues(&args(), pl);
    assert_eq!(issues.total_len(), 1);
    assert_eq!(issues.entry(0).1.name(), "empty-dependencies");
}

#[test]
fn unordered_dependencies_are_reported() {
    let pl = PackagesList {
        root_package: clean_root(),
        packages: vec![package_with_deps(
            "./pkg",
            vec![("zzz", "1.0.0"), ("aaa", "1.0.0")],
        )],
        packages_issues: Vec::new(),
    };
    let issues = collect_issues(&args(), pl);
    assert_eq!(issues.total_len(), 1);
    assert_eq!(issues.entry(0).1.name(), "unordered-dependencies");
}

#[test]
fn types_in_private_package_dependencies() {
    let mut m = empty_manifest();
    m.name = Some("pkg".to_string());
    m.private = Some(true);
    m.dependencies = Some(vec![
        ("@types/react".to_string(), "1.0.0".to_string()),
        ("react".to_string(), "1.0.0".to_string()),
    ]);
    let pl = PackagesList {
        root_package: clean_root(),
        packages: vec![Package::new("./pkg".to_string(), m)],
        packages_issues: Vec::new(),
    };
    let issues = collect_issues(&args(), pl);
    assert_eq!(issues.total_len(), 1);
    assert_eq!(issues.entry(0).1.name(), "types-in-dependencies");
}

#[test]
fn unsync_similar_family_in_one_package() {
    let pl = PackagesList {
        root_package: clean_root(),
        packages: vec![package_with_deps(
            "./pkg",
            vec![("react", "17.0.0"), ("react-dom", "18.0.0")],
        )],
        packages_issues: Vec::new(),
    };
    let issues = collect_issues(&args(), pl);
    assert_eq!(issues.total_len(), 1);
    assert_eq!(issues.entry(0).1.name(), "unsync-similar-dependencies");
    assert!(matches!(
        issues.entry(0).0,
        PackageType::Package(_)
    ));
}

#[test]
fn ignored_package_contributes_nothing() {
    let mut a = args();
    a.ignore_package = vec!["./packages/c".to_string()];
    let packages = vec![
        package_with_deps("./packages/a", vec![("react", "1.2.3")]),
        package_with_deps("./packages/c", vec![("react", "4.5.6")]),
    ];
    let pl = PackagesList {
        root_package: clean_root(),
        packages,
        packages_issues: Vec::new(),
    };
    let issues = collect_issues(&a, pl);
    assert_eq!(issues.total_len(), 0);
}

#[test]
fn invalid_versions_are_excluded_from_aggregation() {
    let packages = vec![
        package_with_deps("./packages/a", vec![("react", "*")]),
        package_with_deps("./packages/b", vec![("react", "1.2.3")]),
    ];
    let pl = PackagesList {
        root_package: clean_root(),
        packages,
        packages_issues: Vec::new(),
    };
    let issues = collect_issues(&args(), pl);
    assert_eq!(issues.total_len(), 0);
}

#[test]
fn workspaces_normalize_to_a_list() {
    let mut m = empty_manifest();
    m.workspaces = Some(Workspaces::Yarn {
        packages: vec!["packages/*".to_string()],
    });
    let root = RootPackage::new(Package::new(".".to_string(), m));
    assert_eq!(root.get_workspaces(), Some(vec!["packages/*".to_string()]));
}

#[test]
fn root_declarations_enter_aggregation() {
    // The aggregate joins the root's declarations with the packages': a
    // root declaring react differently from a member package diverges.
    let mut rm = empty_manifest();
    rm.name = Some("root".to_string());
    rm.private = Some(true);
    rm.package_manager = Some("npm@10.0.0".to_string());
    rm.dev_dependencies = Some(vec![("react".to_string(), "1.2.3".to_string())]);
    let pl = PackagesList {
        root_package: RootPackage::new(Package::new(".".to_string(), rm)),
        packages: vec![package_with_deps("./packages/a", vec![("react", "4.5.6")])],
        packages_issues: Vec::new(),
    };
    let issues = collect_issues(&args(), pl);
    assert_eq!(issues.total_len(), 1);
    assert_eq!(issues.entry(0).1.name(), "multiple-dependency-versions");
    match &issues.entry(0).1 {
        AnyIssue::MultipleDependencyVersions(m) => {
            assert_eq!(m.versions.len(), 2);
            assert_eq!(m.versions[0].0, ".");
            assert_eq!(m.versions[0].1.rendered().as_str(), "1.2.3");
            assert_eq!(m.versions[1].0, "./packages/a");
            assert_eq!(m.versions[1].1.rendered().as_str(), "4.5.6");
        }
        _ => panic!("expected a divergence issue"),
    }
}

#[test]
fn root_alone_never_diverges() {
    // One manifest's declarations alone open no divergence, whatever it
    // declares.
    let mut rm = empty_manifest();
    rm.private = Some(true);
    rm.package_manager = Some("npm@10.0.0".to_string());
    rm.dev_dependencies = Some(vec![
        ("left-pad".to_string(), "9.9.9".to_string()),
        ("react".to_string(), "1.2.3".to_string()),
    ]);
    let pl = PackagesList {
        root_package: RootPackage::new(Package::new(".".to_string(), rm)),
        packages: Vec::new(),
        packages_issues: Vec::new(),
    };
    let issues = collect_issues(&args(), pl);
    assert_eq!(issues.total_len(), 0);
}

#[test]
fn diagnostics_come_before_root_findings() {
    let mut m = empty_manifest();
    m.private = Some(false);
    let pl = PackagesList {
        root_package: RootPackage::new(Package::new(".".to_string(), m)),
        packages: Vec::new(),
        packages_issues: vec![AnyIssue::PackagesWithoutPackageJson(
            PackagesWithoutPackageJsonIssue::new("./lost".to_string()),
        )],
    };
    let issues = collect_issues(&args(), pl);
    assert_eq!(issues.total_len(), 3);
    assert_eq!(issues.entry(0).1.name(), "packages-without-package-json");
    assert!(matches!(issues.entry(0).0, PackageType::Workspace));
    assert_eq!(issues.entry(1).1.name(), "root-package-private-field");
    assert_eq!(issues.entry(2).1.name(), "root-package-manager-field");
}
