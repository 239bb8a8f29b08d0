use sherif::plural::Pluralize;
use sherif::rules::empty_dependencies::{DependencyKind, EmptyDependenciesIssue};
use sherif::rules::multiple_dependency_versions::MultipleDependencyVersionsIssue;
use sherif::rules::non_existant_packages::NonExistantPackagesIssue;
use sherif::rules::packages_without_package_json::PackagesWithoutPackageJsonIssue;
use sherif::rules::root_package_dependencies::RootPackageDependenciesIssue;
use sherif::rules::root_package_manager_field::RootPackageManagerFieldIssue;
use sherif::rules::root_package_private_field::RootPackagePrivateFieldIssue;
use sherif::rules::types_in_dependencies::TypesInDependenciesIssue;
use sherif::rules::unordered_dependencies::UnorderedDependenciesIssue;
use sherif::rules::unsync_similar_dependencies::{SimilarDependency, UnsyncSimilarDependenciesIssue};
use sherif::rules::{AnyIssue, Issue, IssueLevel, IssuesList, PackageType};
use sherif::version::SemVersion;

#[test]
fn test_pluralize() {
    assert_eq!("1 package", "package".plural(1));
    assert_eq!("2 packages", "package".plural(2));
    assert_eq!("4 packages", "package".plural(4));
}

#[test]
fn empty_dependencies_test() {
    let issue = EmptyDependenciesIssue::new(DependencyKind::Dependencies);

    assert_eq!(issue.name(), "empty-dependencies");
    assert_eq!(issue.level(), IssueLevel::Error);
    assert_eq!(
        issue.why(),
        "package.json should not have empty dependencies fields."
    );
}

#[test]
fn non_existant_packages_test() {
    let issue = NonExistantPackagesIssue::new(
        true,
        vec![
            "apps/*".into(),
            "packages/*".into(),
            "empty/*".into(),
            "docs".into(),
        ],
        vec!["empty/*".into(), "docs".into()],
    );

    assert_eq!(issue.name(), "non-existant-packages");
    assert_eq!(issue.level(), IssueLevel::Warning);
    assert_eq!(
        issue.why(),
        "All paths defined in the workspace should match at least one package."
    );
}

#[test]
fn root_package_private_field_test() {
    let issue = RootPackagePrivateFieldIssue::new();

    assert_eq!(issue.name(), "root-package-private-field");
    assert_eq!(issue.level(), IssueLevel::Error);
}

#[test]
fn private_field_not_set() {
    let issue = RootPackagePrivateFieldIssue::new();

    assert_eq!(issue.why(), "The root package.json should be private to prevent accidentaly publishing it to a registry.");
}

#[test]
fn private_field_set_not_true() {
    let issue = RootPackagePrivateFieldIssue::new();

    assert_eq!(issue.why(), "The root package.json should be private to prevent accidentaly publishing it to a registry.");
}

#[test]
fn unordered_dependencies_test() {
    let issue = UnorderedDependenciesIssue::new(DependencyKind::Dependencies);

    assert_eq!(issue.name(), "unordered-dependencies");
    assert_eq!(issue.level(), IssueLevel::Error);
    assert_eq!(
        issue.why(),
        "dependencies should be ordered alphabetically."
    );
}

#[test]
fn packages_without_package_json_test() {
    let issue = PackagesWithoutPackageJsonIssue::new("test".to_string());

    assert_eq!(issue.name(), "packages-without-package-json");
    assert_eq!(issue.level(), IssueLevel::Warning);
    assert_eq!(issue.message(), "   test/package.json doesn't exists.");
    assert_eq!(
        issue.why(),
        "All packages matching the workspace should have a package.json file."
    );
}

#[test]
fn root_package_dependencies_test() {
    let issue = RootPackageDependenciesIssue::new();

    assert_eq!(issue.name(), "root-package-dependencies");
    assert_eq!(issue.level(), IssueLevel::Warning);
    assert_eq!(
        issue.why(),
        "The root package.json is private and should only have devDependencies. Declare dependencies in each package."
    );
}

#[test]
fn types_in_dependencies_test() {
    let issue =
        TypesInDependenciesIssue::new(vec!["@types/react".into(), "@types/react-dom".into()]);

    assert_eq!(issue.name(), "types-in-dependencies");
    assert_eq!(issue.level(), IssueLevel::Error);
    assert_eq!(
        issue.why(),
        "Private packages shouldn't have @types/* in dependencies."
    );
}

#[test]
fn multiple_dependency_versions_test() {
    let issue = MultipleDependencyVersionsIssue::new(
        "test".to_string(),
        vec![
            (
                "./packages/package-a".to_string(),
                SemVersion::parse("1.2.3").unwrap(),
            ),
            (
                "./packages/package-b".to_string(),
                SemVersion::parse("1.2.4").unwrap(),
            ),
            (
                "./package-c".to_string(),
                SemVersion::parse("1.2.5").unwrap(),
            ),
        ],
        None,
    );

    assert_eq!(issue.name(), "multiple-dependency-versions");
    assert_eq!(issue.level(), IssueLevel::Error);
    assert_eq!(issue.versions.len(), 3);
    assert_eq!(
        issue.why(),
        "Dependency test has multiple versions defined in the workspace.".to_string()
    );
}

#[test]
fn unsync_similar_dependencies_test() {
    let versions = vec![
        (SemVersion::parse("1.0.0").unwrap(), "react".to_string()),
        (SemVersion::parse("2.0.0").unwrap(), "react-dom".to_string()),
    ];

    let issue = UnsyncSimilarDependenciesIssue::new(SimilarDependency::React, versions);

    assert_eq!(issue.name(), "unsync-similar-dependencies");
    assert_eq!(issue.level(), IssueLevel::Error);
    assert_eq!(issue.versions.len(), 2);
    assert_eq!(
        issue.why(),
        "Similar React dependencies should use the same version."
    );
}

#[test]
fn add_issues() {
    let ignored_issues = Vec::new();
    let mut issues = IssuesList::new(ignored_issues);

    issues.add(
        PackageType::Root,
        Some(AnyIssue::RootPackageManagerField(
            RootPackageManagerFieldIssue::new(),
        )),
    );
    assert_eq!(issues.total_len(), 1);

    issues.add_raw(
        PackageType::Root,
        AnyIssue::RootPackageManagerField(RootPackageManagerFieldIssue::new()),
    );
    assert_eq!(issues.total_len(), 2);

    issues.add(PackageType::Root, None);
    assert_eq!(issues.total_len(), 2);
}

#[test]
fn add_ignored() {
    let ignored_issues = vec!["root-package-manager-field".to_string()];
    let mut issues = IssuesList::new(ignored_issues);

    issues.add_raw(
        PackageType::Root,
        AnyIssue::RootPackageManagerField(RootPackageManagerFieldIssue::new()),
    );
    assert_eq!(issues.total_len(), 0);

    issues.add_raw(
        PackageType::Root,
        AnyIssue::RootPackageDependencies(RootPackageDependenciesIssue::new()),
    );
    assert_eq!(issues.total_len(), 1);
}

#[test]
fn len_by_level() {
    let ignored_issues = Vec::new();
    let mut issues = IssuesList::new(ignored_issues);

    issues.add_raw(
        PackageType::Root,
        AnyIssue::RootPackageManagerField(RootPackageManagerFieldIssue::new()),
    );
    issues.add_raw(
        PackageType::Root,
        AnyIssue::RootPackageDependencies(RootPackageDependenciesIssue::new()),
    );
    issues.add_raw(
        PackageType::Root,
        AnyIssue::RootPackageDependencies(RootPackageDependenciesIssue::new()),
    );
    issues.add_raw(
        PackageType::Root,
        AnyIssue::RootPackageDependencies(RootPackageDependenciesIssue::new()),
    );

    assert_eq!(issues.len_by_level(IssueLevel::Error), 1);
    assert_eq!(issues.len_by_level(IssueLevel::Warning), 3);
}

#[test]
fn root_package_manager_field_basics() {
    let issue = RootPackageManagerFieldIssue::new();

    assert_eq!(issue.name(), "root-package-manager-field");
    assert_eq!(issue.level(), IssueLevel::Error);
    assert_eq!(
        issue.why(),
        "The root package.json should specify the package manager and version to use. Useful for tools like corepack."
    );
}

#[test]
fn issue_levels_render() {
    assert_eq!(IssueLevel::Error.as_str(), "⨯ error");
    assert_eq!(IssueLevel::Warning.as_str(), "⚠️ warning");
    assert_eq!(IssueLevel::Fixed.as_str(), "✓ fixed");
}

#[test]
fn family_lookup() {
    assert_eq!(
        SimilarDependency::try_from("react"),
        Some(SimilarDependency::React)
    );
    assert_eq!(
        SimilarDependency::try_from("@trpc/client"),
        Some(SimilarDependency::Trpc)
    );
    assert_eq!(
        SimilarDependency::try_from("@tanstack/react-query"),
        Some(SimilarDependency::TanstackQuery)
    );
    assert_eq!(
        SimilarDependency::try_from("@storybook/addon-links"),
        Some(SimilarDependency::Storybook)
    );
    assert_eq!(SimilarDependency::try_from("left-pad"), None);
    assert_eq!(SimilarDependency::React.display_name(), "React");
    assert_eq!(SimilarDependency::Trpc.display_name(), "tRPC");
}

#[test]
fn empty_dependencies_message_names_the_block() {
    let issue = EmptyDependenciesIssue::new(DependencyKind::DevDependencies);
    assert_eq!(
        issue.message(),
        "  │ {\n  -   \"devDependencies\": {}   ← field is empty.\n  │ }"
    );
}

#[test]
fn multiple_dependency_versions_orders_and_annotates() {
    let issue = MultipleDependencyVersionsIssue::new(
        "test".to_string(),
        vec![
            ("./apps/package-b".to_string(), SemVersion::parse("1.2.3").unwrap()),
            ("./apps/package-a".to_string(), SemVersion::parse("5.6.3").unwrap()),
            ("./packages/package-c".to_string(), SemVersion::parse("3.1.6").unwrap()),
        ],
        None,
    );

    // Reordered: version ascending, path ascending on ties.
    assert_eq!(issue.versions[0].0, "./apps/package-b");
    assert_eq!(issue.versions[1].0, "./packages/package-c");
    assert_eq!(issue.versions[2].0, "./apps/package-a");

    let message = issue.message();
    assert_eq!(
        message,
        "  ./apps\n      package-b                 1.2.3   ↓ lowest\n  ./packages\n      package-c                 3.1.6   ∼ between\n  ./apps\n      package-a                 5.6.3   ↑ highest"
    );
}
