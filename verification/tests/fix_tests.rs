use sherif::args::Args;
use sherif::collect::collect_issues;
use sherif::fix::{divergence_fix_plan, fix_plan, manager_edit, FixPlan, JsonEdit};
use sherif::json::{
    move_types_to_dev, remove_empty_field, render_workspace_doc, retain_workspaces, serialize,
    set_version_in_section, sort_field, upsert_field, JsonValue,
};
use sherif::packages::{Package, PackageManifest, PackagesList, RootPackage};
use sherif::fix::prompt_options;
use sherif::rules::multiple_dependency_versions::MultipleDependencyVersionsIssue;
use sherif::rules::non_existant_packages::NonExistantPackagesIssue;
use sherif::rules::{AnyIssue, Issue, IssueLevel, IssuesList, PackageType};
use sherif::version::SemVersion;

fn obj(fields: Vec<(&str, JsonValue)>) -> JsonValue {
    JsonValue::Object(
        fields
            .into_iter()
            .map(|(k, v)| (k.to_string(), v))
            .collect(),
    )
}

fn text(s: &str) -> JsonValue {
    JsonValue::Text(s.to_string())
}

fn empty_manifest() -> PackageManifest {
    PackageManifest {
        name: None,
        private: None,
        workspaces: None,
        package_manager: None,
        dependencies: None,
        dev_dependencies: None,
        peer_dependencies: None,
        optional_dependencies: None,
    }
}

fn args() -> Args {
    Args {
        path: ".".to_string(),
        fix: false,
        select: None,
        no_install: false,
        fail_on_warnings: false,
        ignore_dependency: Vec::new(),
        ignore_package: Vec::new(),
        ignore_rule: Vec::new(),
    }
}

#[test]
fn serializer_renders_nested_documents() {
    let doc = obj(vec![
        ("name", text("demo")),
        ("private", JsonValue::Bool(true)),
        ("count", JsonValue::Number("3".to_string())),
        ("dependencies", obj(vec![("react", text("^1.2.3"))])),
        ("list", JsonValue::Array(vec![text("a"), text("b")])),
        ("nothing", JsonValue::Null),
    ]);
    let rendered = serialize(&doc, "  ", "\n");
    assert_eq!(
        rendered,
        "{\n  \"name\": \"demo\",\n  \"private\": true,\n  \"count\": 3,\n  \"dependencies\": {\n    \"react\": \"^1.2.3\"\n  },\n  \"list\": [\n    \"a\",\n    \"b\"\n  ],\n  \"nothing\": null\n}\n"
    );
}

#[test]
fn serializer_escapes_strings() {
    let doc = obj(vec![("key", text("a\"b\\c\nd"))]);
    let rendered = serialize(&doc, "  ", "\n");
    assert_eq!(rendered, "{\n  \"key\": \"a\\\"b\\\\c\\nd\"\n}\n");
}

#[test]
fn serializer_keeps_indentation_unit() {
    let doc = obj(vec![("a", JsonValue::Bool(false))]);
    assert_eq!(serialize(&doc, "    ", "\n"), "{\n    \"a\": false\n}\n");
    assert_eq!(serialize(&doc, "\t", "\r\n"), "{\n\t\"a\": false\n}\r\n");
    assert_eq!(serialize(&obj(vec![]), "  ", "\n"), "{}\n");
}

#[test]
fn empty_dependency_block_fix_removes_the_key() {
    // "dependencies": {} disappears entirely; it does not come back as {}.
    let doc = obj(vec![
        ("name", text("pkg")),
        ("dependencies", obj(vec![])),
    ]);
    let (fixed, changed) = remove_empty_field(doc, "dependencies");
    assert!(changed);
    let rendered = serialize(&fixed, "  ", "\n");
    assert!(!rendered.contains("dependencies"));
    assert_eq!(rendered, "{\n  \"name\": \"pkg\"\n}\n");
}

#[test]
fn non_empty_block_is_left_alone() {
    let doc = obj(vec![(
        "dependencies",
        obj(vec![("react", text("1.0.0"))]),
    )]);
    let (fixed, changed) = remove_empty_field(doc, "dependencies");
    assert!(!changed);
    let rendered = serialize(&fixed, "  ", "\n");
    assert!(rendered.contains("react"));
}

#[test]
fn private_field_fix_inserts_true() {
    let doc = obj(vec![("name", text("root")), ("private", JsonValue::Bool(false))]);
    let (fixed, changed) = upsert_field(doc, "private".to_string(), JsonValue::Bool(true));
    assert!(changed);
    let rendered = serialize(&fixed, "  ", "\n");
    assert!(rendered.contains("\"private\": true"));

    let doc = obj(vec![("name", text("root"))]);
    let (fixed, _) = upsert_field(doc, "private".to_string(), JsonValue::Bool(true));
    let rendered = serialize(&fixed, "  ", "\n");
    assert_eq!(
        rendered,
        "{\n  \"name\": \"root\",\n  \"private\": true\n}\n"
    );
}

#[test]
fn sort_fix_orders_the_keys() {
    let doc = obj(vec![(
        "dependencies",
        obj(vec![
            ("zzz", text("1.0.0")),
            ("aaa", text("2.0.0")),
            ("mmm", text("3.0.0")),
        ]),
    )]);
    let (fixed, changed) = sort_field(doc, "dependencies");
    assert!(changed);
    let rendered = serialize(&fixed, "  ", "\n");
    assert_eq!(
        rendered,
        "{\n  \"dependencies\": {\n    \"aaa\": \"2.0.0\",\n    \"mmm\": \"3.0.0\",\n    \"zzz\": \"1.0.0\"\n  }\n}\n"
    );
}

#[test]
fn divergence_fix_overwrites_both_sections() {
    let doc = obj(vec![
        ("dependencies", obj(vec![("react", text("1.2.3"))])),
        ("devDependencies", obj(vec![("react", text("0.9.0"))])),
    ]);
    let fixed = set_version_in_section(doc, "dependencies", "react", "4.5.6");
    let fixed = set_version_in_section(fixed, "devDependencies", "react", "4.5.6");
    let rendered = serialize(&fixed, "  ", "\n");
    assert_eq!(
        rendered,
        "{\n  \"dependencies\": {\n    \"react\": \"4.5.6\"\n  },\n  \"devDependencies\": {\n    \"react\": \"4.5.6\"\n  }\n}\n"
    );
}

#[test]
fn workspace_fix_drops_exactly_the_unmatched() {
    let doc = obj(vec![(
        "workspaces",
        JsonValue::Array(vec![text("apps/*"), text("empty/*"), text("docs")]),
    )]);
    let drop = vec!["empty/*".to_string(), "docs".to_string()];
    let (fixed, changed) = retain_workspaces(doc, &drop);
    assert!(changed);
    let rendered = serialize(&fixed, "  ", "\n");
    assert_eq!(
        rendered,
        "{\n  \"workspaces\": [\n    \"apps/*\"\n  ]\n}\n"
    );
}

#[test]
fn types_fix_moves_entries_preserving_versions() {
    let doc = obj(vec![
        (
            "dependencies",
            obj(vec![
                ("@types/react", text("18.0.1")),
                ("react", text("18.0.0")),
            ]),
        ),
    ]);
    let names = vec!["@types/react".to_string()];
    let (fixed, changed) = move_types_to_dev(doc, &names);
    assert!(changed);
    let rendered = serialize(&fixed, "  ", "\n");
    assert_eq!(
        rendered,
        "{\n  \"dependencies\": {\n    \"react\": \"18.0.0\"\n  },\n  \"devDependencies\": {\n    \"@types/react\": \"18.0.1\"\n  }\n}\n"
    );
}

#[test]
fn end_to_end_root_fix_pass() {
    // A root with "private": false and no packageManager: two issues, and
    // after the repairs both stand fixed and the manifest carries
    // "private": true.
    let mut m = empty_manifest();
    m.name = Some("root-issues".to_string());
    m.private = Some(false);
    let pl = PackagesList {
        root_package: RootPackage::new(Package::new(".".to_string(), m)),
        packages: Vec::new(),
        packages_issues: Vec::new(),
    };
    let mut issues = collect_issues(&args(), pl);
    assert_eq!(issues.total_len(), 2);

    let mut doc = obj(vec![
        ("name", text("root-issues")),
        ("private", JsonValue::Bool(false)),
    ]);
    let total = issues.total_len();
    for i in 0..total {
        match fix_plan(&issues, i, ".") {
            FixPlan::Manifest { path, edit } => {
                assert_eq!(path, "./package.json");
                match edit {
                    JsonEdit::InsertBool(key, value) => {
                        let (d, changed) = upsert_field(doc, key, JsonValue::Bool(value));
                        doc = d;
                        assert!(changed);
                        issues.mark_fixed(i);
                    }
                    _ => panic!("unexpected edit"),
                }
            }
            FixPlan::NeedsPackageManager { path } => {
                assert_eq!(path, "./package.json");
                match manager_edit("npm@10.0.0".to_string()) {
                    JsonEdit::InsertText(key, value) => {
                        let (d, changed) = upsert_field(doc, key, JsonValue::Text(value));
                        doc = d;
                        assert!(changed);
                        issues.mark_fixed(i);
                    }
                    _ => panic!("unexpected edit"),
                }
            }
            _ => panic!("unexpected plan"),
        }
    }
    assert_eq!(issues.entry(0).1.level(), IssueLevel::Fixed);
    assert_eq!(issues.entry(1).1.level(), IssueLevel::Fixed);
    let rendered = serialize(&doc, "  ", "\n");
    assert!(rendered.contains("\"private\": true"));
    assert!(rendered.contains("\"packageManager\": \"npm@10.0.0\""));
}

#[test]
fn fix_pass_is_idempotent() {
    // Repairing an already-repaired workspace: the second check pass over
    // the repaired manifests reports nothing new.
    let mut root_doc = obj(vec![
        ("name", text("ws")),
        ("private", JsonValue::Bool(false)),
    ]);
    let mut pkg_doc = obj(vec![
        ("name", text("pkg")),
        ("dependencies", obj(vec![])),
        (
            "devDependencies",
            obj(vec![("zzz", text("1.0.0")), ("aaa", text("1.0.0"))]),
        ),
    ]);

    // First pass: repair everything the rules flag.
    let (d, _) = upsert_field(root_doc, "private".to_string(), JsonValue::Bool(true));
    let (d, _) = upsert_field(d, "packageManager".to_string(), text("npm@10.0.0"));
    root_doc = d;
    let (d, _) = remove_empty_field(pkg_doc, "dependencies");
    let (d, _) = sort_field(d, "devDependencies");
    pkg_doc = d;

    // Decode the repaired documents back into manifests, as the runner
    // would by re-reading the files.
    let root_manifest = manifest_from(&root_doc);
    let pkg_manifest = manifest_from(&pkg_doc);
    let pl = PackagesList {
        root_package: RootPackage::new(Package::new(".".to_string(), root_manifest)),
        packages: vec![Package::new("./pkg".to_string(), pkg_manifest)],
        packages_issues: Vec::new(),
    };
    let issues = collect_issues(&args(), pl);
    assert_eq!(issues.total_len(), 0);
}

fn manifest_from(doc: &JsonValue) -> PackageManifest {
    let mut m = empty_manifest();
    if let JsonValue::Object(fields) = doc {
        for (key, value) in fields {
            match (key.as_str(), value) {
                ("name", JsonValue::Text(s)) => m.name = Some(s.clone()),
                ("private", JsonValue::Bool(b)) => m.private = Some(*b),
                ("packageManager", JsonValue::Text(s)) => m.package_manager = Some(s.clone()),
                ("dependencies", JsonValue::Object(deps)) => {
                    m.dependencies = Some(dep_pairs(deps))
                }
                ("devDependencies", JsonValue::Object(deps)) => {
                    m.dev_dependencies = Some(dep_pairs(deps))
                }
                _ => {}
            }
        }
    }
    m
}

fn dep_pairs(fields: &Vec<(String, JsonValue)>) -> Vec<(String, String)> {
    fields
        .iter()
        .filter_map(|(k, v)| match v {
            JsonValue::Text(s) => Some((k.clone(), s.clone())),
            _ => None,
        })
        .collect()
}

#[test]
fn divergence_plan_targets_every_declaring_manifest() {
    let issue = MultipleDependencyVersionsIssue::new(
        "react".to_string(),
        vec![
            ("./a".to_string(), SemVersion::parse("1.2.3").unwrap()),
            ("./b".to_string(), SemVersion::parse("4.5.6").unwrap()),
        ],
        None,
    );
    let chosen = issue.autofix_version(sherif::args::AutofixSelect::Highest);
    assert_eq!(chosen, Some("4.5.6".to_string()));
    let lowest = issue.autofix_version(sherif::args::AutofixSelect::Lowest);
    assert_eq!(lowest, Some("1.2.3".to_string()));

    match divergence_fix_plan(&issue, chosen) {
        FixPlan::ManyManifests {
            paths,
            name,
            version,
        } => {
            assert_eq!(name, "react");
            assert_eq!(version, "4.5.6");
            assert_eq!(
                paths,
                vec!["./a/package.json".to_string(), "./b/package.json".to_string()]
            );
        }
        _ => panic!("expected a many-manifests plan"),
    }
    assert!(matches!(divergence_fix_plan(&issue, None), FixPlan::NoOp));
}

#[test]
fn skipped_choice_leaves_issue_reported() {
    let mut m = empty_manifest();
    m.name = Some("root-issues".to_string());
    let pl = PackagesList {
        root_package: RootPackage::new(Package::new(".".to_string(), {
            let mut r = empty_manifest();
            r.private = Some(true);
            r.package_manager = Some("npm@10".to_string());
            r
        })),
        packages: vec![
            Package::new("./a".to_string(), {
                let mut p = empty_manifest();
                p.name = Some("a".to_string());
                p.dependencies = Some(vec![("react".to_string(), "1.2.3".to_string())]);
                p
            }),
            Package::new("./b".to_string(), {
                let mut p = empty_manifest();
                p.name = Some("b".to_string());
                p.dependencies = Some(vec![("react".to_string(), "4.5.6".to_string())]);
                p
            }),
        ],
        packages_issues: Vec::new(),
    };
    let issues = collect_issues(&args(), pl);
    assert_eq!(issues.total_len(), 1);
    assert!(matches!(
        fix_plan(&issues, 0, "."),
        FixPlan::NeedsVersionChoice
    ));
    // Declining the prompt plans nothing; the finding stays an error.
    assert_eq!(issues.entry(0).1.level(), IssueLevel::Error);
}

#[test]
fn prompt_options_offer_distinct_labels() {
    let issue = MultipleDependencyVersionsIssue::new(
        "react".to_string(),
        vec![
            ("./a".to_string(), SemVersion::parse("1.2.3").unwrap()),
            ("./b".to_string(), SemVersion::parse("3.1.6").unwrap()),
            ("./c".to_string(), SemVersion::parse("3.1.6").unwrap()),
        ],
        None,
    );
    let options = prompt_options(&issue);
    assert_eq!(options.len(), 2);
    assert_eq!(options[0].1, "1.2.3");
    assert_eq!(options[0].0, "1.2.3   ↓ lowest");
    assert_eq!(options[1].1, "3.1.6");
    assert_eq!(options[1].0, "3.1.6   ↑ highest");
}

#[test]
fn non_existant_fix_plan_matches_source() {
    let mut issues = IssuesList::new(Vec::new());
    issues.add_raw(
        PackageType::Workspace,
        AnyIssue::NonExistantPackages(NonExistantPackagesIssue::new(
            true,
            vec!["apps/*".to_string(), "empty/*".to_string()],
            vec!["empty/*".to_string()],
        )),
    );
    match fix_plan(&issues, 0, ".") {
        FixPlan::WorkspaceDocument { path, drop } => {
            assert_eq!(path, "./pnpm-workspace.yaml");
            assert_eq!(drop, vec!["empty/*".to_string()]);
        }
        _ => panic!("expected a workspace-document plan"),
    }

    let mut issues = IssuesList::new(Vec::new());
    issues.add_raw(
        PackageType::Workspace,
        AnyIssue::NonExistantPackages(NonExistantPackagesIssue::new(
            false,
            vec!["apps/*".to_string(), "empty/*".to_string()],
            vec!["empty/*".to_string()],
        )),
    );
    match fix_plan(&issues, 0, ".") {
        FixPlan::Manifest { path, edit } => {
            assert_eq!(path, "./package.json");
            assert!(matches!(edit, JsonEdit::RetainWorkspaces(_)));
        }
        _ => panic!("expected a manifest plan"),
    }
}

#[test]
fn workspace_document_renders_with_detected_style() {
    let kept = vec!["apps/*".to_string(), "docs".to_string()];
    assert_eq!(
        render_workspace_doc(&kept, "  ", "\n"),
        "packages:\n  - \"apps/*\"\n  - \"docs\"\n"
    );
    assert_eq!(
        render_workspace_doc(&Vec::new(), "  ", "\r\n"),
        "packages:\r\n"
    );
}
