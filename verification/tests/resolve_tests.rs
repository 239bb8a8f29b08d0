use sherif::resolve::{
    expand_patterns, expansion_requests, join_rel, partition_patterns, resolution_requests,
    resolve_patterns, Answer, DirEntry, Request,
};

fn entry(name: &str, is_dir: bool) -> DirEntry {
    DirEntry {
        name: name.to_string(),
        is_dir,
    }
}

#[test]
fn partition_records_exclusions_first() {
    let patterns: Vec<String> = vec!["packages/*".into(), "!packages/excluded".into()];
    let (exclusions, inclusions) = partition_patterns("root", &patterns);
    assert_eq!(exclusions, vec!["root/packages/excluded".to_string()]);
    assert_eq!(inclusions, vec!["packages/*".to_string()]);
}

#[test]
fn partition_strips_wildcard_exclusions() {
    let patterns: Vec<String> = vec!["!apps/*".into(), "apps/*".into()];
    let (exclusions, inclusions) = partition_patterns("root", &patterns);
    assert_eq!(exclusions, vec!["root/apps".to_string()]);
    assert_eq!(inclusions, vec!["apps/*".to_string()]);
}

#[test]
fn glob_resolution_with_exclusion() {
    // Patterns ["packages/*", "!packages/excluded"] against packages/{a,b,excluded}:
    // the resolved set is exactly {a, b}.
    let patterns: Vec<String> = vec!["packages/*".into(), "!packages/excluded".into()];
    let (exclusions, inclusions) = partition_patterns("root", &patterns);

    let requests = resolution_requests("root", &inclusions);
    assert_eq!(requests.len(), 1);
    match &requests[0] {
        Request::List(dir) => assert_eq!(dir, "root/packages"),
        Request::Probe(_) => panic!("expected a listing request"),
    }

    let answers = vec![Answer::Entries(Some(vec![
        entry("a", true),
        entry("b", true),
        entry("excluded", true),
        entry("readme.txt", false),
    ]))];
    let resolution = resolve_patterns("root", &inclusions, &exclusions, &answers);
    assert_eq!(
        resolution.candidates,
        vec!["root/packages/a".to_string(), "root/packages/b".to_string()]
    );
    assert_eq!(resolution.unmatched.len(), 0);
}

#[test]
fn glob_resolution_missing_directory_is_unmatched() {
    // Pattern "missing/*" against a tree without `missing`: zero packages,
    // the pattern recorded as unmatched.
    let patterns: Vec<String> = vec!["missing/*".into()];
    let (exclusions, inclusions) = partition_patterns("root", &patterns);
    let answers = vec![Answer::Entries(None)];
    let resolution = resolve_patterns("root", &inclusions, &exclusions, &answers);
    assert_eq!(resolution.candidates.len(), 0);
    assert_eq!(resolution.unmatched, vec!["missing/*".to_string()]);
}

#[test]
fn exact_pattern_probes_and_matches() {
    let patterns: Vec<String> = vec!["docs".into()];
    let (exclusions, inclusions) = partition_patterns("root", &patterns);
    let requests = resolution_requests("root", &inclusions);
    match &requests[0] {
        Request::Probe(path) => assert_eq!(path, "root/docs"),
        Request::List(_) => panic!("expected a probe request"),
    }
    let resolution = resolve_patterns("root", &inclusions, &exclusions, &vec![Answer::Dir(true)]);
    assert_eq!(resolution.candidates, vec!["root/docs".to_string()]);
    assert_eq!(resolution.unmatched.len(), 0);

    let resolution = resolve_patterns("root", &inclusions, &exclusions, &vec![Answer::Dir(false)]);
    assert_eq!(resolution.candidates.len(), 0);
    assert_eq!(resolution.unmatched, vec!["docs".to_string()]);
}

#[test]
fn hidden_directories_are_skipped() {
    let patterns: Vec<String> = vec!["packages/*".into()];
    let (exclusions, inclusions) = partition_patterns("root", &patterns);
    let answers = vec![Answer::Entries(Some(vec![
        entry(".cache", true),
        entry("a", true),
    ]))];
    let resolution = resolve_patterns("root", &inclusions, &exclusions, &answers);
    assert_eq!(resolution.candidates, vec!["root/packages/a".to_string()]);
}

#[test]
fn name_prefix_pattern_filters_entries() {
    let patterns: Vec<String> = vec!["packages/app-*".into()];
    let (exclusions, inclusions) = partition_patterns("root", &patterns);
    let requests = resolution_requests("root", &inclusions);
    match &requests[0] {
        Request::List(dir) => assert_eq!(dir, "root/packages"),
        Request::Probe(_) => panic!("expected a listing request"),
    }
    let answers = vec![Answer::Entries(Some(vec![
        entry("app-one", true),
        entry("lib-two", true),
        entry("app-two", true),
    ]))];
    let resolution = resolve_patterns("root", &inclusions, &exclusions, &answers);
    assert_eq!(
        resolution.candidates,
        vec![
            "root/packages/app-one".to_string(),
            "root/packages/app-two".to_string()
        ]
    );
}

#[test]
fn mid_pattern_wildcard_expands_per_subdirectory() {
    let inclusions: Vec<String> = vec!["apps/*/packages".into(), "docs".into()];
    let requests = expansion_requests("root", &inclusions);
    assert_eq!(requests.len(), 2);
    assert_eq!(requests[0], Some("root/apps".to_string()));
    assert_eq!(requests[1], None);

    let answers = vec![
        Some(vec![entry("one", true), entry("note.md", false), entry("two", true)]),
        None,
    ];
    let expanded = expand_patterns(&inclusions, &answers);
    assert_eq!(
        expanded,
        vec![
            "apps/one/packages".to_string(),
            "apps/two/packages".to_string(),
            "docs".to_string()
        ]
    );
}

#[test]
fn mid_pattern_wildcard_listing_failure_keeps_pattern() {
    let inclusions: Vec<String> = vec!["apps/**/pkg".into()];
    let answers = vec![None];
    let expanded = expand_patterns(&inclusions, &answers);
    assert_eq!(expanded, vec!["apps/**/pkg".to_string()]);
}

#[test]
fn exclusion_does_not_eat_deeper_paths() {
    // The guard on "no further path segment" only blocks deeper nesting:
    // an exclusion of packages/a leaves packages/a itself out but not a
    // sibling listing under another parent.
    let patterns: Vec<String> = vec!["packages/*".into(), "!packages/a".into()];
    let (exclusions, inclusions) = partition_patterns("root", &patterns);
    let answers = vec![Answer::Entries(Some(vec![
        entry("a", true),
        entry("ab", true),
    ]))];
    let resolution = resolve_patterns("root", &inclusions, &exclusions, &answers);
    // "root/packages/ab" starts with "root/packages/a" and has no further
    // segment, so the prefix exclusion takes it too.
    assert_eq!(resolution.candidates.len(), 0);
}

#[test]
fn join_rel_handles_empty() {
    assert_eq!(join_rel("root", ""), "root");
    assert_eq!(join_rel("root", "a/b"), "root/a/b");
}
