use lazygocd::model::{
    flatten_artifacts, next_page_cursor, parse_branch, parse_git_host_owner_repo, rollup_status,
    upstream_deps, ArtifactNode, BuildCause, DashboardInstance, DashboardInstanceEmbedded,
    DashboardPipeline, DashboardPipelineEmbedded, DashboardStage, MaterialInfo, MaterialRevision,
    Modification, PauseInfo, PipelineInstance, StageInstance,
};
use lazygocd::names::NameSet;

fn set(names: &[&str]) -> NameSet {
    let mut out = NameSet::new();
    for n in names {
        out.insert(n);
    }
    out
}

#[test]
fn next_page_cursor_parses_after_param() {
    assert_eq!(
        next_page_cursor("http://go/api/pipelines/x/history?after=205"),
        Some(205)
    );
    assert_eq!(
        next_page_cursor("/go/api/pipelines/x/history?page_size=10&after=42"),
        Some(42)
    );
    assert_eq!(
        next_page_cursor("/go/api/pipelines/x/history?after=42&page_size=10"),
        Some(42)
    );
    assert_eq!(next_page_cursor("/go/api/pipelines/x/history"), None);
    assert_eq!(next_page_cursor("/history?before=9"), None);
    assert_eq!(next_page_cursor("/history?after=notanumber"), None);
}

#[test]
fn parse_host_owner_repo_forms() {
    let f = |desc: &str| parse_git_host_owner_repo(desc);
    assert_eq!(
        f("URL: git@github.com:acme/web-app.git, Branch: main"),
        Some(("github.com".into(), "acme".into(), "web-app".into()))
    );
    assert_eq!(
        f("URL: https://github.com/acme/web-app, Branch: main"),
        Some(("github.com".into(), "acme".into(), "web-app".into()))
    );
    assert_eq!(
        f("URL: git@ghe.corp.io:platform/deploy.git, Branch: release"),
        Some(("ghe.corp.io".into(), "platform".into(), "deploy".into()))
    );
    assert_eq!(
        f("URL: https://ghe.corp.io/platform/deploy.git, Branch: release"),
        Some(("ghe.corp.io".into(), "platform".into(), "deploy".into()))
    );
    assert_eq!(
        f("URL: http://git.internal/team/tool, Branch: dev"),
        Some(("git.internal".into(), "team".into(), "tool".into()))
    );
    assert_eq!(f("URL: /local/bare/repo.git, Branch: main"), None);
    assert_eq!(f("no url here"), None);
    assert_eq!(f("URL: https://host/only-owner, Branch: x"), None);
}

fn git_revision(url: &str, branch: &str, sha: &str) -> MaterialRevision {
    MaterialRevision {
        material: MaterialInfo {
            kind: Some("Git".into()),
            description: Some(format!("URL: {url}, Branch: {branch}")),
        },
        modifications: vec![Modification {
            revision: Some(sha.into()),
            user_name: None,
            comment: None,
            modified_time: None,
        }],
    }
}

#[test]
fn git_refs_returns_all_git_materials_in_order() {
    let inst = PipelineInstance {
        name: "p".into(),
        label: "l".into(),
        counter: 1,
        comment: None,
        scheduled_date: None,
        stages: Vec::new(),
        build_cause: Some(BuildCause {
            trigger_message: None,
            approver: None,
            material_revisions: vec![
                git_revision("git@github.com:acme/web-app.git", "main", "aaa"),
                MaterialRevision {
                    material: MaterialInfo {
                        kind: Some("Pipeline".into()),
                        description: None,
                    },
                    modifications: Vec::new(),
                },
                git_revision("https://ghe.corp.io/platform/deploy", "release", "bbb"),
            ],
        }),
    };
    let refs = inst.git_refs();
    assert_eq!(refs.len(), 2);
    assert_eq!(
        (
            refs[0].host.as_str(),
            refs[0].repo.as_str(),
            refs[0].deployed_sha.as_str()
        ),
        ("github.com", "web-app", "aaa")
    );
    assert_eq!(
        (
            refs[1].host.as_str(),
            refs[1].branch.as_str(),
            refs[1].deployed_sha.as_str()
        ),
        ("ghe.corp.io", "release", "bbb")
    );
    assert_eq!(inst.git_ref().unwrap().deployed_sha, "aaa");
    assert_eq!(refs[0].key(), "github.com/acme/web-app@main");
}

#[test]
fn git_refs_empty_without_git_materials() {
    let inst = PipelineInstance {
        name: "p".into(),
        label: "l".into(),
        counter: 1,
        comment: None,
        scheduled_date: None,
        stages: Vec::new(),
        build_cause: None,
    };
    assert!(inst.git_refs().is_empty());
    assert!(inst.git_ref().is_none());
}

fn pipeline_material(revision: &str) -> MaterialRevision {
    MaterialRevision {
        material: MaterialInfo {
            kind: Some("Pipeline".into()),
            description: Some("upstream [ stage ]".into()),
        },
        modifications: vec![Modification {
            revision: Some(revision.into()),
            user_name: None,
            comment: None,
            modified_time: None,
        }],
    }
}

fn instance_with(revisions: Vec<MaterialRevision>) -> PipelineInstance {
    PipelineInstance {
        name: "deploy".into(),
        label: "l".into(),
        counter: 12,
        comment: None,
        scheduled_date: None,
        stages: Vec::new(),
        build_cause: Some(BuildCause {
            trigger_message: None,
            approver: None,
            material_revisions: revisions,
        }),
    }
}

// A deploy run's only material is an upstream dependency, so this parse is
// the whole reason the GitHub check works on deploy pipelines at all.
#[test]
fn upstream_deps_parses_pipeline_material_revisions() {
    let inst = instance_with(vec![pipeline_material("my-build/389/lint-test-build/1")]);
    assert_eq!(upstream_deps(&inst), vec![("my-build".to_string(), 389)]);
}

#[test]
fn upstream_deps_ignores_git_materials_and_malformed_revisions() {
    let git = git_revision("git@github.com:a/b.git", "main", "deadbeef");
    assert!(upstream_deps(&instance_with(vec![git])).is_empty());

    for bad in ["no-slashes", "name/notanumber/stage/1", "/389/stage/1"] {
        assert!(
            upstream_deps(&instance_with(vec![pipeline_material(bad)])).is_empty(),
            "{bad:?} should not yield a dependency"
        );
    }
}

#[test]
fn upstream_deps_returns_every_dependency_in_order() {
    let inst = instance_with(vec![
        pipeline_material("build-a/10/stage/1"),
        pipeline_material("build-b/22/stage/1"),
    ]);
    assert_eq!(
        upstream_deps(&inst),
        vec![("build-a".to_string(), 10), ("build-b".to_string(), 22)]
    );
}

#[test]
fn flatten_artifacts_walks_the_tree_and_keeps_depth() {
    let file = |name: &str, url: &str| ArtifactNode {
        name: name.into(),
        url: Some(url.into()),
        kind: Some("file".into()),
        files: vec![],
    };
    let tree = vec![ArtifactNode {
        name: "dist".into(),
        url: None,
        kind: Some("folder".into()),
        files: vec![
            file("app.tar.gz", "https://x/app.tar.gz"),
            ArtifactNode {
                name: "maps".into(),
                url: None,
                kind: Some("folder".into()),
                files: vec![file("a.map", "https://x/a.map")],
            },
        ],
    }];

    // Closed by default: only the top level is visible.
    let none = NameSet::new();
    let rows = flatten_artifacts(&tree, &none);
    assert_eq!(rows.len(), 1, "a closed folder must not show its children");
    assert_eq!(rows[0].name, "dist");
    assert!(rows[0].is_folder);
    assert!(!rows[0].expanded);

    // Opening one folder reveals only its direct children.
    let open_dist = set(&["dist"]);
    let rows = flatten_artifacts(&tree, &open_dist);
    let shape: Vec<(usize, &str, bool)> = rows
        .iter()
        .map(|r| (r.depth, r.name.as_str(), r.is_folder))
        .collect();
    assert_eq!(
        shape,
        vec![(0, "dist", true), (1, "app.tar.gz", false), (1, "maps", true)],
        "a nested folder stays closed until opened itself"
    );

    // Opening the nested one too walks the full depth.
    let open_both = set(&["dist", "dist/maps"]);
    let rows = flatten_artifacts(&tree, &open_both);
    assert_eq!(rows.len(), 4);
    assert_eq!(rows[3].name, "a.map");
    assert_eq!(rows[3].depth, 2);
    // Paths are ancestry-qualified so same-named folders never share state.
    assert_eq!(rows[2].path, "dist/maps");

    // Files keep a URL so 'o' and 'y' have something to act on; folders don't.
    assert_eq!(rows[1].url.as_deref(), Some("https://x/app.tar.gz"));
    assert_eq!(rows[0].url, None);
}

// Drives whether 'X' can cancel: wrong here means offering to cancel a
// finished run, or refusing to cancel a live one.
#[test]
fn stage_is_active_only_while_running_or_scheduled() {
    let stage = |st: Option<&str>| StageInstance {
        name: "build".into(),
        status: st.map(str::to_string),
        approval_type: None,
        scheduled_date: None,
        counter: None,
        jobs: vec![],
    };
    assert!(stage(Some("Building")).is_active());
    assert!(stage(Some("Scheduled")).is_active());
    for done in ["Passed", "Failed", "Cancelled", "Unknown"] {
        assert!(!stage(Some(done)).is_active(), "{done} should not be active");
    }
    assert!(!stage(None).is_active());
}

// A node with children is a folder even if GoCD omits the type field,
// otherwise its children would be unreachable.
#[test]
fn a_node_with_children_counts_as_a_folder_without_a_type() {
    let tree = vec![ArtifactNode {
        name: "untyped".into(),
        url: None,
        kind: None,
        files: vec![ArtifactNode {
            name: "inner.txt".into(),
            url: Some("https://x/inner.txt".into()),
            kind: None,
            files: vec![],
        }],
    }];
    let rows = flatten_artifacts(&tree, &NameSet::new());
    assert_eq!(rows.len(), 1);
    assert!(rows[0].is_folder, "a node with children must be expandable");

    let open = set(&["untyped"]);
    assert_eq!(flatten_artifacts(&tree, &open).len(), 2);
}

// Same folder name under different parents must not share open state.
#[test]
fn identically_named_folders_have_distinct_paths() {
    let leaf = |n: &str| ArtifactNode {
        name: n.into(),
        url: Some("https://x".into()),
        kind: Some("file".into()),
        files: vec![],
    };
    let branch = |n: &str| ArtifactNode {
        name: n.into(),
        url: None,
        kind: Some("folder".into()),
        files: vec![ArtifactNode {
            name: "logs".into(),
            url: None,
            kind: Some("folder".into()),
            files: vec![leaf("a.txt")],
        }],
    };
    let tree = vec![branch("one"), branch("two")];
    let open = set(&["one", "one/logs", "two"]);
    let rows = flatten_artifacts(&tree, &open);
    let opened: Vec<(&str, bool)> = rows.iter().map(|r| (r.path.as_str(), r.expanded)).collect();
    assert!(opened.contains(&("one/logs", true)));
    assert!(opened.contains(&("two/logs", false)), "two/logs must stay closed");
}

#[test]
fn rollup_goes_by_the_worst_stage() {
    assert_eq!(
        rollup_status(&vec![Some("Passed"), Some("Failed"), Some("Building")]),
        "Failed"
    );
    assert_eq!(
        rollup_status(&vec![Some("Building"), Some("Passed"), Some("Failed")]),
        "Failed"
    );
    assert_eq!(rollup_status(&vec![Some("Passed"), Some("Building")]), "Building");
    assert_eq!(rollup_status(&vec![Some("Passed"), Some("Passed")]), "Passed");
    assert_eq!(rollup_status(&vec![Some("Passed"), None]), "Unknown");
    assert_eq!(rollup_status(&vec![Some("Cancelled"), Some("Passed")]), "Cancelled");
}

#[test]
fn latest_status_of_a_dashboard_pipeline() {
    let with = |instances: Vec<DashboardInstance>| DashboardPipeline {
        name: "p".into(),
        locked: false,
        pause_info: PauseInfo {
            paused: false,
            paused_by: None,
            pause_reason: None,
        },
        can_pause: true,
        can_operate: true,
        embedded: DashboardPipelineEmbedded { instances },
    };
    let instance = |status: &str| DashboardInstance {
        label: "1".into(),
        counter: 1,
        triggered_by: None,
        embedded: DashboardInstanceEmbedded {
            stages: vec![DashboardStage {
                name: "build".into(),
                status: Some(status.into()),
            }],
        },
    };
    assert_eq!(with(vec![instance("Failed")]).latest_status(), "Failed");
    assert_eq!(
        with(vec![instance("Failed"), instance("Passed")]).latest_status(),
        "Failed",
        "the first instance is the latest"
    );
    assert_eq!(with(vec![]).latest_status(), "Unknown");
}

#[test]
fn branches_of_material_descriptions() {
    assert_eq!(
        parse_branch("URL: git@github.com:a/b.git, Branch: release/1.0"),
        Some("release/1.0".to_string())
    );
    assert_eq!(parse_branch("URL: git@github.com:a/b.git"), None);
}

// Whatever a material's text says, a reference only holds characters that are
// safe in a URL.
#[test]
fn references_with_odd_characters_are_refused() {
    assert_eq!(
        parse_git_host_owner_repo("URL: https://github.com&calc/acme/web-app, Branch: main"),
        None
    );
    assert_eq!(
        parse_git_host_owner_repo("URL: https://github.com/ac|me/web-app, Branch: main"),
        None
    );
    assert_eq!(
        parse_git_host_owner_repo("URL: https://github.com/acme/web`id`, Branch: main"),
        None
    );
}

#[test]
fn opening_folders_only_adds_rows() {
    let leaf = |n: &str| ArtifactNode {
        name: n.into(),
        url: None,
        kind: Some("file".into()),
        files: vec![],
    };
    let folder = |n: &str, files: Vec<ArtifactNode>| ArtifactNode {
        name: n.into(),
        url: None,
        kind: Some("folder".into()),
        files,
    };
    let tree = vec![
        folder("a", vec![leaf("x"), folder("b", vec![leaf("y")])]),
        leaf("z"),
    ];
    let paths = |open: &[&str]| -> Vec<String> {
        flatten_artifacts(&tree, &set(open))
            .into_iter()
            .map(|r| r.path)
            .collect()
    };
    assert_eq!(paths(&["a"]), vec!["a", "a/x", "a/b", "z"]);
    assert_eq!(paths(&["a", "a/b"]), vec!["a", "a/x", "a/b", "a/b/y", "z"]);
    // A folder that is not on screen, and a file.
    assert_eq!(paths(&["a/b"]), paths(&[]));
    assert_eq!(paths(&["z"]), paths(&[]));
    let rows = flatten_artifacts(&tree, &set(&["a", "a/b"]));
    for pair in rows.windows(2) {
        if pair[1].depth > pair[0].depth {
            assert!(pair[0].expanded && pair[1].depth == pair[0].depth + 1);
        }
    }
}
