use lazygocd::app::favorites::{listed, load_favorites, save_favorites};
use lazygocd::app::trace::{Trace, MAX_HOPS};
use lazygocd::app::{
    auth_hint, base64, clipboard_sequence, format_age, fuzzy_match, merge_history_pages,
    new_failures, open_url, parse_env_var,
};
use lazygocd::model::{
    BuildCause, DashboardInstance, DashboardInstanceEmbedded, DashboardPipeline,
    DashboardPipelineEmbedded, DashboardStage, MaterialInfo, MaterialRevision, Modification,
    PauseInfo, PipelineInstance,
};
use lazygocd::names::{NameMap, NameSet};

// Windows opens URLs through `cmd /C start`, which re-parses metacharacters
// that argument quoting leaves untouched.
#[test]
fn open_url_refuses_shell_metacharacters() {
    for hostile in [
        "https://github.com&calc/acme/web-app/commit/abc",
        "https://github.com/acme/web-app/commit/abc|whoami",
        "https://github.com/acme/web app/commit/abc",
        "https://github.com/acme/web-app/commit/`id`",
        "https://github.com/acme/%PATH%/commit/abc",
    ] {
        assert!(open_url(hostile).is_err(), "accepted {hostile:?}");
    }
    assert!(open_url("https://github.com/acme/web-app/commit/abc").is_ok());
}

#[test]
fn base64_rfc4648_vectors() {
    assert_eq!(base64(b""), "");
    assert_eq!(base64(b"f"), "Zg==");
    assert_eq!(base64(b"fo"), "Zm8=");
    assert_eq!(base64(b"foo"), "Zm9v");
    assert_eq!(base64(b"foobar"), "Zm9vYmFy");
}

#[test]
fn fuzzy_match_subsequence() {
    assert_eq!(
        fuzzy_match("deploy-to-production", "dtp"),
        Some(vec![0, 7, 10])
    );
    assert_eq!(
        fuzzy_match("Deploy-Prod", "dep prod"),
        Some(vec![0, 1, 2, 7, 8, 9, 10])
    );
    assert_eq!(fuzzy_match("alpha", "px"), None);
    assert_eq!(fuzzy_match("abc", ""), Some(vec![]));
    // Chars must appear in order, not just anywhere.
    assert_eq!(fuzzy_match("ba", "ab"), None);
}

#[test]
fn parse_env_var_forms() {
    assert_eq!(
        parse_env_var("FOO=bar"),
        Some(("FOO".into(), "bar".into()))
    );
    assert_eq!(
        parse_env_var(" FOO =a=b"),
        Some(("FOO".into(), "a=b".into()))
    );
    assert_eq!(parse_env_var("FOO="), Some(("FOO".into(), String::new())));
    assert_eq!(parse_env_var("=bar"), None);
    assert_eq!(parse_env_var("no-equals"), None);
}

fn pipeline(name: &str, status: &str) -> DashboardPipeline {
    DashboardPipeline {
        name: name.to_string(),
        locked: false,
        pause_info: PauseInfo {
            paused: false,
            paused_by: None,
            pause_reason: None,
        },
        can_pause: true,
        can_operate: true,
        embedded: DashboardPipelineEmbedded {
            instances: vec![DashboardInstance {
                label: "l".into(),
                counter: 1,
                triggered_by: None,
                embedded: DashboardInstanceEmbedded {
                    stages: vec![DashboardStage {
                        name: "build".into(),
                        status: Some(status.to_string()),
                    }],
                },
            }],
        },
    }
}

fn snapshot(entries: &[(&str, &str)]) -> NameMap<DashboardPipeline> {
    let mut out = NameMap::new();
    for (n, s) in entries {
        out.insert(n, pipeline(n, s));
    }
    out
}

fn set(names: &[&str]) -> NameSet {
    let mut out = NameSet::new();
    for n in names {
        out.insert(n);
    }
    out
}

#[test]
fn new_failures_fires_only_on_favorited_edge_transitions() {
    let favorites = set(&["a", "b", "c"]);
    let old = snapshot(&[("a", "Passed"), ("b", "Failed"), ("d", "Passed")]);
    let new = snapshot(&[
        ("a", "Failed"),
        ("b", "Failed"),
        ("c", "Failed"),
        ("d", "Failed"),
    ]);
    // a: Passed->Failed and favorited -> fires. b: already Failed -> no.
    // c: unknown before (no observed transition) -> no. d: not favorited -> no.
    assert_eq!(
        new_failures(&old, &new, &favorites),
        vec!["a".to_string()]
    );
}

fn run(counter: i64) -> PipelineInstance {
    PipelineInstance {
        name: "p".into(),
        label: format!("l{counter}"),
        counter,
        comment: None,
        scheduled_date: None,
        stages: Vec::new(),
        build_cause: None,
    }
}

#[test]
fn merge_history_pages_keeps_paginated_tail_on_overlap() {
    // Cached: 61..=46 (paginated). Fresh page one after 3 new runs: 64..=57.
    let cached: Vec<_> = (46..=61).rev().map(run).collect();
    let fresh: Vec<_> = (57..=64).rev().map(run).collect();
    let (merged, kept) = merge_history_pages(fresh, cached);
    assert!(kept);
    let counters: Vec<i64> = merged.iter().map(|i| i.counter).collect();
    assert_eq!(counters, (46..=64).rev().collect::<Vec<i64>>());
}

#[test]
fn merge_history_pages_resets_on_gap_or_no_pagination() {
    // Gap: 10 new runs pushed the fresh page entirely above the cached range.
    let cached: Vec<_> = (54..=61).rev().map(run).collect();
    let fresh: Vec<_> = (64..=71).rev().map(run).collect();
    let (merged, kept) = merge_history_pages(fresh, cached);
    assert!(!kept);
    assert_eq!(merged.first().unwrap().counter, 71);
    assert_eq!(merged.len(), 8);
    // Cached no deeper than the fresh page: plain replacement.
    let (merged, kept) = merge_history_pages(
        (54..=61).rev().map(run).collect(),
        (54..=61).rev().map(run).collect(),
    );
    assert!(!kept);
    assert_eq!(merged.len(), 8);
    // Empty cache (first load).
    let (merged, kept) = merge_history_pages(vec![run(1)], Vec::new());
    assert!(!kept);
    assert_eq!(merged.len(), 1);
}

#[test]
fn new_failures_recovery_then_refailure_fires_again() {
    let favorites = set(&["a"]);
    let red = snapshot(&[("a", "Failed")]);
    let green = snapshot(&[("a", "Passed")]);
    assert!(new_failures(&red, &green, &favorites).is_empty());
    assert_eq!(
        new_failures(&green, &red, &favorites),
        vec!["a".to_string()]
    );
}

#[test]
fn an_unchanged_snapshot_is_no_news() {
    let favorites = set(&["a", "b"]);
    let s = snapshot(&[("a", "Failed"), ("b", "Passed")]);
    assert!(new_failures(&s, &s, &favorites).is_empty());
}

#[test]
fn base64_text_has_four_letters_for_three_bytes() {
    assert_eq!(base64(&[0xff, 0xfe, 0xfd]), "//79");
    assert_eq!(base64(&[0; 7]).len(), 12);
    assert_eq!(clipboard_sequence("foo"), "\u{1b}]52;c;Zm9v\u{7}");
}

#[test]
fn matching_ignores_case_and_blanks_in_the_query() {
    assert_eq!(fuzzy_match("ABC", "a c"), Some(vec![0, 2]));
    assert_eq!(fuzzy_match("", "a"), None);
    assert_eq!(fuzzy_match("", ""), Some(vec![]));
}

#[test]
fn ages() {
    assert_eq!(format_age(0, 59_999), "just now");
    assert_eq!(format_age(0, 60_000), "1m ago");
    assert_eq!(format_age(0, 2 * 3_600_000), "2h ago");
    assert_eq!(format_age(0, 3 * 86_400_000), "3d ago");
    assert_eq!(format_age(100, 0), "just now");
}

#[test]
fn errors_come_with_a_hint() {
    assert_eq!(auth_hint("GoCD returned 401"), "  (press A to reconnect)");
    assert!(auth_hint("403 Forbidden").contains("VPN"));
    assert!(auth_hint("operation timed out").contains("r retries"));
    assert_eq!(auth_hint("anything"), "");
}

#[test]
fn saved_favorites_load_again() {
    let names = vec![
        "a\"b\\c".to_string(),
        "line\nbreak".to_string(),
        "caf\u{e9} \u{1f600}\u{7}".to_string(),
        "".to_string(),
    ];
    let text = save_favorites(&names).unwrap();
    assert!(text.starts_with("[\"a\\\"b"), "{text}");
    assert_eq!(load_favorites(Some(&text)), names);
    assert_eq!(save_favorites(&vec![]).as_deref(), Some("[]"));
    assert_eq!(
        load_favorites(Some("[\"x\", \"y\"]")),
        vec!["x".to_string(), "y".to_string()]
    );
}

#[test]
fn unreadable_favorites_are_none() {
    let none: Vec<String> = vec![];
    assert_eq!(load_favorites(None), none);
    assert_eq!(load_favorites(Some("not json")), none);
    assert_eq!(load_favorites(Some("{\"a\": 1}")), none);
    assert_eq!(listed(None), none);
}

fn from_upstream(name: &str, counter: i64, revision: &str, kind: &str) -> PipelineInstance {
    let mut r = run(counter);
    r.name = name.into();
    r.build_cause = Some(BuildCause {
        trigger_message: None,
        approver: None,
        material_revisions: vec![MaterialRevision {
            material: MaterialInfo {
                kind: Some(kind.into()),
                description: Some("URL: git@github.com:acme/web.git, Branch: main".into()),
            },
            modifications: vec![Modification {
                revision: Some(revision.into()),
                user_name: None,
                comment: None,
                modified_time: None,
            }],
        }],
    });
    r
}

#[test]
fn a_trace_ends_at_a_commit() {
    let mut t = Trace::new(vec![("build".into(), 3)]);
    assert_eq!(t.next(), Some(("build".to_string(), 3)));
    t.feed(
        "build",
        3,
        Some(&from_upstream("build", 3, "compile/9/s/1", "Pipeline")),
    );
    assert_eq!(t.next(), Some(("compile".to_string(), 9)));
    t.feed("compile", 9, Some(&from_upstream("compile", 9, "abc", "Git")));
    assert_eq!(t.next(), None);
    assert_eq!(t.found.len(), 1);
    assert_eq!(t.found[0].repo, "web");
    assert_eq!(t.found[0].via, Some(("compile".to_string(), 9)));
}

#[test]
fn a_trace_of_a_cycle_ends() {
    let mut t = Trace::new(vec![("a".into(), 1)]);
    let mut steps = 0;
    while let Some((name, counter)) = t.next() {
        steps += 1;
        assert!(steps < 100);
        let other = if name == "a" { "b/1/s/1" } else { "a/1/s/1" };
        t.feed(&name, counter, Some(&from_upstream(&name, counter, other, "Pipeline")));
    }
    assert_eq!(steps, 2);
    assert!(t.found.is_empty());
    assert!(MAX_HOPS > 0);
}

#[test]
fn a_run_that_cannot_be_read_leads_nowhere() {
    let mut t = Trace::new(vec![("a".into(), 1)]);
    let (name, counter) = t.next().unwrap();
    t.feed(&name, counter, None);
    assert_eq!(t.next(), None);
    assert!(t.found.is_empty());
}
