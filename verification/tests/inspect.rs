use lazygocd::inspect::human::print_human;
use lazygocd::inspect::lookup::{limit_of, plan, run, wants_instance, Lookup, Opts, Plan};
use lazygocd::inspect::report::{print_history, print_json};
use lazygocd::inspect::stream::{stream_logs, StreamStep};
use lazygocd::inspect::{
    find_job, is_running, job_label, job_missing, log_line, pick_job, pick_run, resolve, severity,
    Paint, Resolved,
};
use lazygocd::model::{
    DashboardEmbedded, DashboardGroup, DashboardPipeline, DashboardPipelineEmbedded, JobInstance,
    PauseInfo, PipelineInstance, StageInstance,
};

fn names() -> Vec<String> {
    [
        "web-app",
        "web-app-build",
        "web-app-deploy",
        "api-build-test",
    ]
    .iter()
    .map(|s| s.to_string())
    .collect()
}

// An exact name is also a substring of two others here, so tiering is the
// only thing that keeps `web-app` from being called ambiguous.
#[test]
fn an_exact_name_wins_over_the_pipelines_it_prefixes() {
    assert_eq!(
        resolve(&names(), "web-app"),
        Resolved::One("web-app".to_string())
    );
    assert_eq!(
        resolve(&names(), "WEB-APP"),
        Resolved::One("web-app".to_string())
    );
}

#[test]
fn a_unique_substring_resolves_and_a_shared_one_lists() {
    assert_eq!(
        resolve(&names(), "deploy"),
        Resolved::One("web-app-deploy".to_string())
    );
    assert_eq!(
        resolve(&names(), "build"),
        Resolved::Many(vec![
            "api-build-test".to_string(),
            "web-app-build".to_string(),
        ])
    );
}

// GoCD's marker is framing, not content, and dropping it is the whole
// reason CLI output reads like a log instead of a protocol dump.
#[test]
fn the_stream_marker_is_stripped_and_the_timestamp_kept() {
    let plain = Paint(false);
    assert_eq!(
        log_line(&plain, "pr|10:00:00.000 [go] Start to prepare"),
        "10:00:00.000 [go] Start to prepare"
    );
    assert_eq!(log_line(&plain, "no marker here"), "no marker here");
    assert_eq!(log_line(&plain, "ab"), "ab");
}

#[test]
fn severity_follows_the_same_precedence_as_the_tui() {
    assert_eq!(severity("", "npm ERR! failed"), Some("31"));
    assert_eq!(severity("!!", "anything"), Some("31"));
    assert_eq!(severity("", "deprecated api"), Some("33"));
    assert_eq!(severity("", "all tests passed"), Some("32"));
    assert_eq!(severity("##", "framing"), Some("90"));
    assert_eq!(severity("", "[go] chatter"), Some("90"));
    assert_eq!(severity("", "plain output"), None);
    // A failure keyword outranks a success keyword on the same line.
    assert_eq!(severity("", "1 passed, 1 failed"), Some("31"));
}

fn job(name: &str, result: Option<&str>, state: Option<&str>) -> JobInstance {
    JobInstance {
        name: name.into(),
        result: result.map(str::to_string),
        state: state.map(str::to_string),
    }
}

// A running job carries result "Unknown"; printing that instead of
// "Building" was wrong on every live pipeline.
#[test]
fn a_running_job_reports_its_state_not_unknown() {
    assert_eq!(job_label(&job("j", Some("Unknown"), Some("Building"))), "Building");
    assert_eq!(job_label(&job("j", Some("Passed"), Some("Completed"))), "Passed");
    assert_eq!(job_label(&job("j", None, None)), "-");
}

fn stage(name: &str, status: &str, jobs: Vec<JobInstance>) -> StageInstance {
    StageInstance {
        name: name.into(),
        status: Some(status.into()),
        approval_type: None,
        scheduled_date: None,
        counter: Some("1".into()),
        jobs,
    }
}

fn run_with(stages: Vec<StageInstance>) -> PipelineInstance {
    PipelineInstance {
        name: "web-app".into(),
        label: "".into(),
        counter: 1,
        comment: None,
        scheduled_date: None,
        stages,
        build_cause: None,
    }
}

// Watching a live pipeline means the running job; afterwards it means the
// one that broke. Falling back to the last job keeps a passed run useful.
#[test]
fn job_selection_prefers_running_then_failed_then_last() {
    let live = run_with(vec![
        stage("build", "Passed", vec![job("compile", Some("Passed"), None)]),
        stage(
            "test",
            "Building",
            vec![job("unit", Some("Unknown"), Some("Building"))],
        ),
    ]);
    assert_eq!(pick_job(&live).map(|(_, j)| j.name.as_str()), Some("unit"));

    let broken = run_with(vec![stage(
        "build",
        "Failed",
        vec![
            job("compile", Some("Passed"), None),
            job("lint", Some("Failed"), None),
        ],
    )]);
    assert_eq!(pick_job(&broken).map(|(_, j)| j.name.as_str()), Some("lint"));

    let green = run_with(vec![stage(
        "build",
        "Passed",
        vec![
            job("compile", Some("Passed"), None),
            job("package", Some("Passed"), None),
        ],
    )]);
    assert_eq!(pick_job(&green).map(|(_, j)| j.name.as_str()), Some("package"));

    assert!(pick_job(&run_with(vec![])).is_none());
}

#[test]
fn an_unknown_stage_or_job_names_what_is_available() {
    let r = run_with(vec![stage(
        "build",
        "Passed",
        vec![job("compile", Some("Passed"), None)],
    )]);
    let err = find_job(&r, Some("nope"), None).unwrap_err();
    assert!(err.contains("build"), "{err}");
    let err = find_job(&r, None, Some("nope")).unwrap_err();
    assert!(err.contains("compile"), "{err}");
    assert!(find_job(&r, Some("BUILD"), Some("COMPILE")).is_ok());
    let err = find_job(&run_with(vec![]), None, None).unwrap_err();
    assert_eq!(err, "Run #1 has no jobs yet.");
    assert_eq!(
        find_job(&r, Some("no\"pe"), None).unwrap_err(),
        "Run #1 has no stage \"no\\\"pe\". Stages: build"
    );
    assert_eq!(
        job_missing(&r, Some("build"), Some("nope"), "<nope>"),
        "No job <nope> in run #1. Jobs: compile"
    );
}

// Falling through to fuzzy is what makes initials work, but it must not
// fire while any substring still matches.
#[test]
fn fuzzy_is_the_last_resort() {
    assert_eq!(
        resolve(&names(), "abt"),
        Resolved::One("api-build-test".to_string())
    );
    assert_eq!(resolve(&names(), "zzz"), Resolved::Missing);
    assert_eq!(resolve(&names(), "  "), Resolved::Missing);
}

#[test]
fn listed_names_are_in_order() {
    let all = vec!["z-build".to_string(), "a-build".to_string(), "m-build".to_string()];
    assert_eq!(
        resolve(&all, "build"),
        Resolved::Many(vec![
            "a-build".to_string(),
            "m-build".to_string(),
            "z-build".to_string()
        ])
    );
}

#[test]
fn colour_wraps_the_line_and_adds_nothing_else() {
    assert_eq!(
        log_line(&Paint(true), "!!|10:00:00.000 boom"),
        "\u{1b}[31m10:00:00.000 boom\u{1b}[0m"
    );
    assert_eq!(Paint(false).bold("x"), "x");
    assert_eq!(Paint(true).bold("x"), "\u{1b}[1mx\u{1b}[0m");
    assert_eq!(Paint(true).status("Failed"), "\u{1b}[31mFailed\u{1b}[0m");
}

fn opts() -> Opts {
    Opts {
        limit: 5,
        json: false,
        logs: false,
        follow: false,
        history: false,
        run: None,
        stage: None,
        job: None,
        interval: 2,
    }
}

fn dashboard(groups: &[(&str, &[&str])]) -> DashboardEmbedded {
    let mut pipelines = Vec::new();
    let mut pipeline_groups = Vec::new();
    for (g, ps) in groups {
        pipeline_groups.push(DashboardGroup {
            name: g.to_string(),
            pipelines: ps.iter().map(|p| p.to_string()).collect(),
        });
        for p in ps.iter() {
            pipelines.push(DashboardPipeline {
                name: p.to_string(),
                locked: false,
                pause_info: PauseInfo {
                    paused: p.ends_with("-paused"),
                    paused_by: None,
                    pause_reason: None,
                },
                can_pause: true,
                can_operate: true,
                embedded: DashboardPipelineEmbedded { instances: vec![] },
            });
        }
    }
    DashboardEmbedded {
        pipeline_groups,
        pipelines,
    }
}

#[test]
fn a_query_finds_the_pipeline_with_its_group() {
    let d = dashboard(&[("g1", &["alpha"]), ("g2", &["beta-paused", "beta-build"])]);
    match run(&d, "paused", &opts()) {
        Lookup::Found { name, group, paused } => {
            assert_eq!(name, "beta-paused");
            assert_eq!(group.as_deref(), Some("g2"));
            assert!(paused);
        }
        other => panic!("{other:?}"),
    }
    match run(&d, "beta", &opts()) {
        Lookup::Stop(lines) => {
            let text = lines.join("\n");
            assert!(text.contains("\"beta\""), "the query is quoted: {text}");
            assert!(text.contains("beta-build") && text.contains("beta-paused"), "{text}");
        }
        other => panic!("{other:?}"),
    }
    match run(&d, "q\"z", &opts()) {
        Lookup::Stop(lines) => {
            let text = lines.join("\n");
            assert!(text.contains("\"q\\\"z\""), "the query is quoted: {text}");
        }
        other => panic!("{other:?}"),
    }
}

fn numbered(counter: i64) -> PipelineInstance {
    let mut r = run_with(vec![stage(
        "build",
        "Passed",
        vec![job("compile", Some("Passed"), None)],
    )]);
    r.counter = counter;
    r
}

#[test]
fn the_run_asked_for_is_shown() {
    let runs = vec![numbered(9), numbered(8)];
    assert_eq!(pick_run(&runs, None).map(|r| r.counter), Some(9));
    assert_eq!(pick_run(&runs, Some(8)).map(|r| r.counter), Some(8));
    assert!(pick_run(&runs, Some(3)).is_none());
    assert!(wants_instance(&runs, Some(3)));
    assert!(!wants_instance(&runs, Some(8)));
    assert!(!wants_instance(&runs, None));

    let mut o = opts();
    o.run = Some(3);
    assert!(matches!(plan("p", &o, false), Plan::NoSuchRun(e) if e.contains('3')));
    o.run = None;
    assert!(matches!(plan("p", &o, false), Plan::NoRuns(_)));
    assert_eq!(plan("p", &o, true), Plan::Human);
    o.history = true;
    assert_eq!(plan("p", &o, true), Plan::History);
    o.json = true;
    assert_eq!(plan("p", &o, true), Plan::Json);
    o.logs = true;
    assert_eq!(plan("p", &o, true), Plan::Logs);
}

#[test]
fn reports_hold_the_runs() {
    let runs = vec![numbered(9), numbered(8), numbered(7)];
    let json = print_json("p", Some("g"), false, Some(&runs[1]), &runs, 2);
    assert_eq!(json.pipeline, "p");
    assert_eq!(json.group.as_deref(), Some("g"));
    assert_eq!(json.latest.as_ref().map(|r| r.counter), Some(8));
    assert_eq!(json.runs.iter().map(|r| r.counter).collect::<Vec<_>>(), vec![9, 8]);
    assert_eq!(json.runs[0].status, "Passed");
    assert_eq!(json.runs[0].stages[0].jobs[0].name, "compile");

    let lines = print_history(&Paint(false), "p", Some("g"), &runs, 2);
    let text = lines.join("\n");
    assert!(text.contains("#9") && text.contains("#8"), "{text}");
    assert!(!text.contains("#7"), "{text}");
    assert!(limit_of(&opts()) >= 1);
}

#[test]
fn times_in_reports() {
    let mut r = numbered(9);
    r.scheduled_date = Some(1_700_000_000_000);
    let runs = vec![r];
    let json = print_json("p", None, false, Some(&runs[0]), &runs, 1);
    assert_eq!(
        json.latest.unwrap().scheduled_at.as_deref(),
        Some("2023-11-14T22:13:20+00:00")
    );
    let lines = print_human(
        &Paint(false),
        "p",
        Some("g"),
        true,
        Some(&runs[0]),
        &runs,
        5,
        1_700_000_000_000 + 3 * 3_600_000,
        Some("https://gocd.example.com/x"),
    );
    let text = lines.join("\n");
    assert!(text.contains("paused"), "{text}");
    assert!(text.contains("3h ago"), "{text}");
    assert!(text.contains("2023-11-1"), "{text}");
    assert!(text.contains("https://gocd.example.com/x"), "{text}");
}

#[test]
fn a_log_is_printed_once_and_ends() {
    let r = numbered(9);
    let (mut s, head) = stream_logs(&Paint(false), "p", &r, &opts()).unwrap();
    assert!(head.contains("compile"), "{head}");
    let (lines, step) = s.on_chunk(&Paint(false), Ok("##|a\n##|b\n"));
    assert_eq!(lines.len(), 2);
    assert_eq!(s.sent, 2);
    assert_eq!(step, StreamStep::Exit(0));
    let (mut s, _) = stream_logs(&Paint(false), "p", &r, &opts()).unwrap();
    let (lines, step) = s.on_chunk(&Paint(false), Err("refused"));
    assert!(lines.is_empty());
    assert!(matches!(step, StreamStep::Fail(e) if e.contains("refused")));
    let mut unscheduled = numbered(9);
    unscheduled.stages[0].counter = None;
    let (e, code) = stream_logs(&Paint(false), "p", &unscheduled, &opts()).unwrap_err();
    assert!(e.contains("has not been scheduled"), "{e}");
    assert_eq!(code, 1);
}

#[test]
fn a_followed_log_ends_with_the_run() {
    let live = run_with(vec![stage(
        "build",
        "Building",
        vec![job("compile", Some("Unknown"), Some("Building"))],
    )]);
    assert!(is_running(&live.stages[0].jobs[0]));
    let mut o = opts();
    o.follow = true;
    let (mut s, _) = stream_logs(&Paint(false), "web-app", &live, &o).unwrap();
    let (_, step) = s.on_chunk(&Paint(false), Ok("a\n"));
    assert_eq!(step, StreamStep::Wait);
    let (_, step) = s.on_chunk(&Paint(false), Ok(""));
    assert_eq!(step, StreamStep::CheckRun);
    assert_eq!(s.on_run(&Paint(false), &live), None);
    let failed = run_with(vec![stage(
        "build",
        "Failed",
        vec![job("compile", Some("Failed"), Some("Completed"))],
    )]);
    let (_, code) = s.on_run(&Paint(false), &failed).unwrap();
    assert_eq!(code, 1);
    let passed = run_with(vec![stage(
        "build",
        "Passed",
        vec![job("compile", Some("Passed"), Some("Completed"))],
    )]);
    let (_, code) = s.on_run(&Paint(false), &passed).unwrap();
    assert_eq!(code, 0);
}

#[test]
fn neither_order_nor_case_matters() {
    let mut turned = names();
    turned.reverse();
    for q in ["web-app", "build", "abt", "zzz", "deploy"] {
        let loud = format!("  {} ", q.to_uppercase());
        assert_eq!(resolve(&names(), q), resolve(&turned, &loud));
    }
}

#[test]
fn exit_codes_tell_scripts_what_was_found() {
    let d = dashboard(&[("g", &["alpha", "alpine"])]);
    assert_eq!(run(&d, "alpha", &opts()).exit_code(), None);
    assert_eq!(run(&d, "alp", &opts()).exit_code(), Some(1));
    assert_eq!(run(&d, "zzz", &opts()).exit_code(), Some(1));
    let mut o = opts();
    assert_eq!(plan("p", &o, true).exit_code(), Some(0));
    assert_eq!(plan("p", &o, false).exit_code(), Some(0));
    o.run = Some(3);
    assert_eq!(plan("p", &o, false).exit_code(), Some(1));
    o.logs = true;
    assert_eq!(plan("p", &o, true).exit_code(), None);
    assert_eq!(StreamStep::Exit(0).exit_code(), Some(0));
    assert_eq!(StreamStep::Fail("x".into()).exit_code(), Some(1));
    assert_eq!(StreamStep::Wait.exit_code(), None);
    assert_eq!(StreamStep::CheckRun.exit_code(), None);
}
