use lazygocd::app::start::{needs_setup, reads_cache, DashboardCache};
use lazygocd::app::{
    ApiEvent, App, Effect, Focus, GithubState, JobTab, Key, KeyCode, Modal, MouseKind,
    PendingAction, Rect,
};
use lazygocd::config::Config;
use lazygocd::github::CommitCheck;
use lazygocd::model::{
    BuildCause, DashboardGroup, DashboardInstance, DashboardInstanceEmbedded, DashboardPipeline,
    DashboardPipelineEmbedded, DashboardStage, JobInstance, MaterialInfo, MaterialRevision,
    Modification, PauseInfo, PipelineInstance, StageInstance, ViewFilter,
};
use lazygocd::ui::detail::{detail_lines, detail_times};
use lazygocd::ui::lists::{history_title, tree_lines};
use lazygocd::ui::panes::{footer_line, header_line, message_line};

fn config() -> Config {
    Config {
        server_url: "https://gocd.example.com/go".into(),
        auth_token: Some("tok".into()),
        ..Config::default()
    }
}

fn pipeline(name: &str, status: &str) -> DashboardPipeline {
    DashboardPipeline {
        name: name.to_string(),
        locked: false,
        pause_info: PauseInfo {
            paused: false,
            paused_by: None,
            pause_reason: None,
        },
        can_pause: true,
        can_operate: true,
        embedded: DashboardPipelineEmbedded {
            instances: vec![DashboardInstance {
                label: "l".into(),
                counter: 1,
                triggered_by: None,
                embedded: DashboardInstanceEmbedded {
                    stages: vec![DashboardStage {
                        name: "build".into(),
                        status: Some(status.to_string()),
                    }],
                },
            }],
        },
    }
}

fn group(name: &str, pipelines: &[&str]) -> DashboardGroup {
    DashboardGroup {
        name: name.into(),
        pipelines: pipelines.iter().map(|p| p.to_string()).collect(),
    }
}

fn app_with(favorites: &[&str]) -> App {
    let names = favorites.iter().map(|n| n.to_string()).collect();
    App::new(&config(), None, &names, None, 0, 0)
}

fn loaded(app: &mut App, status: &str) {
    let generation = app.server_gen;
    app.handle_api_event(ApiEvent::Dashboard(
        generation,
        Ok(Some((
            vec![group("g1", &["alpha", "beta"]), group("g2", &["gamma"])],
            vec![
                pipeline("alpha", status),
                pipeline("beta", "Passed"),
                pipeline("gamma", "Building"),
            ],
            Some("etag-1".to_string()),
        ))),
    ));
}

fn press(app: &mut App, code: KeyCode) {
    let key = Key { code, ctrl: false };
    assert!(app.accepts_key(key));
    app.handle_key(key, 0);
}

fn type_text(app: &mut App, text: &str) {
    for c in text.chars() {
        press(app, KeyCode::Char(c));
    }
}

fn run(counter: i64, sha: &str) -> PipelineInstance {
    PipelineInstance {
        name: "alpha".into(),
        label: format!("{counter}"),
        counter,
        comment: None,
        scheduled_date: Some(1_700_000_000_000),
        stages: vec![StageInstance {
            name: "build".into(),
            status: Some("Failed".into()),
            approval_type: None,
            scheduled_date: None,
            counter: Some("1".into()),
            jobs: vec![JobInstance {
                name: "compile".into(),
                result: Some("Failed".into()),
                state: Some("Completed".into()),
            }],
        }],
        build_cause: Some(BuildCause {
            trigger_message: Some("modified by alex".into()),
            approver: None,
            material_revisions: vec![MaterialRevision {
                material: MaterialInfo {
                    kind: Some("Git".into()),
                    description: Some("URL: git@github.com:acme/web.git, Branch: main".into()),
                },
                modifications: vec![Modification {
                    revision: Some(sha.into()),
                    user_name: Some("alex".into()),
                    comment: Some("Fix it\nwith care".into()),
                    modified_time: Some(1_700_000_000_000),
                }],
            }],
        }),
    }
}

/// The state with pipeline `alpha` opened and two runs shown.
fn opened() -> App {
    let mut app = app_with(&[]);
    loaded(&mut app, "Failed");
    press(&mut app, KeyCode::Enter);
    press(&mut app, KeyCode::Char('j'));
    press(&mut app, KeyCode::Enter);
    app.take_effects();
    app.handle_api_event(ApiEvent::History(
        "alpha".into(),
        Ok((vec![run(9, "aaaabbbbcccc"), run(8, "ddddeeeeffff")], Some(8))),
    ));
    app
}

fn row_words(app: &App) -> Vec<String> {
    tree_lines(app)
        .iter()
        .map(|l| l.iter().map(|s| s.content.as_str()).collect())
        .collect()
}

#[test]
fn the_start_asks_for_the_dashboard() {
    let mut app = app_with(&[]);
    let asked = app.take_effects();
    assert_eq!(asked.len(), 1);
    assert!(asked
        .iter()
        .any(|e| matches!(e, Effect::LoadDashboard { etag: None, view: None, .. })));
    assert!(app.take_effects().is_empty());
}

#[test]
fn without_a_server_the_form_comes_first() {
    assert!(needs_setup(&Config::default()));
    assert!(!needs_setup(&config()));
    assert!(!reads_cache(&Config::default(), false));
    assert!(reads_cache(&config(), false));
    assert!(!reads_cache(&config(), true));
    let mut app = App::new(&Config::default(), None, &vec![], None, 0, 0);
    assert!(matches!(app.modal, Some(Modal::Reauth(_))));
    assert!(app.take_effects().is_empty());
}

#[test]
fn the_cache_is_shown_with_its_age() {
    let cached = DashboardCache {
        saved_at_ms: 0,
        groups: vec![group("g1", &["alpha"])],
        pipelines: vec![pipeline("alpha", "Passed")],
    };
    let app = App::new(&config(), Some(cached), &vec![], None, 0, 2 * 3_600_000);
    assert_eq!(app.groups.len(), 1);
    assert!(app.status_line.contains("2h ago"), "{}", app.status_line);
}

#[test]
fn a_dashboard_fills_the_tree() {
    let mut app = app_with(&[]);
    app.take_effects();
    loaded(&mut app, "Passed");
    assert_eq!(app.rows.len(), 2);
    assert_eq!(app.dashboard_etag.as_deref(), Some("etag-1"));
    let asked = app.take_effects();
    assert!(asked.iter().any(|e| matches!(e, Effect::SaveCache { groups, info }
        if groups.len() == 2 && info.len() == 3)));
    press(&mut app, KeyCode::Enter);
    assert_eq!(app.rows.len(), 4);
    assert_eq!(app.fleet_counts(), (0, 1, 0));
    let words = row_words(&app);
    assert!(words[1].contains("alpha"), "{words:?}");
}

#[test]
fn an_answer_of_an_earlier_connection_is_dropped() {
    let mut app = app_with(&[]);
    let before = app.server_gen;
    app.reconnect(
        Config {
            server_url: "https://other".into(),
            ..Config::default()
        },
        None,
    );
    assert_eq!(app.server_gen, before + 1);
    assert_eq!(app.server_url, "https://other");
    app.handle_api_event(ApiEvent::Dashboard(
        before,
        Ok(Some((vec![group("old", &["x"])], vec![], None))),
    ));
    assert!(app.groups.is_empty());
    app.handle_api_event(ApiEvent::Views(
        before,
        Ok(vec![ViewFilter {
            name: "old".into(),
            kind: "whitelist".into(),
            state: vec![],
            pipelines: vec![],
        }]),
    ));
    assert!(app.views.is_empty());
}

#[test]
fn a_new_failure_of_a_favorite_is_told() {
    let mut app = app_with(&["alpha"]);
    loaded(&mut app, "Passed");
    app.take_effects();
    loaded(&mut app, "Failed");
    let told: Vec<String> = app
        .take_effects()
        .into_iter()
        .filter_map(|e| match e {
            Effect::Notify { body, .. } => Some(body),
            _ => None,
        })
        .collect();
    assert_eq!(told.len(), 1);
    assert!(told[0].contains("alpha"), "{told:?}");
    loaded(&mut app, "Failed");
    assert!(!app
        .take_effects()
        .iter()
        .any(|e| matches!(e, Effect::Notify { .. })));
}

#[test]
fn an_error_says_what_to_do() {
    let mut app = app_with(&[]);
    let generation = app.server_gen;
    app.handle_api_event(ApiEvent::Dashboard(
        generation,
        Err("GoCD returned 401 Unauthorized".into()),
    ));
    let e = app.error_line.clone().unwrap();
    assert!(e.contains("401") && e.contains("press A to reconnect"), "{e}");
    let shown: String = message_line(&app).iter().map(|s| s.content.as_str()).collect();
    assert!(shown.contains("401"), "{shown}");
}

#[test]
fn a_filter_shows_matches_in_closed_groups() {
    let mut app = app_with(&[]);
    loaded(&mut app, "Passed");
    press(&mut app, KeyCode::Char('/'));
    type_text(&mut app, "gm");
    assert_eq!(app.filter, "gm");
    let words = row_words(&app);
    assert_eq!(words.len(), 2);
    assert!(words[1].contains("gamma"), "{words:?}");
    press(&mut app, KeyCode::Esc);
    assert_eq!(app.filter, "");
    assert_eq!(app.rows.len(), 2);
}

#[test]
fn starring_twice_is_as_before() {
    let mut app = app_with(&[]);
    loaded(&mut app, "Passed");
    press(&mut app, KeyCode::Enter);
    press(&mut app, KeyCode::Char('j'));
    app.take_effects();
    press(&mut app, KeyCode::Char('f'));
    assert!(app.favorites.contains("alpha"));
    assert!(app
        .take_effects()
        .iter()
        .any(|e| matches!(e, Effect::SaveFavorites(n) if *n == vec!["alpha".to_string()])));
    while app.current_row_pipeline_name().as_deref() != Some("alpha") {
        press(&mut app, KeyCode::Char('j'));
    }
    press(&mut app, KeyCode::Char('f'));
    assert!(app.favorites.is_empty());
}

#[test]
fn an_action_runs_only_after_it_was_confirmed() {
    let mut app = app_with(&[]);
    loaded(&mut app, "Passed");
    press(&mut app, KeyCode::Enter);
    press(&mut app, KeyCode::Char('j'));
    app.take_effects();
    press(&mut app, KeyCode::Char('t'));
    assert!(matches!(app.modal, Some(Modal::Confirm { .. })));
    assert!(app.take_effects().is_empty());
    press(&mut app, KeyCode::Char('n'));
    assert!(app.modal.is_none());
    assert!(app.take_effects().is_empty());
    press(&mut app, KeyCode::Char('t'));
    press(&mut app, KeyCode::Char('y'));
    let asked = app.take_effects();
    assert!(asked
        .iter()
        .any(|e| matches!(e, Effect::RunAction(PendingAction::Trigger(n)) if n == "alpha")));
}

#[test]
fn variables_are_entered_one_by_one() {
    let mut app = app_with(&[]);
    loaded(&mut app, "Passed");
    press(&mut app, KeyCode::Enter);
    press(&mut app, KeyCode::Char('j'));
    app.take_effects();
    press(&mut app, KeyCode::Char('T'));
    type_text(&mut app, "A=1");
    press(&mut app, KeyCode::Enter);
    type_text(&mut app, "bad");
    press(&mut app, KeyCode::Enter);
    match &app.modal {
        Some(Modal::TriggerVars(f)) => assert!(f.error.is_some()),
        other => panic!("{other:?}"),
    }
    for _ in 0..3 {
        press(&mut app, KeyCode::Backspace);
    }
    press(&mut app, KeyCode::Enter);
    press(&mut app, KeyCode::Enter);
    let asked = app.take_effects();
    assert!(asked.iter().any(|e| matches!(e,
        Effect::RunAction(PendingAction::TriggerWithVars { pipeline, vars })
        if pipeline == "alpha" && *vars == vec![("A".to_string(), "1".to_string())])));
}

#[test]
fn done_actions_are_reported() {
    let mut app = app_with(&[]);
    loaded(&mut app, "Passed");
    app.handle_api_event(ApiEvent::ActionDone(
        PendingAction::Pause("alpha".into()),
        Ok("".into()),
    ));
    assert!(app.pipeline_info.get("alpha").unwrap().pause_info.paused);
    app.handle_api_event(ApiEvent::ActionDone(
        PendingAction::Trigger("alpha".into()),
        Err("409 Conflict".into()),
    ));
    assert!(app.error_line.as_deref().unwrap().contains("409 Conflict"));
}

#[test]
fn opening_a_pipeline_shows_its_runs() {
    let mut app = opened();
    assert_eq!(app.selected_pipeline.as_deref(), Some("alpha"));
    assert_eq!(app.history.len(), 2);
    assert!(history_title(&app).contains("alpha"));
    let asked = app.take_effects();
    assert!(asked.iter().any(|e| matches!(e,
        Effect::CheckGithub { owner, repo, branch, .. }
        if owner == "acme" && repo == "web" && branch == "main")));
    app.handle_api_event(ApiEvent::GithubLatest(
        "alpha".into(),
        "github.com/acme/web@main".into(),
        Ok(CommitCheck {
            sha: "aaaabbbbcccc".into(),
            fell_back: true,
        }),
    ));
    assert!(matches!(&app.github_checks[0].1, GithubState::Found(s) if s == "aaaabbbbcccc"));
    assert!(app.status_line.contains("gh auth token"), "{}", app.status_line);

    let r = &app.history[0];
    let times = detail_times(r);
    let (lines, _) = detail_lines(&app, r, &times, 40);
    let text: String = lines
        .iter()
        .flat_map(|l| l.iter().map(|s| s.content.as_str()))
        .collect();
    assert!(text.contains("compile"), "{text}");
    assert!(text.contains("Fix it"), "{text}");
}

#[test]
fn a_further_page_lands_once() {
    let mut app = opened();
    let page = || ApiEvent::HistoryMore {
        name: "alpha".into(),
        after: 8,
        issued_last_counter: 8,
        result: Ok((vec![run(7, "x"), run(6, "y")], None)),
    };
    app.handle_api_event(page());
    assert_eq!(app.history.len(), 2, "nothing was asked for yet");
    while app.focus != Focus::History {
        press(&mut app, KeyCode::Tab);
    }
    press(&mut app, KeyCode::Char('j'));
    assert!(app.take_effects().iter().any(|e| matches!(e,
        Effect::LoadMoreHistory { name, after: 8, last_counter: 8 } if name == "alpha")));
    app.handle_api_event(page());
    assert_eq!(app.history.len(), 4);
    app.handle_api_event(page());
    assert_eq!(app.history.len(), 4);
}

#[test]
fn a_job_opens_its_log() {
    let mut app = opened();
    while app.focus != Focus::Detail {
        press(&mut app, KeyCode::Tab);
    }
    press(&mut app, KeyCode::Char('j'));
    app.take_effects();
    press(&mut app, KeyCode::Enter);
    let asked = app.take_effects();
    let job = asked
        .into_iter()
        .find_map(|e| match e {
            Effect::FetchConsole { job, start_line } => {
                assert_eq!(start_line, 0);
                Some(job)
            }
            _ => None,
        })
        .expect("a log is asked for");
    assert_eq!(job.job, "compile");
    app.handle_api_event(ApiEvent::ConsoleLog(job, 0, Ok("one\nTWO \u{c9}\nthree".into())));
    press(&mut app, KeyCode::Char('/'));
    type_text(&mut app, "two \u{e9}");
    press(&mut app, KeyCode::Enter);
    match &app.modal {
        Some(Modal::ConsoleLog(s)) => {
            assert_eq!(s.lines.len(), 3);
            assert_eq!(s.matches, vec![1]);
            assert_eq!(s.tab, JobTab::Console);
        }
        other => panic!("{other:?}"),
    }
    press(&mut app, KeyCode::Tab);
    assert!(matches!(&app.modal, Some(Modal::ConsoleLog(s)) if s.tab == JobTab::Artifacts));
    press(&mut app, KeyCode::Tab);
    press(&mut app, KeyCode::Tab);
    assert!(matches!(&app.modal, Some(Modal::ConsoleLog(s)) if s.tab == JobTab::Console));
    press(&mut app, KeyCode::Char('e'));
    let edit = app.pending_edit.as_ref().expect("an edit is asked for");
    assert!(edit.contents.contains("three"));
    app.edited(Ok(Some("/tmp/x.log".into())));
    assert_eq!(app.status_line, "Opened in editor: /tmp/x.log");
    app.edited(Ok(None));
    assert_eq!(app.status_line, "Opened in editor");
    app.edited(Err("no editor".into()));
    assert_eq!(app.error_line.as_deref(), Some("no editor"));
}

#[test]
fn the_commit_of_a_run_is_copied_and_opened() {
    let mut app = opened();
    app.focus = Focus::History;
    app.take_effects();
    press(&mut app, KeyCode::Char('y'));
    let asked = app.take_effects();
    assert!(asked
        .iter()
        .any(|e| matches!(e, Effect::Copy { content, .. } if content == "aaaabbbbcccc")));
    press(&mut app, KeyCode::Char('o'));
    let asked = app.take_effects();
    assert!(asked.iter().any(|e| matches!(e, Effect::OpenUrl { url, .. }
        if url.starts_with("https://github.com/acme/web/"))));
}

#[test]
fn control_c_quits_from_anywhere() {
    let mut app = opened();
    press(&mut app, KeyCode::Char('?'));
    assert!(matches!(app.modal, Some(Modal::Help)));
    let key = Key {
        code: KeyCode::Char('c'),
        ctrl: true,
    };
    assert!(app.accepts_key(key));
    app.handle_key(key, 0);
    assert!(app.should_quit);
}

#[test]
fn tab_goes_round_the_panes() {
    let mut app = opened();
    let start = app.focus;
    for _ in 0..3 {
        press(&mut app, KeyCode::Tab);
    }
    assert_eq!(app.focus, start);
    for pane in [Focus::Groups, Focus::History, Focus::Detail] {
        let footer = footer_line(pane);
        let text: String = footer.iter().map(|s| s.content.as_str()).collect();
        assert!(text.chars().count() <= 80, "{text}");
        // The pane's name and a gap, then six keys with what they do and five gaps.
        assert_eq!(footer.len(), 2 + 6 * 2 + 5, "{text}");
    }
}

#[test]
fn connecting_takes_url_method_and_secret() {
    let mut app = App::new(&Config::default(), None, &vec![], None, 0, 0);
    type_text(&mut app, "https://gocd.example.com/go");
    press(&mut app, KeyCode::Enter);
    press(&mut app, KeyCode::Char('j'));
    press(&mut app, KeyCode::Enter);
    type_text(&mut app, "tok");
    press(&mut app, KeyCode::Enter);
    let asked = app.take_effects();
    let cfg = asked
        .into_iter()
        .find_map(|e| match e {
            Effect::Reconnect { cfg, save } => {
                assert!(save);
                Some(cfg)
            }
            _ => None,
        })
        .expect("a connection is asked for");
    assert_eq!(cfg.server_url, "https://gocd.example.com/go");
    assert_eq!(cfg.auth_token.as_deref(), Some("tok"));
    assert_eq!(cfg.password, None);
    app.reconnect(cfg, None);
    assert!(app.modal.is_none());
    assert!(!app.take_effects().is_empty());
}

#[test]
fn clicks_and_the_wheel_go_to_the_pane_below() {
    let mut app = opened();
    app.tree_area = Rect {
        x: 0,
        y: 0,
        width: 20,
        height: 10,
    };
    app.history_area = Rect {
        x: 20,
        y: 0,
        width: 20,
        height: 10,
    };
    app.handle_mouse(MouseKind::LeftDown, 25, 5, 0);
    assert_eq!(app.focus, Focus::History);
    app.handle_mouse(MouseKind::LeftDown, 5, 5, 0);
    assert_eq!(app.focus, Focus::Groups);
    assert!(!app.handle_mouse(MouseKind::Other, 5, 5, 0));
}

#[test]
fn polling_waits_for_the_interval() {
    let mut app = app_with(&[]);
    loaded(&mut app, "Passed");
    app.take_effects();
    app.maybe_poll(1_000);
    assert!(app.take_effects().is_empty());
    app.maybe_poll(31_000);
    assert!(app
        .take_effects()
        .iter()
        .any(|e| matches!(e, Effect::LoadDashboard { etag: Some(t), .. } if t == "etag-1")));
}

#[test]
fn the_demo_writes_nothing() {
    let mut app = App::demo(None, 0);
    assert!(app.demo);
    loaded(&mut app, "Passed");
    press(&mut app, KeyCode::Char('f'));
    assert!(!app
        .take_effects()
        .iter()
        .any(|e| matches!(e, Effect::SaveCache { .. } | Effect::SaveFavorites(_))));
}

#[test]
fn the_header_counts_the_fleet() {
    let mut app = app_with(&[]);
    loaded(&mut app, "Failed");
    let text: String = header_line(&app, false)
        .iter()
        .map(|s| s.content.as_str())
        .collect();
    assert!(text.contains("gocd.example.com"), "{text}");
    assert_eq!(app.fleet_counts(), (0, 1, 1));
}

#[test]
fn views_are_picked_by_name() {
    let mut app = app_with(&[]);
    loaded(&mut app, "Passed");
    let generation = app.server_gen;
    app.handle_api_event(ApiEvent::Views(
        generation,
        Ok(vec![ViewFilter {
            name: "mine".into(),
            kind: "whitelist".into(),
            state: vec![],
            pipelines: vec!["alpha".into()],
        }]),
    ));
    app.take_effects();
    press(&mut app, KeyCode::Char('v'));
    press(&mut app, KeyCode::Char('j'));
    press(&mut app, KeyCode::Enter);
    assert!(app
        .take_effects()
        .iter()
        .any(|e| matches!(e, Effect::LoadDashboard { view: Some(v), .. } if v == "mine")));
}

#[test]
fn reconnecting_keeps_the_settings_of_the_file() {
    let cfg = Config {
        insecure_skip_verify: true,
        editor: Some("nvim".into()),
        github_token: Some("gh".into()),
        ..config()
    };
    let mut app = App::new(&cfg, None, &vec![], None, 0, 0);
    loaded(&mut app, "Passed");
    app.take_effects();
    press(&mut app, KeyCode::Char('A'));
    press(&mut app, KeyCode::Enter);
    press(&mut app, KeyCode::Enter);
    type_text(&mut app, "alice");
    press(&mut app, KeyCode::Enter);
    type_text(&mut app, "pw");
    press(&mut app, KeyCode::Enter);
    let cfg = app
        .take_effects()
        .into_iter()
        .find_map(|e| match e {
            Effect::Reconnect { cfg, .. } => Some(cfg),
            _ => None,
        })
        .expect("a connection is asked for");
    assert!(cfg.insecure_skip_verify);
    assert_eq!(cfg.editor.as_deref(), Some("nvim"));
    assert_eq!(cfg.github_token.as_deref(), Some("gh"));
    assert_eq!(cfg.auth_token, None);
    assert_eq!(cfg.username.as_deref(), Some("alice"));
    assert_eq!(cfg.password.as_deref(), Some("pw"));
    app.reconnect(cfg, Some("disk full".into()));
    assert!(app.groups.is_empty() && app.rows.is_empty() && app.views.is_empty());
    assert_eq!(app.dashboard_etag, None);
    assert_eq!(
        app.error_line.as_deref(),
        Some("Reconnected, but failed to save config: disk full")
    );
    app.reconnect_failed("no route");
    assert_eq!(app.error_line.as_deref(), Some("Failed to reconnect: no route"));
}

#[test]
fn a_github_token_is_connected() {
    let mut app = opened();
    app.take_effects();
    press(&mut app, KeyCode::Char('@'));
    type_text(&mut app, "ghp");
    press(&mut app, KeyCode::Enter);
    let asked = app.take_effects();
    assert!(asked.iter().any(|e| matches!(e, Effect::ConnectGithub { cfg, save: true }
        if cfg.github_token.as_deref() == Some("ghp"))));
    app.connect_github(None, None);
    assert_eq!(app.github.token.as_deref(), Some("ghp"));
    assert_eq!(app.status_line, "GitHub connected");
    assert!(app
        .take_effects()
        .iter()
        .any(|e| matches!(e, Effect::CheckGithub { .. })));
    app.github_failed("no tls");
    assert_eq!(
        app.error_line.as_deref(),
        Some("Failed to update GitHub client: no tls")
    );
}

#[test]
fn esc_leads_back() {
    let mut app = opened();
    app.focus = Focus::Detail;
    app.filter = "alp".into();
    app.rebuild_rows();
    press(&mut app, KeyCode::Esc);
    assert_eq!(app.focus, Focus::History);
    press(&mut app, KeyCode::Esc);
    assert_eq!(app.focus, Focus::Groups);
    press(&mut app, KeyCode::Esc);
    assert_eq!(app.filter, "");
}

#[test]
fn questions_name_the_run() {
    let mut app = opened();
    app.focus = Focus::History;
    press(&mut app, KeyCode::Char('R'));
    match &app.modal {
        Some(Modal::Confirm { message, action }) => {
            assert!(message.starts_with("alpha  run #9\n"), "{message}");
            assert!(matches!(action, PendingAction::RerunFailedJobs { stage, .. } if stage == "build"));
        }
        other => panic!("{other:?}"),
    }
    press(&mut app, KeyCode::Char('a'));
    assert!(app
        .take_effects()
        .iter()
        .any(|e| matches!(e, Effect::RunAction(PendingAction::RerunStage { .. }))));
    press(&mut app, KeyCode::Char('X'));
    assert_eq!(app.status_line, "Nothing currently running in alpha");
}

#[test]
fn only_the_rest_of_a_log_is_added() {
    let mut app = opened();
    while app.focus != Focus::Detail {
        press(&mut app, KeyCode::Tab);
    }
    press(&mut app, KeyCode::Char('j'));
    app.take_effects();
    press(&mut app, KeyCode::Enter);
    let job = || lazygocd::app::JobRef {
        pipeline: "alpha".into(),
        pipeline_counter: 9,
        stage: "build".into(),
        stage_counter: "1".into(),
        job: "compile".into(),
    };
    let shown = |app: &App| match &app.modal {
        Some(Modal::ConsoleLog(s)) => s.lines.clone(),
        other => panic!("{other:?}"),
    };
    app.handle_api_event(ApiEvent::ConsoleLog(job(), 0, Ok("a\nb".into())));
    app.handle_api_event(ApiEvent::ConsoleLog(job(), 2, Ok("c\n".into())));
    assert_eq!(shown(&app), vec!["a", "b", "c"]);
    app.handle_api_event(ApiEvent::ConsoleLog(job(), 2, Ok("late\n".into())));
    assert_eq!(shown(&app), vec!["a", "b", "c"]);
    app.handle_api_event(ApiEvent::ConsoleLog(job(), 3, Err("gone".into())));
    assert!(matches!(&app.modal, Some(Modal::ConsoleLog(s)) if s.error.as_deref() == Some("gone")));
}

#[test]
fn failures_of_the_desktop_are_said() {
    let mut app = app_with(&[]);
    app.copied("Copied".into(), Err("no terminal".into()));
    assert_eq!(app.error_line.as_deref(), Some("Copy failed: no terminal"));
    app.browsed("Opened".into(), Err("no browser".into()));
    assert_eq!(
        app.error_line.as_deref(),
        Some("Couldn't open browser: no browser")
    );
    app.copied("Copied it".into(), Ok(()));
    assert_eq!(app.status_line, "Copied it");
    app.browsed("Opened it".into(), Ok(()));
    assert_eq!(app.status_line, "Opened it");
}

#[test]
fn saved_views_are_reported() {
    let mut app = app_with(&[]);
    app.take_effects();
    let generation = app.server_gen;
    app.handle_api_event(ApiEvent::ViewSaved(generation, Ok("mine".into())));
    assert!(app.status_line.starts_with("Saved view 'mine'"));
    assert!(matches!(app.take_effects()[..], [Effect::LoadViews(_)]));
    app.handle_api_event(ApiEvent::ViewSaved(generation, Err("412".into())));
    assert_eq!(app.error_line.as_deref(), Some("Saving view failed: 412"));
}

#[test]
fn demo_favorites_are_demo_pipelines() {
    let app = App::demo(None, 0);
    let known = lazygocd::demo::fixtures();
    assert!(!app.favorites.is_empty());
    for name in app.favorites.names() {
        assert!(known.iter().any(|f| f.name == name.as_str()), "{name}");
    }
}

#[test]
fn the_selected_job_stays_on_screen() {
    let mut app = opened();
    while app.focus != Focus::Detail {
        press(&mut app, KeyCode::Tab);
    }
    press(&mut app, KeyCode::Char('G'));
    let r = &app.history[0];
    let times = detail_times(r);
    let (lines, offset) = detail_lines(&app, r, &times, 3);
    assert!(lines.len() > 3);
    let seen: String = lines[offset..offset + 3]
        .iter()
        .flat_map(|l| l.iter().map(|s| s.content.as_str()))
        .collect();
    assert!(seen.contains("compile"), "{seen}");
}
