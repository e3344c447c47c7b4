use lazygocd::app::{JobTab, ReauthForm, ReauthMode, ReauthStep, TriggerVarsForm};
use lazygocd::model::{PipelineInstance, ViewFilter};
use lazygocd::ui::console::{console_line, hint_line, tab_line};
use lazygocd::ui::dialogs::{
    choice_line, confirm_lines, github_connect_lines, help_lines, input_line, reauth_lines,
    save_view_lines, trigger_vars_lines, view_picker_lines,
};
use lazygocd::ui::lists::{history_rows, history_times};
use lazygocd::ui::{
    console_body_style, dot_for, find_matches_ci, github_failure_label, message_rows, short_host,
    short_sha, spinner, status_color, Line, Tint,
};

fn words(line: &Line) -> String {
    line.iter().map(|s| s.content.as_str()).collect()
}

// Byte 13 lands inside a multibyte char after a false-positive timestamp
// sniff; must render, not panic.
#[test]
fn console_line_multibyte_after_timestamp_sniff() {
    let _ = console_line(
        "12:34:56 \u{65e5}\u{672c}\u{8a9e}\u{30c6}\u{30b9}\u{30c8} more text",
        None,
        false,
    );
    let _ = console_line("##|10:00:00.000 caf\u{e9} ok", None, false);
}

// to_lowercase changes byte length for U+0130; highlight ranges must stay
// valid boundaries of the original string.
#[test]
fn find_matches_ci_lowercase_length_drift() {
    let body = "\u{130}\u{130}\u{130}\u{130}\u{130}error";
    let ranges = find_matches_ci(body, "e");
    assert!(!ranges.is_empty());
    for (a, b) in ranges {
        assert!(body.is_char_boundary(a) && body.is_char_boundary(b));
        let _ = &body[a..b];
    }
    let _ = console_line(body, Some("e"), true);
    let _ = console_line(body, Some("\u{130}"), false);
}

#[test]
fn find_matches_ci_basic() {
    assert_eq!(
        find_matches_ci("Error and ERROR", "error"),
        vec![(0, 5), (10, 15)]
    );
    assert!(find_matches_ci("abc", "").is_empty());
    assert!(find_matches_ci("abc", "zz").is_empty());
}

#[test]
fn matches_do_not_share_characters() {
    assert_eq!(find_matches_ci("aaaaa", "aa"), vec![(0, 2), (2, 4)]);
    // One character that is two in lower case is matched as a whole or not at all.
    assert_eq!(find_matches_ci("x\u{130}", "i\u{307}"), vec![(1, 3)]);
    assert!(find_matches_ci("x\u{130}", "i").is_empty());
}

#[test]
fn search_ignores_case_beyond_ascii() {
    assert_eq!(find_matches_ci("x\u{c9}y", "\u{e9}"), vec![(1, 3)]);
    assert_eq!(find_matches_ci("x\u{e9}y", "\u{c9}"), vec![(1, 3)]);
}

// The URL used to eat 45 columns of the header.
#[test]
fn short_host_keeps_only_the_host() {
    assert_eq!(short_host("https://gocd.example.com/go"), "gocd.example.com");
    assert_eq!(short_host("http://10.0.0.4:8153/go/"), "10.0.0.4:8153");
    assert_eq!(short_host("gocd.example.com/go"), "gocd.example.com");
    assert_eq!(short_host("demo"), "demo");
}

#[test]
fn short_sha_is_character_safe() {
    assert_eq!(short_sha("25d63f5a166e44e1b86d"), "25d63f5");
    assert_eq!(short_sha("abc"), "abc");
    assert_eq!(short_sha(""), "");
    // Never panics on non-ASCII, which byte slicing would.
    assert_eq!(
        short_sha("\u{e9}\u{e9}\u{e9}\u{e9}\u{e9}\u{e9}\u{e9}\u{e9}")
            .chars()
            .count(),
        7
    );
}

// The whole point of the colouring is that a failure is obvious, so a
// regression that dropped ERROR into the default style would be silent.
#[test]
fn console_severity_classification() {
    let danger = console_body_style("", "ERROR failed to publish artifact");
    let warn = console_body_style("", "WARN deprecated flag");
    let pass = console_body_style("", "All 214 tests passed.");
    let plain = console_body_style("", "compiling module 3");
    assert_ne!(danger, plain, "errors must not render as plain text");
    assert_ne!(warn, plain, "warnings must not render as plain text");
    assert_ne!(pass, plain, "passes must not render as plain text");
    assert_ne!(danger, warn);
    assert_ne!(danger, pass);

    // GoCD's own stream markers carry severity even without keywords.
    assert_eq!(console_body_style("!!", "anything"), danger);
    assert_eq!(console_body_style("&2", "anything"), warn);

    // Case-insensitive: real logs are inconsistent.
    assert_eq!(console_body_style("", "error: boom"), danger);
    assert_eq!(console_body_style("", "Exception in thread"), danger);
}

#[test]
fn status_glyph_and_colour_agree_on_each_state() {
    // Building and Cancelled must be visually distinct from done states,
    // since the dashboard counts lean on them.
    assert_ne!(dot_for("Building"), dot_for("Passed"));
    assert_ne!(dot_for("Cancelled"), dot_for("Passed"));
    assert_eq!(dot_for("Passed"), dot_for("Failed"), "same glyph, colour differs");
    assert_ne!(status_color("Passed"), status_color("Failed"));
    assert_ne!(status_color("Building"), status_color("Passed"));
    // Anything unrecognised falls back rather than panicking.
    assert_eq!(dot_for("SomethingNew"), dot_for(""));
}

#[test]
fn a_console_line_keeps_its_time_and_text() {
    let l = console_line("!!|10:39:12.480 ERROR boom", Some("boom"), true);
    let text = words(&l);
    assert!(text.contains("10:39:12.480"), "{text}");
    assert!(text.contains("ERROR boom"), "{text}");
    assert!(!text.contains("!!|"), "{text}");
    let hit = l.iter().find(|s| s.content == "boom").unwrap();
    assert!(hit.style.bg.is_some());
}

#[test]
fn long_errors_take_more_rows() {
    assert_eq!(message_rows(None, 80), 1);
    assert_eq!(message_rows(Some("short"), 80), 1);
    assert!(message_rows(Some(&"x".repeat(200)), 80) > 1);
}

#[test]
fn tabs_and_hints() {
    for tab in [JobTab::Console, JobTab::Artifacts, JobTab::Materials] {
        assert!(!words(&tab_line(tab)).is_empty());
        assert!(!words(&hint_line(tab)).is_empty());
    }
}

#[test]
fn the_spinner_turns() {
    assert_eq!(spinner(0), spinner(3));
    assert_ne!(spinner(0), spinner(4));
    assert_eq!(spinner(0), spinner(32));
    assert_ne!(github_failure_label("no such repo"), "");
}

#[test]
fn secrets_are_shown_as_dots() {
    assert_eq!(words(&input_line("h\u{e9}y", true)), "> \u{2022}\u{2022}\u{2022}");
    assert_eq!(words(&input_line("h\u{e9}y", false)), "> h\u{e9}y");
    let text: String = github_connect_lines("ghp_secret").iter().map(words).collect();
    assert!(!text.contains("ghp_secret"));
}

#[test]
fn questions_stress_their_first_line() {
    let ls = confirm_lines("web-app #3\nTrigger it?");
    let text: Vec<String> = ls.iter().map(words).collect();
    assert_eq!(
        text,
        vec!["web-app #3", "Trigger it?", "", "y/enter confirm   n/esc cancel"]
    );
    assert!(ls[0][0].style.bold);
    assert!(!ls[1][0].style.bold);
}

#[test]
fn the_help_has_two_columns() {
    let text: Vec<String> = help_lines().iter().map(words).collect();
    assert_eq!(text.len(), 24);
    assert_eq!(text[0], format!("  {:<28}{}", "MOVE", "JOB & LOGS"));
    assert_eq!(
        text[2],
        format!("  {:<9}{:<19}{:<9}{}", "g/G", "top / bottom", "tab", "cycle tabs")
    );
    assert_eq!(text[9], format!("  {:<9}{:<19}", "^g", "incl. group names"));
    assert_eq!(
        text[19],
        format!("  {:<28}{:<9}{}", "", "O", "open in GoCD")
    );
}

#[test]
fn the_connect_form_shows_what_was_entered() {
    let mut form = ReauthForm::new(ReauthMode::Connect, "https://gocd.example.com/go");
    let text: Vec<String> = reauth_lines(&form).iter().map(words).collect();
    assert_eq!(text[0], "GoCD server URL");
    form.step = ReauthStep::Secret;
    form.server_url = "https://x".into();
    form.username = "alice".into();
    form.input = "pw".into();
    let text: Vec<String> = reauth_lines(&form).iter().map(words).collect();
    assert_eq!(
        text,
        vec![
            "\u{2713} Server: https://x",
            "\u{2713} Method: Username & password",
            "\u{2713} User: alice",
            "",
            "Password",
            "",
            "> \u{2022}\u{2022}",
            "",
            "enter confirm   esc cancel"
        ]
    );
}

#[test]
fn forms_for_variables_and_views() {
    let form = TriggerVarsForm {
        pipeline: "p".into(),
        vars: vec![("A".into(), "1".into())],
        input: "".into(),
        confirming: true,
        error: None,
    };
    let text: Vec<String> = trigger_vars_lines(&form).iter().map(words).collect();
    assert_eq!(text[0], "\u{2713} A: 1");
    assert_eq!(text[2], "Trigger a new run of 'p' with 1 variable(s)?");

    let views = vec![ViewFilter {
        name: "mine".into(),
        kind: "whitelist".into(),
        state: vec![],
        pipelines: vec!["a".into(), "b".into()],
    }];
    let text: Vec<String> = view_picker_lines(&views, 1).iter().map(words).collect();
    assert_eq!(text[2], "  All pipelines");
    assert_eq!(text[3], "\u{25b6} mine (2)");
    let text: Vec<String> = save_view_lines("n", 3).iter().map(words).collect();
    assert_eq!(
        text[1],
        "3 pipelines will be in this view (shows in the web UI too)"
    );
    assert_eq!(choice_line("x", true)[0].style.fg, Some(Tint::Accent));
}

#[test]
fn history_rows_show_the_time_of_the_run() {
    let runs = vec![PipelineInstance {
        name: "p".into(),
        label: "9".into(),
        counter: 9,
        comment: None,
        scheduled_date: Some(1_700_000_000_000),
        stages: vec![],
        build_cause: None,
    }];
    let whens = history_times(&runs);
    assert_eq!(whens.len(), 1);
    assert!(whens[0].starts_with("2023-11-1"), "{}", whens[0]);
    assert_eq!(whens[0].len(), 19);
    assert!(whens[0].ends_with(":20"), "zones are whole minutes off: {}", whens[0]);
    let rows = history_rows(&runs, &whens);
    assert_eq!(rows.len(), 1);
    assert_eq!(rows[0].when, whens[0]);
    assert_eq!(rows[0].status, "Unknown");
}
