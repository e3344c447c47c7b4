use lazygocd::notify::{applescript, escape, log_entry};

#[test]
fn applescript_command_construction() {
    assert_eq!(
        applescript("lazygocd", "Pipeline web-app failed"),
        r#"display notification "Pipeline web-app failed" with title "lazygocd""#
    );
}

#[test]
fn applescript_escapes_quotes_and_backslashes() {
    assert_eq!(
        applescript("t", r#"say "hi" \ bye"#),
        r#"display notification "say \"hi\" \\ bye" with title "t""#
    );
}

#[test]
fn escaped_text_has_no_bare_quote() {
    assert_eq!(escape(r#"a"b\c"#), r#"a\"b\\c"#);
    assert_eq!(escape(""), "");
    assert_eq!(escape("\\\""), "\\\\\\\"");
}

#[test]
fn log_entries_hold_title_and_body() {
    let e = log_entry("lazygocd", "web-app failed");
    assert!(e.contains("lazygocd") && e.contains("web-app failed"), "{e}");
}
