use lazygocd::github::{
    commit_parse_failure, explain_rejection, gh_auth_token, resolve_token, token_configured,
    Attempt, CommitCheck, CommitProgress, CommitStep, GitHubClient, GithubRequest,
};

// An explicitly configured token must win, and a blank one must not count
// as configured: that would silently skip the `gh auth token` fallback.
#[test]
fn configured_token_wins_and_blank_is_not_configured() {
    for gh in [None, Some("gho_cli".to_string())] {
        assert_eq!(
            resolve_token(Some("ghp_explicit".into()), gh.clone()),
            Some("ghp_explicit".into())
        );
        // Blank or whitespace falls through to the gh CLI (which may return
        // None on a machine without gh; either way it is not the blank value).
        assert_ne!(
            resolve_token(Some("   ".into()), gh.clone()),
            Some("   ".into())
        );
        assert_ne!(resolve_token(Some("".into()), gh.clone()), Some("".into()));
        assert_eq!(resolve_token(Some("".into()), gh.clone()), gh);
        assert_eq!(resolve_token(None, gh.clone()), gh);
    }
}

// A SAML-blocked token is the case that used to render as "connect GitHub
// with '@'", telling people to do the thing they had already done.
#[test]
fn saml_rejection_names_the_org_and_both_fixes() {
    let body = r#"{"message":"Resource protected by organization SAML enforcement. You must grant your Personal Access token access to this organization."}"#;
    let out = explain_rejection(403, body, "acme", "acme/web-app@main");
    assert!(out.contains("SSO-authorized"), "{out}");
    assert!(out.contains("acme"), "names the org: {out}");
    assert!(out.contains("github_token"), "names the config escape hatch: {out}");
}

#[test]
fn other_rejections_say_what_they_are() {
    assert!(explain_rejection(401, "{}", "acme", "x").contains("invalid or revoked"));
    assert!(explain_rejection(404, "{}", "acme", "x").contains("no such repo"));
    // A plain 403 with no SAML marker must not claim an SSO problem.
    let plain = explain_rejection(403, r#"{"message":"rate limit"}"#, "acme", "x");
    assert!(!plain.contains("SSO-authorized"), "{plain}");
    assert!(plain.contains("rate limited"), "{plain}");
}

#[test]
fn api_base_trailing_slash_is_normalised() {
    // A trailing slash would produce '//repos/...' in every request URL.
    let c = GitHubClient::new(None, "https://ghe.corp.io/api/v3/", None);
    assert_eq!(c.api_base, "https://ghe.corp.io/api/v3");
    let d = GitHubClient::new(None, "https://api.github.com", None);
    assert_eq!(d.api_base, "https://api.github.com");
}

fn nothing_yet() -> CommitProgress {
    CommitProgress {
        first: None,
        gh: None,
        retry: None,
    }
}

#[test]
fn a_commit_is_asked_for_with_the_token() {
    let c = GitHubClient::new(Some("t".into()), "https://api.github.com/", None);
    assert_eq!(
        c.latest_commit("acme", "web-app", "release/1.0", &nothing_yet()),
        CommitStep::Send(GithubRequest {
            url: "https://api.github.com/repos/acme/web-app/commits/release%2F1.0".into(),
            headers: vec![
                ("Accept".into(), "application/vnd.github+json".into()),
                ("User-Agent".into(), "lazygocd".into()),
            ],
            bearer: Some("t".into()),
        })
    );
    let mut p = nothing_yet();
    p.first = Some(Attempt::Found("abc".into()));
    assert_eq!(
        c.latest_commit("acme", "web-app", "main", &p),
        CommitStep::Found(CommitCheck {
            sha: "abc".into(),
            fell_back: false
        })
    );
}

#[test]
fn tokens_are_not_sent_in_the_clear() {
    let c = GitHubClient::new(Some("t".into()), "http://ghe.corp.io/api/v3", None);
    match c.latest_commit("a", "b", "main", &nothing_yet()) {
        CommitStep::Send(r) => assert_eq!(r.bearer, None),
        CommitStep::Failed(e) => assert!(!e.is_empty()),
        other => panic!("{other:?}"),
    }
}

#[test]
fn a_refused_token_falls_back_to_the_command_line_tool() {
    let c = GitHubClient::new(Some("bad".into()), "https://api.github.com", None);
    let mut p = nothing_yet();
    p.first = Some(Attempt::Rejected {
        status: 403,
        body: "{}".into(),
    });
    assert_eq!(c.latest_commit("a", "b", "main", &p), CommitStep::AskGh);
    p.gh = Some(Some("good".into()));
    match c.latest_commit("a", "b", "main", &p) {
        CommitStep::Send(r) => assert_eq!(r.bearer.as_deref(), Some("good")),
        other => panic!("{other:?}"),
    }
    p.retry = Some(Attempt::Found("abc".into()));
    assert_eq!(
        c.latest_commit("a", "b", "main", &p),
        CommitStep::Found(CommitCheck {
            sha: "abc".into(),
            fell_back: true
        })
    );
    // Without another token the first refusal is explained.
    p.gh = Some(None);
    p.retry = None;
    match c.latest_commit("a", "b", "main", &p) {
        CommitStep::Failed(e) => assert!(e.contains("rate limited"), "{e}"),
        other => panic!("{other:?}"),
    }
}

#[test]
fn failures_of_the_network_are_passed_on() {
    let c = GitHubClient::new(None, "https://api.github.com", None);
    let mut p = nothing_yet();
    p.first = Some(Attempt::Failed("timed out".into()));
    match c.latest_commit("a", "b", "main", &p) {
        CommitStep::Failed(e) => assert!(e.contains("timed out"), "{e}"),
        other => panic!("{other:?}"),
    }
}

#[test]
fn the_tool_must_succeed_and_print_a_token() {
    assert_eq!(gh_auth_token(true, Some("tok\n")), Some("tok".into()));
    assert_eq!(gh_auth_token(true, Some(" \n")), None);
    assert_eq!(gh_auth_token(true, None), None);
    assert_eq!(gh_auth_token(false, Some("tok\n")), None);
    assert!(token_configured(&Some("t".into())));
    assert!(!token_configured(&Some(" ".into())));
    assert!(!token_configured(&None));
}

#[test]
fn unreadable_replies_are_quoted() {
    assert!(commit_parse_failure("not json").contains("not json"));
}
