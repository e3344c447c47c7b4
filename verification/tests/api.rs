use lazygocd::api::{
    check_reply, dashboard_answer, encode_segment, parse_failure, pick_instance, send_failure,
    truncate, upsert_view, views_etag, Body, Call, Credential, DashboardAnswer, GoCdClient, Request,
    Verb,
};
use lazygocd::config::Config;
use lazygocd::model::{
    HistoryLinks, HistoryResponse, Link, PipelineInstance, ViewFilter, ViewFilters,
};

// A proxy or load balancer in front of GoCD answers with an HTML page, and
// that markup used to be echoed straight into the one-line status bar.
#[test]
fn html_error_bodies_collapse_instead_of_leaking_markup() {
    let html = "<html>\n<head><title>403 Forbidden</title></head>\n<body></body>\n</html>";
    let out = truncate(html);
    assert!(!out.contains('<'), "markup leaked: {out:?}");
    assert!(out.contains("proxy") || out.contains("gateway"), "unhelpful: {out:?}");

    // Leading whitespace must not defeat the detection.
    assert_eq!(truncate("  \n <html>x</html>"), truncate("<html>x</html>"));
}

#[test]
fn json_error_bodies_pass_through_but_stay_bounded() {
    let json = r#"{"message":"Pipeline not found"}"#;
    assert_eq!(truncate(json), json);

    let long = "x".repeat(1000);
    assert_eq!(truncate(&long).chars().count(), 300);
}

#[test]
fn path_segments_are_percent_encoded() {
    assert_eq!(encode_segment("web-app_build.1"), "web-app_build.1");
    assert_eq!(encode_segment("a/b"), "a%2Fb");
    assert_eq!(encode_segment("a?b#c"), "a%3Fb%23c");
    assert_eq!(encode_segment("release/1.0"), "release%2F1.0");
    assert_eq!(encode_segment("sp ace"), "sp%20ace");
}

// Non-ASCII in an error body must not panic the truncation.
#[test]
fn truncate_counts_characters_not_bytes() {
    let unicode = "\u{5931}\u{6557}".repeat(400);
    let out = truncate(&unicode);
    assert_eq!(out.chars().count(), 300);
}

#[test]
fn characters_beyond_ascii_are_encoded_byte_by_byte() {
    assert_eq!(encode_segment("caf\u{e9}"), "caf%C3%A9");
    assert_eq!(encode_segment("\u{1f600}"), "%F0%9F%98%80");
    assert_eq!(encode_segment("100%"), "100%25");
    assert_eq!(encode_segment(""), "");
    assert_ne!(encode_segment("a/b"), encode_segment("a%2Fb"));
}

fn client() -> GoCdClient {
    let cfg = Config {
        server_url: "https://gocd.example.com/go/".into(),
        username: Some("alice".into()),
        password: Some("pw".into()),
        ..Config::default()
    };
    GoCdClient::new(&cfg)
}

fn sent(call: Call) -> Request {
    match call {
        Call::Send(r) => r,
        other => panic!("expected a request, got {other:?}"),
    }
}

fn header<'a>(r: &'a Request, name: &str) -> Option<&'a str> {
    r.headers
        .iter()
        .find(|(n, _)| n.eq_ignore_ascii_case(name))
        .map(|(_, v)| v.as_str())
}

#[test]
fn requests_go_to_the_server_with_the_credential() {
    let r = sent(client().fetch_dashboard(Some("\"abc\""), Some("mine")));
    assert_eq!(r.verb, Verb::Get);
    assert_eq!(r.url, "https://gocd.example.com/go/api/dashboard");
    assert_eq!(header(&r, "If-None-Match"), Some("\"abc\""));
    assert_eq!(r.query, Some(("viewName".to_string(), "mine".to_string())));
    assert_eq!(
        r.credential,
        Credential::Basic("alice".into(), Some("pw".into()))
    );

    let token = GoCdClient::new(&Config {
        server_url: "https://gocd.example.com/go".into(),
        username: Some("alice".into()),
        password: Some("pw".into()),
        auth_token: Some("tok".into()),
        ..Config::default()
    });
    let r = sent(token.fetch_dashboard(None, None));
    assert_eq!(r.credential, Credential::Bearer("tok".into()));
    assert_eq!(header(&r, "If-None-Match"), None);
    assert_eq!(r.query, None);
}

#[test]
fn every_path_segment_is_encoded() {
    let c = client();
    let r = sent(c.fetch_history_page("a/b", Some(7), 0));
    assert_eq!(
        r.url,
        "https://gocd.example.com/go/api/pipelines/a%2Fb/history?after=7"
    );
    assert_eq!(r.query, None);
    let r = sent(c.fetch_history_page("p", None, 0));
    assert_eq!(r.url, "https://gocd.example.com/go/api/pipelines/p/history");
    let r = sent(c.trigger_pipeline("a/b"));
    assert_eq!(
        r.url,
        "https://gocd.example.com/go/api/pipelines/a%2Fb/schedule"
    );
    assert_eq!(r.verb, Verb::Post);
    let vars = vec![("K".to_string(), "v".to_string())];
    let r = sent(c.trigger_pipeline_with_vars("a/b", &vars));
    assert_eq!(
        r.url,
        "https://gocd.example.com/go/api/pipelines/a%2Fb/schedule"
    );
    assert!(matches!(&r.body, Body::Variables { vars: v, secure: false, update_materials: true } if *v == vars));
    let r = sent(c.pause_pipeline("a b", "because"));
    assert_eq!(r.url, "https://gocd.example.com/go/api/pipelines/a%20b/pause");
    assert!(matches!(&r.body, Body::PauseCause(w) if w == "because"));
    let r = sent(c.unpause_pipeline("a b"));
    assert_eq!(
        r.url,
        "https://gocd.example.com/go/api/pipelines/a%20b/unpause"
    );
    let r = sent(c.cancel_stage("p", 3, "s t", "1"));
    assert_eq!(
        r.url,
        "https://gocd.example.com/go/api/stages/p/3/s%20t/1/cancel"
    );
    let r = sent(c.rerun_failed_jobs("p", 3, "s", "1"));
    assert_eq!(
        r.url,
        "https://gocd.example.com/go/api/stages/p/3/s/1/run-failed-jobs"
    );
    let r = sent(c.rerun_stage("p", 3, "s", "1"));
    assert_eq!(r.url, "https://gocd.example.com/go/api/stages/p/3/s/1/run");
    let r = sent(c.fetch_pipeline_instance("p", 3, 0));
    assert_eq!(r.url, "https://gocd.example.com/go/api/pipelines/p/3");
    let r = sent(c.fetch_console_log("p", 3, "s", "1", "j#1", 40));
    assert_eq!(
        r.url,
        "https://gocd.example.com/go/files/p/3/s/1/j%231/cruise-output/console.log?startLineNumber=40"
    );
    assert_eq!(r.query, None);
    let r = sent(c.fetch_artifacts("p", 3, "s", "1", "j"));
    assert_eq!(r.url, "https://gocd.example.com/go/files/p/3/s/1/j.json");
}

#[test]
fn demo_answers_are_canned() {
    let c = GoCdClient::demo();
    assert!(c.demo);
    assert!(matches!(c.fetch_dashboard(None, None), Call::Canned(_)));
    assert!(matches!(c.fetch_history_page("web-app-build", None, 0), Call::Canned(_)));
    assert!(matches!(c.fetch_views(), Call::Canned(_)));
    assert!(matches!(c.fetch_artifacts("p", 1, "s", "1", "j"), Call::Canned(_)));
    assert!(matches!(c.fetch_console_log("p", 1, "s", "1", "j", 0), Call::Canned(_)));
    assert!(matches!(c.trigger_pipeline("p"), Call::Done));
    assert!(matches!(c.pause_pipeline("p", "x"), Call::Done));
}

#[test]
fn refused_replies_carry_the_status_and_a_bounded_body() {
    let r = sent(client().fetch_views());
    assert_eq!(check_reply(&r, 200, "200 OK", "anything"), Ok(()));
    assert_eq!(check_reply(&r, 204, "204 No Content", ""), Ok(()));
    let err = check_reply(&r, 404, "404 Not Found", "gone").unwrap_err();
    assert!(err.contains("404 Not Found"), "{err}");
    assert!(err.contains("gone"), "{err}");
    let err = check_reply(&r, 403, "403 Forbidden", "<html>no</html>").unwrap_err();
    assert!(!err.contains('<'), "{err}");
}

#[test]
fn an_unchanged_dashboard_is_told_from_a_fresh_one() {
    let r = sent(client().fetch_dashboard(Some("e"), None));
    assert_eq!(
        dashboard_answer(&r, 304, "304 Not Modified", ""),
        DashboardAnswer::NotModified
    );
    assert_eq!(dashboard_answer(&r, 200, "200 OK", "{}"), DashboardAnswer::Fresh);
    assert!(matches!(
        dashboard_answer(&r, 401, "401 Unauthorized", "no"),
        DashboardAnswer::Refused(e) if e.contains("401 Unauthorized")
    ));
}

#[test]
fn failures_say_what_was_being_done() {
    let r = sent(client().fetch_dashboard(None, None));
    let e = send_failure(&r, "connection refused");
    assert!(e.contains("connection refused"), "{e}");
    let e = send_failure(&r, "invalid peer certificate: UnknownIssuer");
    assert!(e.contains("insecure_skip_verify"), "{e}");
    let e = parse_failure(&r, "<html>login</html>");
    assert!(!e.contains('<'), "{e}");
}

fn view(name: &str, pipelines: &[&str]) -> ViewFilter {
    ViewFilter {
        name: name.into(),
        kind: "whitelist".into(),
        state: vec![],
        pipelines: pipelines.iter().map(|p| p.to_string()).collect(),
    }
}

#[test]
fn saving_a_view_keeps_the_other_views() {
    let current = ViewFilters {
        filters: vec![view("Default", &[]), view("mine", &["a"]), view("other", &["b"])],
    };
    let out = upsert_view(current, "mine", vec!["c".to_string(), "d".to_string()]);
    let shape: Vec<(&str, Vec<&str>)> = out
        .filters
        .iter()
        .map(|f| (f.name.as_str(), f.pipelines.iter().map(|p| p.as_str()).collect()))
        .collect();
    assert!(shape.contains(&("Default", vec![])));
    assert!(shape.contains(&("other", vec!["b"])));
    assert!(shape.contains(&("mine", vec!["c", "d"])));
    assert_eq!(shape.len(), 3);

    let r = sent(client().save_view(
        "new",
        vec!["x".to_string()],
        ViewFilters {
            filters: vec![view("Default", &[])],
        },
        Some("\"tag\""),
    ));
    assert_eq!(r.verb, Verb::Put);
    assert_eq!(header(&r, "If-Match"), Some("\"tag\""));
    assert!(matches!(&r.body, Body::Views(v) if v.filters.len() == 2));
}

#[test]
fn the_gzip_mark_is_taken_off_an_etag() {
    assert_eq!(views_etag("\"abc--gzip\""), "\"abc\"");
    assert_eq!(views_etag("\"abc\""), "\"abc\"");
}

fn run(counter: i64) -> PipelineInstance {
    PipelineInstance {
        name: "p".into(),
        label: "l".into(),
        counter,
        comment: None,
        scheduled_date: None,
        stages: vec![],
        build_cause: None,
    }
}

#[test]
fn the_demo_instance_is_the_one_asked_for_or_the_first() {
    let found = pick_instance(vec![run(3), run(2)], 2);
    assert_eq!(found.map(|r| r.counter), Some(2));
    let other = pick_instance(vec![run(3), run(2)], 9);
    assert_eq!(other.map(|r| r.counter), Some(3));
    assert!(pick_instance(vec![], 1).is_none());
}

#[test]
fn the_next_page_comes_from_the_link() {
    let page = |href: Option<&str>| HistoryResponse {
        links: href.map(|h| HistoryLinks {
            next: Some(Link { href: h.into() }),
        }),
        pipelines: vec![],
    };
    assert_eq!(page(Some("/h?after=12")).next_cursor(), Some(12));
    assert_eq!(page(Some("/h")).next_cursor(), None);
    assert_eq!(page(None).next_cursor(), None);
}
