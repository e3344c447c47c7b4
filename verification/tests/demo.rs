use lazygocd::demo::{
    artifacts_json, console_log, dashboard_json, fixtures, history_json, views_json,
};
use serde_json::Value;

fn parse(text: &str) -> Value {
    serde_json::from_str(text).unwrap()
}

fn items<'a>(v: &'a Value, path: &[&str]) -> &'a Vec<Value> {
    let mut at = v;
    for p in path {
        at = &at[*p];
    }
    at.as_array().unwrap()
}

// The demo data has to have the shape of the server's responses, otherwise it
// silently drifts away from them.
#[test]
fn demo_payloads_parse_with_the_real_models() {
    let d = parse(&dashboard_json(None));
    assert_eq!(items(&d, &["_embedded", "pipeline_groups"]).len(), 4);
    assert_eq!(items(&d, &["_embedded", "pipelines"]).len(), 14);
    for p in items(&d, &["_embedded", "pipelines"]) {
        assert!(p["name"].is_string());
        assert!(p["pause_info"]["paused"].is_boolean());
        for i in items(p, &["_embedded", "instances"]) {
            assert!(i["label"].is_string());
            assert!(i["counter"].is_i64());
            for s in items(i, &["_embedded", "stages"]) {
                assert!(s["name"].is_string());
                assert!(s["status"].is_string());
            }
        }
    }
    for g in items(&d, &["_embedded", "pipeline_groups"]) {
        assert!(g["name"].is_string());
        assert!(!items(g, &["pipelines"]).is_empty());
    }

    let h = parse(&history_json("api-build-test", None, 1_700_000_000_000));
    let runs = items(&h, &["pipelines"]);
    assert!(!runs.is_empty());
    assert!(items(&runs[0], &["stages"]).len() == 2);
    for r in runs {
        assert!(r["name"] == "api-build-test");
        assert!(r["label"].is_string());
        assert!(r["counter"].is_i64());
        assert!(r["scheduled_date"].is_i64());
        assert!(!items(r, &["build_cause", "material_revisions"]).is_empty());
    }

    let a = parse(artifacts_json());
    assert_eq!(a.as_array().unwrap().len(), 3);
    assert!(a[0]["name"].is_string());

    let v = parse(views_json());
    assert_eq!(items(&v, &["filters"]).len(), 3);
    assert!(v["filters"][0]["name"].is_string());
}

#[test]
fn views_filter_the_demo_dashboard() {
    let all = parse(&dashboard_json(None));
    let front = parse(&dashboard_json(Some("frontend only")));
    assert!(
        items(&front, &["_embedded", "pipelines"]).len()
            < items(&all, &["_embedded", "pipelines"]).len()
    );
    assert_eq!(items(&front, &["_embedded", "pipeline_groups"]).len(), 1);
}

#[test]
fn console_log_supports_incremental_tailing() {
    let full = console_log(0);
    let tail = console_log(40);
    assert!(full.lines().count() > tail.lines().count());
    assert!(full.contains("ERROR failed to publish"));
}

#[test]
fn tails_are_the_rest_of_the_log() {
    let full = console_log(0);
    let lines: Vec<&str> = full.lines().collect();
    for from in [0, 1, 17, lines.len() - 1, lines.len(), lines.len() + 5] {
        let tail = console_log(from);
        let rest: Vec<&str> = tail.lines().collect();
        assert_eq!(rest, lines.iter().skip(from).copied().collect::<Vec<_>>());
    }
}

#[test]
fn every_demo_pipeline_stands_in_its_group() {
    let d = parse(&dashboard_json(None));
    for f in fixtures() {
        let group = items(&d, &["_embedded", "pipeline_groups"])
            .iter()
            .find(|g| g["name"] == f.group)
            .unwrap();
        assert!(items(group, &["pipelines"]).iter().any(|p| p == f.name));
    }
}

#[test]
fn later_pages_hold_earlier_runs() {
    let first = parse(&history_json("api-build-test", None, 0));
    let second = parse(&history_json("api-build-test", Some(5), 0));
    let top = first["pipelines"][0]["counter"].as_i64().unwrap();
    assert!(top > 0);
    for r in second["pipelines"].as_array().unwrap() {
        assert!(r["counter"].as_i64().unwrap() < top);
    }
}

fn texts(v: &Value) -> Vec<String> {
    v.as_array()
        .unwrap()
        .iter()
        .map(|x| x.as_str().unwrap().to_string())
        .collect()
}

#[test]
fn views_show_the_pipelines_they_name() {
    let all = parse(&dashboard_json(None));
    assert_eq!(items(&all, &["_embedded", "pipelines"]).len(), fixtures().len());
    for v in items(&parse(views_json()), &["filters"]) {
        let name = v["name"].as_str().unwrap();
        if name == "Default" {
            continue;
        }
        let d = parse(&dashboard_json(Some(name)));
        let shown: Vec<String> = items(&d, &["_embedded", "pipelines"])
            .iter()
            .map(|p| p["name"].as_str().unwrap().to_string())
            .collect();
        assert_eq!(shown, texts(&v["pipelines"]));
        let members: Vec<String> = items(&d, &["_embedded", "pipeline_groups"])
            .iter()
            .flat_map(|g| texts(&g["pipelines"]))
            .collect();
        assert_eq!(members, shown);
    }
}

#[test]
fn the_newest_run_is_the_one_on_the_dashboard() {
    let d = parse(&dashboard_json(None));
    for p in items(&d, &["_embedded", "pipelines"]) {
        let latest = &p["_embedded"]["instances"][0];
        let h = parse(&history_json(p["name"].as_str().unwrap(), None, 0));
        let runs = items(&h, &["pipelines"]);
        assert_eq!(runs.len(), 8);
        assert_eq!(runs[0]["counter"], latest["counter"]);
        assert_eq!(runs[0]["label"], latest["label"]);
        for s in items(&runs[0], &["stages"]) {
            assert_eq!(s["status"], latest["_embedded"]["stages"][0]["status"]);
        }
        for (i, r) in runs.iter().enumerate() {
            assert_eq!(
                r["counter"].as_i64().unwrap(),
                latest["counter"].as_i64().unwrap() - i as i64
            );
        }
    }
}
