use lazygocd::config::{
    apply_overrides, config_path, dashboard_cache_path, favorites_path, resolve_command_values,
    resolve_config_dir, resolve_value, run_value_command, CommandOutcome, Config, Overrides,
    Resolution, ValueStep,
};

fn printed(out: &str) -> CommandOutcome {
    CommandOutcome::Succeeded {
        stdout: Some(out.to_string()),
    }
}

/// The value of a setting whose command, if it has one, ended with `out`.
fn value(raw: &str, field: &str, out: CommandOutcome) -> Result<String, String> {
    match resolve_value(raw, field) {
        ValueStep::Literal(v) => Ok(v),
        ValueStep::Run(body) => run_value_command(&body, field, &out),
        ValueStep::Rejected(e) => Err(e),
    }
}

#[test]
fn plain_value_passes_through_untouched() {
    assert_eq!(
        value("abc123", "auth_token", CommandOutcome::NotRun).unwrap(),
        "abc123"
    );
}

#[test]
fn a_value_that_merely_mentions_cmd_is_not_executed() {
    let raw = "token-{{cmd-like}}-value";
    assert_eq!(value(raw, "auth_token", CommandOutcome::NotRun).unwrap(), raw);
}

#[test]
fn wrapped_command_is_executed_and_trimmed() {
    let raw = "{{cmd: printf 'secret\n'}}";
    assert_eq!(
        resolve_value(raw, "auth_token"),
        ValueStep::Run("printf 'secret\n'".to_string())
    );
    let out = value(raw, "auth_token", printed("secret\n")).unwrap();
    assert_eq!(out, "secret");
}

#[test]
fn command_can_use_quoting_and_pipes() {
    let raw = "{{cmd: echo 'a b' | tr ' ' '-'}}";
    assert_eq!(
        resolve_value(raw, "auth_token"),
        ValueStep::Run("echo 'a b' | tr ' ' '-'".to_string())
    );
    let out = value(raw, "auth_token", printed("a-b\n")).unwrap();
    assert_eq!(out, "a-b");
}

#[test]
fn failing_command_reports_the_field_and_stderr() {
    let raw = "{{cmd: echo nope >&2; exit 3}}";
    assert_eq!(
        resolve_value(raw, "auth_token"),
        ValueStep::Run("echo nope >&2; exit 3".to_string())
    );
    let msg = value(
        raw,
        "auth_token",
        CommandOutcome::Failed {
            status: "exit status: 3".into(),
            stderr: "nope\n".into(),
        },
    )
    .unwrap_err();
    assert!(msg.contains("auth_token"), "{msg}");
    assert!(msg.contains("nope"), "{msg}");
}

#[test]
fn command_producing_no_output_is_an_error_not_an_empty_secret() {
    let err = value("{{cmd: true}}", "auth_token", printed("")).unwrap_err();
    assert!(err.contains("no output"), "{err}");
}

#[test]
fn empty_command_body_is_rejected() {
    let err = value("{{cmd:   }}", "auth_token", CommandOutcome::NotRun).unwrap_err();
    assert!(err.contains("expected a command"), "{err}");
}

/// Runs the commands of a configuration, each an `echo`.
fn resolve_all(cfg: &mut Config) -> Result<(), String> {
    let mut outcomes = Vec::new();
    loop {
        match resolve_command_values(cfg, &outcomes) {
            Resolution::Done => return Ok(()),
            Resolution::Failed(e) => return Err(e),
            Resolution::Needs { body, .. } => {
                let word = body.strip_prefix("echo ").expect("an echo");
                outcomes.push(printed(&format!("{word}\n")));
            }
        }
    }
}

#[test]
fn every_string_field_is_resolved_not_just_the_token() {
    let mut cfg = Config {
        server_url: "{{cmd: echo https://gocd.example.com/go}}".into(),
        username: Some("{{cmd: echo alice}}".into()),
        password: Some("{{cmd: echo pw}}".into()),
        auth_token: Some("{{cmd: echo tok}}".into()),
        github_token: Some("{{cmd: echo ghtok}}".into()),
        editor: Some("{{cmd: echo nvim}}".into()),
        ..Config::default()
    };
    resolve_all(&mut cfg).unwrap();
    assert_eq!(cfg.server_url, "https://gocd.example.com/go");
    assert_eq!(cfg.username.as_deref(), Some("alice"));
    assert_eq!(cfg.password.as_deref(), Some("pw"));
    assert_eq!(cfg.auth_token.as_deref(), Some("tok"));
    assert_eq!(cfg.github_token.as_deref(), Some("ghtok"));
    assert_eq!(cfg.editor.as_deref(), Some("nvim"));
}

#[test]
fn flag_override_beats_xdg_and_home() {
    let dir = resolve_config_dir(Some("/custom/cfg"), Some("/xdg"), Some("/home/u"));
    assert_eq!(dir.unwrap(), "/custom/cfg");
}

#[test]
fn xdg_config_home_beats_home() {
    let dir = resolve_config_dir(None, Some("/xdg"), Some("/home/u"));
    assert_eq!(dir.unwrap(), "/xdg/lazygocd");
}

#[test]
fn empty_xdg_falls_back_to_home() {
    let dir = resolve_config_dir(None, Some(""), Some("/home/u"));
    assert_eq!(dir.unwrap(), "/home/u/.config/lazygocd");
}

#[test]
fn no_xdg_falls_back_to_home() {
    let dir = resolve_config_dir(None, None, Some("/home/u"));
    assert_eq!(dir.unwrap(), "/home/u/.config/lazygocd");
}

#[test]
fn without_a_home_there_is_no_directory() {
    assert!(resolve_config_dir(None, None, None).is_err());
}

#[test]
fn the_files_stand_in_the_directory() {
    assert_eq!(config_path("/c"), "/c/config.toml");
    assert_eq!(dashboard_cache_path("/c"), "/c/dashboard_cache.json");
    assert_eq!(favorites_path("/c"), "/c/favorites.json");
}

#[test]
fn commands_that_cannot_run_or_print_no_text_are_errors() {
    let raw = "{{cmd: pass show x}}";
    assert!(value(raw, "password", CommandOutcome::NotRun).is_err());
    let err = value(raw, "password", CommandOutcome::Succeeded { stdout: None }).unwrap_err();
    assert!(err.contains("password"), "{err}");
    let err = value(
        raw,
        "password",
        CommandOutcome::Failed {
            status: "exit status: 3".into(),
            stderr: "".into(),
        },
    )
    .unwrap_err();
    assert!(err.contains("exit status: 3"), "{err}");
}

#[test]
fn a_failing_command_stops_the_others() {
    let mut cfg = Config {
        server_url: "{{cmd: a}}".into(),
        username: Some("{{cmd: b}}".into()),
        ..Config::default()
    };
    assert_eq!(
        resolve_command_values(&mut cfg, &vec![]),
        Resolution::Needs {
            field: "server_url".into(),
            body: "a".into()
        }
    );
    assert_eq!(cfg.server_url, "{{cmd: a}}");
    let r = resolve_command_values(&mut cfg, &vec![printed("u")]);
    assert!(matches!(r, Resolution::Needs { field, .. } if field == "username"));
    assert_eq!(cfg.server_url, "{{cmd: a}}");
    let r = resolve_command_values(&mut cfg, &vec![CommandOutcome::NotRun]);
    assert!(matches!(r, Resolution::Failed(e) if e.contains("server_url")));
}

#[test]
fn plain_settings_need_no_command() {
    let mut cfg = Config {
        server_url: "https://gocd.example.com/go".into(),
        username: Some("alice".into()),
        ..Config::default()
    };
    assert_eq!(resolve_command_values(&mut cfg, &vec![]), Resolution::Done);
    assert_eq!(cfg.server_url, "https://gocd.example.com/go");
    assert_eq!(cfg.username.as_deref(), Some("alice"));
    assert_eq!(cfg.password, None);
}

#[test]
fn the_environment_beats_the_file() {
    let mut cfg = Config {
        server_url: "https://file".into(),
        auth_token: Some("file".into()),
        ..Config::default()
    };
    apply_overrides(
        &mut cfg,
        Overrides {
            url: Some("https://env".into()),
            username: None,
            password: None,
            token: Some("env".into()),
            insecure: true,
            github_token: None,
        },
    );
    assert_eq!(cfg.server_url, "https://env");
    assert_eq!(cfg.auth_token.as_deref(), Some("env"));
    assert!(cfg.insecure_skip_verify);
    assert_eq!(cfg.username, None);
}

#[test]
fn defaults() {
    let cfg = Config::default();
    assert_eq!(cfg.server_url, "");
    assert_eq!(cfg.poll_interval_secs, 30);
    assert_eq!(cfg.github_api_base, "https://api.github.com");
    assert!(cfg.notifications);
    assert!(!cfg.insecure_skip_verify);
}
