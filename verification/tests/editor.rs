use lazygocd::editor::{
    check_session_dir, dir_refusal_text, is_swept, resolve_editor, safe_file_name, sanitize,
    session_dir_name, split_command, temp_path, DirRefusal,
};

// The configuration must win over the environment, otherwise setting it does
// nothing on a machine that already exports EDITOR.
#[test]
fn configured_editor_beats_the_environment() {
    let (prog, args) = resolve_editor(Some("code --wait"), Some("vim"), Some("nano"), true);
    assert_eq!(prog, "code");
    assert_eq!(args, vec!["--wait"]);
}

#[test]
fn blank_config_falls_through_to_the_environment_or_default() {
    // An empty or whitespace value must not shadow $EDITOR.
    for (visual, editor, less) in [
        (None, None, true),
        (None, None, false),
        (Some("vim"), None, true),
        (None, Some("nano"), true),
        (Some(" "), Some(""), false),
    ] {
        let (prog, _) = resolve_editor(Some("   "), visual, editor, less);
        assert!(!prog.is_empty());
        assert_ne!(prog, "   ");
    }
}

#[test]
fn visual_beats_editor_and_flags_are_split() {
    let raw = "code --wait --new-window";
    let (prog, args) = split_command(Some(raw)).unwrap();
    assert_eq!(prog, "code");
    assert_eq!(args, vec!["--wait", "--new-window"]);

    let (prog, args) = resolve_editor(None, Some(raw), Some("nano"), true);
    assert_eq!(prog, "code");
    assert_eq!(args, vec!["--wait", "--new-window"]);
    let (prog, args) = resolve_editor(None, None, Some("nano -w"), true);
    assert_eq!(prog, "nano");
    assert_eq!(args, vec!["-w"]);
}

#[test]
fn sanitize_strips_path_separators_and_odd_characters() {
    assert_eq!(sanitize("web-app/ui build#1"), "web-app-ui-build-1");
    assert_eq!(sanitize("plain-name.log"), "plain-name.log");

    // The property that matters is that nothing can traverse out of the
    // temp dir. Dots survive (they carry the extension), separators do not.
    for hostile in ["../../etc/passwd", "a/b/c", "..\\..\\win", "/abs/path"] {
        let out = sanitize(hostile);
        assert!(!out.contains('/'), "{out:?} still has a separator");
        assert!(!out.contains('\\'), "{out:?} still has a separator");
    }
}

#[test]
fn sanitizing_twice_changes_nothing_more() {
    for name in ["web-app/ui build#1", "../x", "caf\u{e9}.log", ""] {
        let once = sanitize(name);
        assert_eq!(sanitize(&once), once);
    }
}

#[test]
fn blank_commands_are_no_commands() {
    assert_eq!(split_command(None), None);
    assert_eq!(split_command(Some("")), None);
    assert_eq!(split_command(Some(" \t ")), None);
}

#[test]
fn a_temp_path_stands_directly_in_the_directory() {
    let p = temp_path("/tmp/lazygocd-7", "../../escape.log");
    let name = p.strip_prefix("/tmp/lazygocd-7/").unwrap();
    assert!(!name.contains('/'));
    assert!(name.ends_with("escape.log"));
}

#[test]
fn no_name_leads_out_of_the_directory() {
    for hostile in ["..", ".", "", "/", "../", "-..-", "---", "\\"] {
        assert_eq!(temp_path("/tmp/d", hostile), "/tmp/d/untitled", "{hostile:?}");
        assert_eq!(safe_file_name(hostile), "untitled");
    }
    assert_eq!(temp_path("/tmp/d", "..."), "/tmp/d/...");
    assert_eq!(temp_path("/tmp/d", "a/../b"), "/tmp/d/a-..-b");
    assert_eq!(safe_file_name("x.log"), "x.log");
}

#[test]
fn a_session_directory_must_be_ours() {
    assert_eq!(session_dir_name(Some(501)), "lazygocd-501");
    assert_eq!(check_session_dir(true, 501, Some(501)), None);
    assert_eq!(
        check_session_dir(true, 0, Some(501)),
        Some(DirRefusal::OtherOwner)
    );
    assert_eq!(
        check_session_dir(false, 501, Some(501)),
        Some(DirRefusal::NotADirectory)
    );
    for why in [DirRefusal::OtherOwner, DirRefusal::NotADirectory] {
        let t = dir_refusal_text("/tmp/lazygocd-501", why);
        assert!(t.contains("/tmp/lazygocd-501"), "{t}");
    }
    assert_ne!(
        dir_refusal_text("/d", DirRefusal::OtherOwner),
        dir_refusal_text("/d", DirRefusal::NotADirectory)
    );
}

#[test]
fn only_old_files_are_swept() {
    assert!(is_swept("a.log", false, false, Some(100), 50));
    assert!(!is_swept("a.log", false, false, Some(10), 50));
    assert!(!is_swept("a.log", false, false, None, 50));
    assert!(!is_swept("sub", false, true, Some(100), 50));
}
