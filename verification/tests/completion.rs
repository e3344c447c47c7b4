use lazygocd::completion::{with_pipeline_completion, Shell};

#[test]
fn scripts_complete_pipeline_names() {
    let zsh = with_pipeline_completion(
        Shell::Zsh,
        "x\n'::query -- the initials will do:_default' \\\n".to_string(),
    );
    assert!(zsh.contains("_lazygocd_pipeline_names"), "{zsh}");
    let bash = with_pipeline_completion(Shell::Bash, "script\n".to_string());
    assert!(bash.starts_with("script\n"), "{bash}");
    assert!(bash.len() > "script\n".len());
    let fish = with_pipeline_completion(Shell::Fish, "script\n".to_string());
    assert!(fish.starts_with("script\n"), "{fish}");
    assert!(fish.len() > "script\n".len());
    assert_eq!(
        with_pipeline_completion(Shell::Other, "script\n".to_string()),
        "script\n"
    );
}
