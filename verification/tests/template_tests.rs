use toggl_cli::template::{
    process_config_value, resolve_tags, resolve_token, resolve_token_to_macro, tokens_of, Macro,
    TemplateContext,
};

fn empty_context() -> TemplateContext {
    TemplateContext {
        branch: None,
        base_dir: None,
        parent_base_dir: None,
        current_dir: None,
        parent_dir: None,
        git_root: None,
        parent_git_root: None,
        shell_outputs: Vec::new(),
    }
}

fn full_context() -> TemplateContext {
    TemplateContext {
        branch: Some("my-feature".to_string()),
        base_dir: Some("project".to_string()),
        parent_base_dir: Some("Projects".to_string()),
        current_dir: Some("foo".to_string()),
        parent_dir: Some("project".to_string()),
        git_root: Some("project".to_string()),
        parent_git_root: Some("Projects".to_string()),
        shell_outputs: vec![("date +%Y".to_string(), Some("2023".to_string()))],
    }
}

#[test]
fn a_value_without_tokens_is_returned_unchanged() {
    let ctx = empty_context();
    let raw = "plain text, no tokens at all { } }} ";
    let r = process_config_value(&ctx, raw);
    assert_eq!(r, Some(raw.to_string()));
}

#[test]
fn an_unresolvable_token_makes_the_whole_value_absent() {
    let ctx = full_context();
    let r = process_config_value(&ctx, "prefix {{not_a_real_token}} suffix");
    assert_eq!(r, None);
}

#[test]
fn tokens_in_the_middle_of_text_are_substituted() {
    let ctx = full_context();
    let r = process_config_value(&ctx, "Working on {{branch}} for {{base_dir}}");
    assert_eq!(r, Some("Working on my-feature for project".to_string()));
}

#[test]
fn a_tag_list_resolves_elementwise_in_order() {
    let ctx = TemplateContext {
        branch: Some("main".to_string()),
        ..empty_context()
    };
    let tags = vec!["{{branch}}".to_string(), "fixed".to_string()];
    let r = resolve_tags(&ctx, &tags);
    assert_eq!(r, vec!["main".to_string(), "fixed".to_string()]);
}

#[test]
fn a_failing_tag_is_dropped_alone() {
    let ctx = empty_context();
    let tags = vec![
        "a".to_string(),
        "{{branch}}".to_string(),
        "b".to_string(),
    ];
    let r = resolve_tags(&ctx, &tags);
    assert_eq!(r, vec!["a".to_string(), "b".to_string()]);
}

#[test]
fn a_shell_token_takes_the_recorded_output() {
    let ctx = full_context();
    let r = process_config_value(&ctx, "year: {{$ date +%Y}}");
    assert_eq!(r, Some("year: 2023".to_string()));
}

#[test]
fn a_failed_shell_command_makes_the_value_absent() {
    let ctx = TemplateContext {
        shell_outputs: vec![("boom".to_string(), None)],
        ..empty_context()
    };
    assert_eq!(process_config_value(&ctx, "{{$boom}}"), None);
}

#[test]
fn an_unknown_shell_command_makes_the_value_absent() {
    let ctx = empty_context();
    assert_eq!(process_config_value(&ctx, "{{$whatever}}"), None);
}

#[test]
fn an_unterminated_token_is_still_resolved() {
    let ctx = full_context();
    let r = process_config_value(&ctx, "on {{branch");
    assert_eq!(r, Some("on my-feature".to_string()));
}

#[test]
fn a_missing_branch_fails_the_branch_token() {
    let ctx = empty_context();
    assert_eq!(process_config_value(&ctx, "{{branch}}"), None);
}

#[test]
fn token_names_classify_exactly() {
    assert!(matches!(resolve_token_to_macro("branch"), Some(Macro::Branch)));
    assert!(matches!(resolve_token_to_macro("base_dir"), Some(Macro::BaseDir)));
    assert!(matches!(
        resolve_token_to_macro("parent_base_dir"),
        Some(Macro::ParentBaseDir)
    ));
    assert!(matches!(resolve_token_to_macro("current_dir"), Some(Macro::CurrentDir)));
    assert!(matches!(resolve_token_to_macro("parent_dir"), Some(Macro::ParentDir)));
    assert!(matches!(resolve_token_to_macro("git_root"), Some(Macro::GitRoot)));
    assert!(matches!(
        resolve_token_to_macro("parent_git_root"),
        Some(Macro::ParentGitRoot)
    ));
    assert!(resolve_token_to_macro("Branch").is_none());
    assert!(resolve_token_to_macro("").is_none());
}

#[test]
fn shell_tokens_lose_dollars_and_whitespace() {
    match resolve_token_to_macro("$$  ls -la  ") {
        Some(Macro::Shell(cmd)) => assert_eq!(cmd, "ls -la".to_string()),
        _ => panic!("expected a shell macro"),
    }
}

#[test]
fn resolving_single_tokens_reads_the_context() {
    let ctx = full_context();
    assert_eq!(resolve_token(&ctx, "git_root"), Some("project".to_string()));
    assert_eq!(resolve_token(&ctx, "parent_git_root"), Some("Projects".to_string()));
    assert_eq!(resolve_token(&ctx, "current_dir"), Some("foo".to_string()));
    assert_eq!(resolve_token(&ctx, "parent_dir"), Some("project".to_string()));
    assert_eq!(resolve_token(&ctx, "parent_base_dir"), Some("Projects".to_string()));
    assert_eq!(resolve_token(&ctx, "nonsense"), None);
}

#[test]
fn tokens_are_listed_in_scan_order() {
    let toks = tokens_of("{{branch}} and {{$ date +%Y}} and {{base_dir}}");
    assert_eq!(
        toks,
        vec![
            "branch".to_string(),
            "$ date +%Y".to_string(),
            "base_dir".to_string()
        ]
    );
}

#[test]
fn the_first_recorded_shell_output_wins() {
    let ctx = TemplateContext {
        shell_outputs: vec![
            ("c".to_string(), Some("first".to_string())),
            ("c".to_string(), Some("second".to_string())),
        ],
        ..empty_context()
    };
    assert_eq!(process_config_value(&ctx, "{{$c}}"), Some("first".to_string()));
}
