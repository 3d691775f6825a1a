use toggl_cli::error::ConfigError;
use toggl_cli::parser::parse_track_config;
use toggl_cli::template::TemplateContext;

fn context_with_branch(branch: &str) -> TemplateContext {
    TemplateContext {
        branch: Some(branch.to_string()),
        base_dir: Some("project".to_string()),
        parent_base_dir: None,
        current_dir: None,
        parent_dir: None,
        git_root: None,
        parent_git_root: None,
        shell_outputs: Vec::new(),
    }
}

#[test]
fn a_full_document_parses_in_declaration_order() {
    let text = "\
# the fallback
[\"*\"]
workspace = \"Default\"
billable = false

['my-.+']
description = \"Working on {{branch}} for {{base_dir}}\"
project = \"Default\"
task = \"Development\"
tags = [\"{{branch}}\", \"fixed\"]
billable = true

[\"^release-.*\"]
billable = true
";
    let ctx = context_with_branch("my-feature");
    let config = parse_track_config(text, &ctx).unwrap();

    assert_eq!(config.default.workspace, Some("Default".to_string()));
    assert_eq!(config.default.billable, false);
    assert_eq!(config.default.description, None);

    assert_eq!(config.configs.len(), 2);
    assert_eq!(config.configs[0].0, "my-.+".to_string());
    assert_eq!(config.configs[1].0, "^release-.*".to_string());

    let rule = &config.configs[0].1;
    assert_eq!(
        rule.description,
        Some("Working on my-feature for project".to_string())
    );
    assert_eq!(rule.project, Some("Default".to_string()));
    assert_eq!(rule.task, Some("Development".to_string()));
    assert_eq!(
        rule.tags,
        Some(vec!["my-feature".to_string(), "fixed".to_string()])
    );
    assert_eq!(rule.billable, true);
}

#[test]
fn an_empty_document_gives_the_empty_default() {
    let ctx = context_with_branch("x");
    let config = parse_track_config("", &ctx).unwrap();
    assert_eq!(config.default.workspace, None);
    assert_eq!(config.default.billable, false);
    assert_eq!(config.configs.len(), 0);
}

#[test]
fn a_duplicate_field_is_rejected() {
    let ctx = context_with_branch("x");
    let text = "[\"*\"]\nbillable = true\nbillable = false\n";
    assert!(matches!(
        parse_track_config(text, &ctx),
        Err(ConfigError::Parse)
    ));
}

#[test]
fn an_unknown_field_is_rejected() {
    let ctx = context_with_branch("x");
    let text = "[\"*\"]\ncolour = \"red\"\n";
    assert!(matches!(
        parse_track_config(text, &ctx),
        Err(ConfigError::Parse)
    ));
}

#[test]
fn a_second_default_block_is_rejected() {
    let ctx = context_with_branch("x");
    let text = "[\"*\"]\nbillable = true\n[\"*\"]\nbillable = false\n";
    assert!(matches!(
        parse_track_config(text, &ctx),
        Err(ConfigError::Parse)
    ));
}

#[test]
fn an_invalid_pattern_is_rejected_at_parse_time() {
    let ctx = context_with_branch("x");
    let text = "[\"foo(bar\"]\nbillable = true\n";
    assert!(matches!(
        parse_track_config(text, &ctx),
        Err(ConfigError::Parse)
    ));
}

#[test]
fn a_field_outside_any_block_is_rejected() {
    let ctx = context_with_branch("x");
    let text = "billable = true\n[\"*\"]\n";
    assert!(matches!(
        parse_track_config(text, &ctx),
        Err(ConfigError::Parse)
    ));
}

#[test]
fn a_structurally_invalid_line_is_rejected() {
    let ctx = context_with_branch("x");
    assert!(matches!(
        parse_track_config("[\"*\"]\nwhat is this\n", &ctx),
        Err(ConfigError::Parse)
    ));
    assert!(matches!(
        parse_track_config("[unclosed\n", &ctx),
        Err(ConfigError::Parse)
    ));
}

#[test]
fn a_wrongly_typed_value_is_rejected() {
    let ctx = context_with_branch("x");
    assert!(matches!(
        parse_track_config("[\"*\"]\nbillable = \"yes\"\n", &ctx),
        Err(ConfigError::Parse)
    ));
    assert!(matches!(
        parse_track_config("[\"*\"]\ntags = \"solo\"\n", &ctx),
        Err(ConfigError::Parse)
    ));
    assert!(matches!(
        parse_track_config("[\"*\"]\nworkspace = true\n", &ctx),
        Err(ConfigError::Parse)
    ));
    assert!(matches!(
        parse_track_config("[\"*\"]\nworkspace = bare\n", &ctx),
        Err(ConfigError::Parse)
    ));
}

#[test]
fn a_field_whose_expansion_fails_becomes_absent() {
    let ctx = context_with_branch("x");
    let text = "[\"*\"]\ndescription = \"{{not_a_real_token}}\"\nproject = \"keep\"\n";
    let config = parse_track_config(text, &ctx).unwrap();
    assert_eq!(config.default.description, None);
    assert_eq!(config.default.project, Some("keep".to_string()));
}

#[test]
fn comments_blanks_and_an_empty_tag_list_are_fine() {
    let ctx = context_with_branch("x");
    let text = "\n  # leading comment\n\n['p.*']\n  tags = []  \n\n";
    let config = parse_track_config(text, &ctx).unwrap();
    assert_eq!(config.configs.len(), 1);
    assert_eq!(config.configs[0].1.tags, Some(Vec::new()));
}
