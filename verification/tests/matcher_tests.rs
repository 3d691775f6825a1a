use toggl_cli::parser::parse_track_config;
use toggl_cli::template::TemplateContext;
use toggl_cli::{BranchConfig, TrackConfig};

fn empty_context() -> TemplateContext {
    TemplateContext {
        branch: None,
        base_dir: None,
        parent_base_dir: None,
        current_dir: None,
        parent_dir: None,
        git_root: None,
        parent_git_root: None,
        shell_outputs: Vec::new(),
    }
}

fn rule(billable: bool) -> BranchConfig {
    BranchConfig {
        workspace: None,
        description: None,
        project: None,
        task: None,
        tags: None,
        billable,
    }
}

#[test]
fn with_no_pattern_blocks_the_default_applies() {
    let config = TrackConfig {
        default: rule(false),
        configs: Vec::new(),
    };
    let selected = config.get_branch_config(Some("feature-x"));
    assert_eq!(selected.billable, false);
    assert_eq!(selected.workspace, None);
}

#[test]
fn a_matching_pattern_beats_the_default_and_a_miss_falls_back() {
    let config = TrackConfig {
        default: rule(false),
        configs: vec![("^feature-.*".to_string(), rule(true))],
    };
    assert_eq!(config.get_branch_config(Some("feature-42")).billable, true);
    assert_eq!(config.get_branch_config(Some("main")).billable, false);
}

#[test]
fn with_two_matching_patterns_the_earlier_declared_wins() {
    let first = BranchConfig {
        description: Some("first".to_string()),
        ..rule(false)
    };
    let second = BranchConfig {
        description: Some("second".to_string()),
        ..rule(false)
    };
    let config = TrackConfig {
        default: rule(false),
        configs: vec![
            ("feature-.*".to_string(), first),
            (".*".to_string(), second),
        ],
    };
    let selected = config.get_branch_config(Some("feature-1"));
    assert_eq!(selected.description, Some("first".to_string()));

    // The same two blocks in the opposite order select the other one.
    let flipped = TrackConfig {
        default: rule(false),
        configs: vec![
            (".*".to_string(), rule(true)),
            ("feature-.*".to_string(), rule(false)),
        ],
    };
    assert_eq!(flipped.get_branch_config(Some("feature-1")).billable, true);
}

#[test]
fn without_a_branch_the_default_applies_unconditionally() {
    let config = TrackConfig {
        default: rule(true),
        configs: vec![(".*".to_string(), rule(false))],
    };
    assert_eq!(config.get_branch_config(None).billable, true);
}

#[test]
fn an_invalid_pattern_never_matches() {
    // Such a block cannot come out of the parser, but selection stays total.
    let config = TrackConfig {
        default: rule(false),
        configs: vec![("foo(bar".to_string(), rule(true))],
    };
    assert_eq!(config.get_branch_config(Some("foobar")).billable, false);
}

#[test]
fn matching_index_reports_the_position() {
    let config = TrackConfig {
        default: rule(false),
        configs: vec![
            ("^x".to_string(), rule(false)),
            ("^y".to_string(), rule(true)),
        ],
    };
    assert_eq!(config.matching_index("y-branch"), Some(1));
    assert_eq!(config.matching_index("z-branch"), None);
}

#[test]
fn a_parsed_document_selects_by_branch() {
    let text = "\
[\"*\"]
billable = false

[\"^feature-.*\"]
billable = true
";
    let ctx = empty_context();
    let config = parse_track_config(text, &ctx).unwrap();
    assert_eq!(config.get_branch_config(Some("feature-42")).billable, true);
    assert_eq!(config.get_branch_config(Some("main")).billable, false);
}
