use toggl_cli::error::ConfigError;
use toggl_cli::locate::{
    config_candidates, encoded_config_name, get_config_path_for_current_dir,
    get_encoded_config_path, global_config_file_name, locate_config_path, locate_tracked_path,
};
use toggl_cli::paths::{main_repo_name, worktree_gitdir_target};
use toggl_cli::DirPath;

fn dir(components: &[&str]) -> DirPath {
    DirPath {
        components: components.iter().map(|c| c.to_string()).collect(),
    }
}

#[test]
fn encoding_is_the_base64_of_the_path_text() {
    // "/a/b" in standard base64 with padding.
    assert_eq!(encoded_config_name(&dir(&["a", "b"])), "L2EvYg==.toml".to_string());
    // The filesystem root encodes "/".
    assert_eq!(encoded_config_name(&dir(&[])), "Lw==.toml".to_string());
}

#[test]
fn equal_paths_encode_to_equal_names() {
    let a = encoded_config_name(&dir(&["home", "user", "proj"]));
    let b = encoded_config_name(&dir(&["home", "user", "proj"]));
    let c = encoded_config_name(&dir(&["home", "user", "other"]));
    assert_eq!(a, b);
    assert_ne!(a, c);
}

#[test]
fn candidates_walk_from_the_directory_to_the_root() {
    let cwd = dir(&["a", "b"]);
    let names = config_candidates(&cwd);
    assert_eq!(
        names,
        vec![
            encoded_config_name(&dir(&["a", "b"])),
            encoded_config_name(&dir(&["a"])),
            encoded_config_name(&dir(&[])),
        ]
    );
}

#[test]
fn the_nearest_ancestor_with_a_file_wins() {
    let root = dir(&["cfg"]);
    let cwd = dir(&["a", "b", "c"]);
    // Present at /a/b (one level up) and at /a (two levels up).
    let present = vec![false, true, true, false];
    let located = locate_config_path(&root, &cwd, &present, false).unwrap();
    assert_eq!(
        located.file.components,
        get_encoded_config_path(&root, &dir(&["a", "b"])).components
    );
    assert_eq!(
        located.tracked_root.unwrap().components,
        dir(&["a", "b"]).components
    );

    let found_dir = locate_tracked_path(&cwd, &present).unwrap();
    assert_eq!(found_dir.components, dir(&["a", "b"]).components);
}

#[test]
fn a_file_at_the_starting_directory_wins_immediately() {
    let root = dir(&["cfg"]);
    let cwd = dir(&["a", "b"]);
    let present = vec![true, true, true];
    let located = locate_config_path(&root, &cwd, &present, true).unwrap();
    assert_eq!(
        located.file.components,
        get_encoded_config_path(&root, &cwd).components
    );
}

#[test]
fn without_any_file_the_global_fallback_is_used() {
    let root = dir(&["cfg"]);
    let cwd = dir(&["a"]);
    let located = locate_config_path(&root, &cwd, &vec![false, false], true).unwrap();
    assert_eq!(
        located.file.components,
        vec!["cfg".to_string(), global_config_file_name()]
    );
    assert!(located.tracked_root.is_none());
}

#[test]
fn without_any_file_nor_a_global_one_the_search_fails() {
    let root = dir(&["cfg"]);
    let cwd = dir(&["a"]);
    let r = locate_config_path(&root, &cwd, &vec![false, false], false);
    assert!(matches!(r, Err(ConfigError::FileNotFound)));
    let t = locate_tracked_path(&cwd, &vec![false, false]);
    assert!(matches!(t, Err(ConfigError::FileNotFound)));
}

#[test]
fn the_current_directory_path_is_computed_without_existence_checks() {
    let root = dir(&["cfg"]);
    let cwd = dir(&["a", "b"]);
    let p = get_config_path_for_current_dir(&root, &cwd);
    assert_eq!(
        p.components,
        vec!["cfg".to_string(), "L2EvYg==.toml".to_string()]
    );
}

#[test]
fn path_helpers_read_names_and_parents() {
    let p = dir(&["home", "user"]);
    assert_eq!(p.to_path_string(), "/home/user".to_string());
    assert_eq!(dir(&[]).to_path_string(), "/".to_string());
    assert_eq!(p.name(), Some("user".to_string()));
    assert_eq!(p.parent().unwrap().components, vec!["home".to_string()]);
    assert!(dir(&[]).parent().is_none());
}

#[test]
fn a_worktree_pointer_resolves_to_the_main_repository_name() {
    let content = "gitdir: /home/user/repo/.git/worktrees/fix";
    let target = worktree_gitdir_target(content).unwrap();
    assert_eq!(target, "/home/user/repo/.git/worktrees/fix".to_string());
    // The administrative directory lies three levels below the repository.
    let gitdir = dir(&["home", "user", "repo", ".git", "worktrees", "fix"]);
    assert_eq!(main_repo_name(&gitdir), Some("repo".to_string()));
    assert_eq!(main_repo_name(&dir(&["a", "b"])), None);
    assert!(worktree_gitdir_target("no separator here").is_none());
}
