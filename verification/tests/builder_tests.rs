use toggl_cli::builder::{build_default_entry, picked_project_and_task};
use toggl_cli::{
    BranchConfig, Entities, PickableItemId, PickableItemKind, Project, Task, TrackConfig,
    Workspace,
};

fn project(id: i64, name: &str) -> Project {
    Project {
        id,
        name: name.to_string(),
        workspace_id: 1,
        client: None,
        is_private: false,
        active: true,
        color: "#000000".to_string(),
        billable: None,
    }
}

fn task(id: i64, name: &str, owner: Project) -> Task {
    Task {
        id,
        name: name.to_string(),
        workspace_id: 1,
        project: owner,
    }
}

fn entities() -> Entities {
    Entities {
        projects: vec![project(10, "Alpha"), project(20, "Beta")],
        tasks: vec![
            task(100, "Development", project(20, "Beta")),
            task(101, "Development", project(10, "Alpha")),
            task(102, "Review", project(10, "Alpha")),
        ],
        clients: Vec::new(),
        workspaces: vec![Workspace {
            id: 7,
            name: "Main".to_string(),
            admin: true,
        }],
    }
}

fn rule() -> BranchConfig {
    BranchConfig {
        workspace: None,
        description: None,
        project: None,
        task: None,
        tags: None,
        billable: false,
    }
}

#[test]
fn a_task_owned_by_another_project_stays_absent() {
    // "Development" exists, but the first task of that name belongs to Beta;
    // the rule names Alpha, so only Alpha's task may be taken.
    let config = BranchConfig {
        project: Some("Alpha".to_string()),
        task: Some("Development".to_string()),
        ..rule()
    };
    let entry = build_default_entry(&config, &entities(), 7);
    assert_eq!(entry.project.as_ref().unwrap().id, 10);
    assert_eq!(entry.task.as_ref().unwrap().id, 101);
    assert_eq!(entry.task.unwrap().project.id, 10);

    // A task name that only a different project owns resolves to nothing.
    let mismatched = BranchConfig {
        project: Some("Alpha".to_string()),
        task: Some("OnlyBeta".to_string()),
        ..rule()
    };
    let only_beta = Entities {
        tasks: vec![task(200, "OnlyBeta", project(20, "Beta"))],
        ..entities()
    };
    let entry = build_default_entry(&mismatched, &only_beta, 7);
    assert_eq!(entry.project.as_ref().unwrap().id, 10);
    assert!(entry.task.is_none());
}

#[test]
fn a_task_without_a_resolved_project_stays_absent() {
    let config = BranchConfig {
        task: Some("Development".to_string()),
        ..rule()
    };
    let entry = build_default_entry(&config, &entities(), 7);
    assert!(entry.project.is_none());
    assert!(entry.task.is_none());
}

#[test]
fn names_resolve_and_plain_fields_copy_through() {
    let config = BranchConfig {
        workspace: Some("Main".to_string()),
        description: Some("working".to_string()),
        project: Some("Beta".to_string()),
        task: Some("Development".to_string()),
        tags: Some(vec!["t1".to_string(), "t2".to_string()]),
        billable: true,
    };
    let entry = build_default_entry(&config, &entities(), 99);
    assert_eq!(entry.workspace_id, 7);
    assert_eq!(entry.description, "working".to_string());
    assert_eq!(entry.project.as_ref().unwrap().id, 20);
    assert_eq!(entry.task.as_ref().unwrap().id, 100);
    assert_eq!(entry.tags, vec!["t1".to_string(), "t2".to_string()]);
    assert_eq!(entry.billable, true);
}

#[test]
fn missing_names_degrade_to_the_fallbacks() {
    let entry = build_default_entry(&rule(), &entities(), 42);
    assert_eq!(entry.workspace_id, 42);
    assert_eq!(entry.description, "".to_string());
    assert!(entry.project.is_none());
    assert!(entry.task.is_none());
    assert!(entry.tags.is_empty());
    assert_eq!(entry.billable, false);

    let unknown = BranchConfig {
        workspace: Some("Nowhere".to_string()),
        project: Some("Gamma".to_string()),
        ..rule()
    };
    let entry = build_default_entry(&unknown, &entities(), 42);
    assert_eq!(entry.workspace_id, 42);
    assert!(entry.project.is_none());
}

#[test]
fn the_selected_rule_feeds_the_entry() {
    let config = TrackConfig {
        default: rule(),
        configs: vec![(
            "^feature-.*".to_string(),
            BranchConfig {
                project: Some("Alpha".to_string()),
                billable: true,
                ..rule()
            },
        )],
    };
    let entry = config.get_default_entry(Some("feature-9"), &entities(), 7);
    assert_eq!(entry.project.unwrap().id, 10);
    assert_eq!(entry.billable, true);
    let entry = config.get_default_entry(Some("main"), &entities(), 7);
    assert!(entry.project.is_none());
    assert_eq!(entry.billable, false);
}

#[test]
fn a_picked_identity_selects_project_and_task_consistently() {
    let es = entities();
    let (p, t) = picked_project_and_task(
        &es,
        PickableItemId { id: 20, kind: PickableItemKind::Project },
    );
    assert_eq!(p.unwrap().id, 20);
    assert!(t.is_none());

    let (p, t) = picked_project_and_task(
        &es,
        PickableItemId { id: 100, kind: PickableItemKind::Task },
    );
    assert_eq!(p.unwrap().id, 20);
    assert_eq!(t.unwrap().id, 100);

    let (p, t) = picked_project_and_task(
        &es,
        PickableItemId { id: 1, kind: PickableItemKind::TimeEntry },
    );
    assert!(p.is_none());
    assert!(t.is_none());

    let (p, t) = picked_project_and_task(
        &es,
        PickableItemId { id: 999, kind: PickableItemKind::Task },
    );
    assert!(p.is_none());
    assert!(t.is_none());
}
