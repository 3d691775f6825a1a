use toggl_cli::colors::closest_terminal_color;
use toggl_cli::models::{entities_from_network, NetworkProject};
use toggl_cli::picker::{find_picked, format_as_fzf_input};
use toggl_cli::{NetworkClient, NetworkTask, NetworkWorkspace, PickableItem, PickableItemId, PickableItemKind};

fn network_project(id: i64, name: &str, client_id: Option<i64>) -> NetworkProject {
    NetworkProject {
        id,
        name: name.to_string(),
        workspace_id: 1,
        client_id,
        is_private: false,
        active: true,
        color: "#aabbcc".to_string(),
        billable: Some(true),
    }
}

#[test]
fn the_snapshot_joins_clients_into_projects_and_projects_into_tasks() {
    let clients = vec![NetworkClient {
        id: 3,
        name: "ACME".to_string(),
        wid: 1,
    }];
    let projects = vec![
        network_project(10, "Alpha", Some(3)),
        network_project(20, "Beta", None),
    ];
    let tasks = vec![NetworkTask {
        id: 100,
        name: "Development".to_string(),
        workspace_id: 1,
        project_id: 20,
    }];
    let workspaces = vec![NetworkWorkspace {
        id: 1,
        name: "Main".to_string(),
        admin: false,
    }];
    let entities = entities_from_network(&clients, &projects, &tasks, &workspaces);

    assert_eq!(entities.clients.len(), 1);
    assert_eq!(entities.clients[0].workspace_id, 1);

    assert_eq!(entities.projects.len(), 2);
    assert_eq!(entities.projects[0].client.as_ref().unwrap().name, "ACME".to_string());
    assert!(entities.projects[1].client.is_none());

    assert_eq!(entities.tasks.len(), 1);
    assert_eq!(entities.tasks[0].project.id, 20);
    assert_eq!(entities.tasks[0].project.name, "Beta".to_string());

    assert_eq!(entities.workspaces.len(), 1);
    assert_eq!(entities.workspaces[0].name, "Main".to_string());
}

#[test]
fn a_dangling_client_reference_leaves_the_project_clientless() {
    let projects = vec![network_project(10, "Alpha", Some(99))];
    let entities = entities_from_network(&Vec::new(), &projects, &Vec::new(), &Vec::new());
    assert!(entities.projects[0].client.is_none());
}

#[test]
fn exact_palette_colors_map_to_themselves() {
    assert_eq!(closest_terminal_color(0, 0, 0), 0);
    assert_eq!(closest_terminal_color(205, 0, 0), 1);
    assert_eq!(closest_terminal_color(255, 255, 255), 15);
}

#[test]
fn nearby_colors_map_to_the_nearest_entry() {
    // Nearly pure red is closer to the normal red than to the bright one.
    assert_eq!(closest_terminal_color(210, 10, 10), 1);
    // A middle gray lands on the bright-black gray.
    assert_eq!(closest_terminal_color(120, 120, 120), 8);
    // A tie is impossible here, but an equidistant color takes the earlier
    // entry: halfway between the two reds.
    assert_eq!(closest_terminal_color(230, 0, 0), 1);
}

fn item(id: i64, text: &str) -> PickableItem {
    PickableItem::new(
        PickableItemId {
            id,
            kind: PickableItemKind::Project,
        },
        text.to_string(),
    )
}

#[test]
fn picker_input_is_one_line_per_item() {
    let items = vec![item(1, "first"), item(2, "second")];
    assert_eq!(format_as_fzf_input(&items), "first\nsecond\n".to_string());
    assert_eq!(format_as_fzf_input(&Vec::new()), "".to_string());
}

#[test]
fn a_picked_line_resolves_to_the_first_item_showing_it() {
    let items = vec![item(1, "a"), item(2, "b"), item(3, "b")];
    assert_eq!(find_picked(&items, "b").unwrap().id, 2);
    assert!(find_picked(&items, "c").is_none());
}
