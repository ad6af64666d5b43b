use niri_workspaces::icon::IconCache;
use niri_workspaces::model::{Event, WindowInfo, WorkspaceInfo};
use niri_workspaces::order::display_ranks;
use niri_workspaces::snapshot::Workspace;
use niri_workspaces::state::State;
use std::cell::RefCell;

fn workspace(id: u64, idx: u8, output: Option<&str>) -> WorkspaceInfo {
    WorkspaceInfo {
        id,
        idx,
        output: output.map(|o| o.to_string()),
        is_active: false,
        is_focused: false,
    }
}

fn window(id: u64, app_id: Option<&str>, workspace_id: Option<u64>) -> WindowInfo {
    WindowInfo {
        id,
        title: Some(format!("window {}", id)),
        app_id: app_id.map(|a| a.to_string()),
        workspace_id,
    }
}

fn state_of(workspaces: Vec<WorkspaceInfo>, windows: Vec<WindowInfo>) -> State {
    let mut state = State::new();
    state.on_event(Event::WorkspacesChanged { workspaces });
    state.on_event(Event::WindowsChanged { windows });
    state
}

fn no_icon(_: &str) -> Result<Option<String>, String> {
    Ok(None)
}

fn window_ids(workspace: &Workspace) -> Vec<u64> {
    workspace.windows.iter().map(|w| w.id).collect()
}

#[test]
fn windows_are_listed_under_their_workspace_and_stray_windows_nowhere() {
    let state = state_of(
        vec![workspace(1, 1, None), workspace(2, 2, None)],
        vec![window(10, None, Some(1)), window(11, None, Some(2)), window(12, None, Some(99))],
    );
    let mut cache = IconCache::new();
    let shown = state.render(&mut cache, &no_icon);
    assert_eq!(shown.len(), 2);
    assert_eq!(shown[0].idx, 1);
    assert_eq!(window_ids(&shown[0]), vec![10]);
    assert_eq!(shown[1].idx, 2);
    assert_eq!(window_ids(&shown[1]), vec![11]);
    assert!(shown.iter().all(|ws| ws.windows.iter().all(|w| w.id != 12)));
}

#[test]
fn workspaces_are_shown_in_the_order_of_their_positions() {
    let state = state_of(vec![workspace(5, 3, None), workspace(6, 1, None), workspace(7, 2, None)], vec![
        window(1, None, Some(5)),
        window(2, None, Some(6)),
        window(3, None, Some(7)),
    ]);
    let mut cache = IconCache::new();
    let shown = state.render(&mut cache, &no_icon);
    let positions: Vec<u8> = shown.iter().map(|ws| ws.idx).collect();
    assert_eq!(positions, vec![1, 2, 3]);
    let first_windows: Vec<Vec<u64>> = shown.iter().map(window_ids).collect();
    assert_eq!(first_windows, vec![vec![2], vec![3], vec![1]]);
}

#[test]
fn display_ranks_sorts_by_position_and_keeps_ties_in_table_order() {
    let table = vec![
        workspace(1, 2, Some("A")),
        workspace(2, 1, Some("B")),
        workspace(3, 1, Some("A")),
        workspace(4, 0, Some("B")),
        workspace(5, 2, Some("B")),
    ];
    assert_eq!(display_ranks(&table), vec![(0, 3), (1, 1), (1, 2), (2, 0), (2, 4)]);
    assert_eq!(display_ranks(&Vec::new()), Vec::<(u8, usize)>::new());
}

#[test]
fn workspaces_with_one_position_are_shown_in_the_order_of_their_identifiers() {
    let state = state_of(
        vec![
            workspace(40, 1, Some("B")),
            workspace(10, 2, Some("A")),
            workspace(30, 1, Some("A")),
            workspace(20, 2, Some("B")),
        ],
        vec![],
    );
    let mut cache = IconCache::new();
    let shown = state.render(&mut cache, &no_icon);
    let seen: Vec<(u8, Option<&str>)> =
        shown.iter().map(|ws| (ws.idx, ws.output.as_deref())).collect();
    assert_eq!(seen, vec![(1, Some("A")), (1, Some("B")), (2, Some("A")), (2, Some("B"))]);
}

#[test]
fn the_windows_of_a_workspace_are_in_the_order_of_their_identifiers() {
    let state = state_of(
        vec![workspace(1, 1, None)],
        vec![
            window(30, None, Some(1)),
            window(10, None, Some(1)),
            window(20, None, None),
            window(40, None, Some(1)),
        ],
    );
    let mut cache = IconCache::new();
    let shown = state.render(&mut cache, &no_icon);
    assert_eq!(window_ids(&shown[0]), vec![10, 30, 40]);
}

#[test]
fn the_snapshot_carries_the_fields_of_workspaces_and_windows() {
    let mut state = state_of(
        vec![workspace(1, 4, Some("eDP-1"))],
        vec![WindowInfo {
            id: 8,
            title: Some("notes".to_string()),
            app_id: Some("org.notes".to_string()),
            workspace_id: Some(1),
        }],
    );
    state.on_event(Event::WorkspaceActivated { id: 1, focused: true });
    let resolver = |id: &str| -> Result<Option<String>, String> {
        Ok(Some(format!("/usr/share/icons/{}.svg", id)))
    };
    let mut cache = IconCache::new();
    let shown = state.render(&mut cache, &resolver);
    assert_eq!(shown.len(), 1);
    assert_eq!(shown[0].output.as_deref(), Some("eDP-1"));
    assert_eq!(shown[0].idx, 4);
    assert!(shown[0].is_active);
    assert_eq!(shown[0].windows.len(), 1);
    assert_eq!(shown[0].windows[0].id, 8);
    assert_eq!(shown[0].windows[0].title.as_deref(), Some("notes"));
    assert_eq!(shown[0].windows[0].icon.as_deref(), Some("/usr/share/icons/org.notes.svg"));
}

#[test]
fn a_window_without_application_has_no_icon_and_asks_for_none() {
    let asked = RefCell::new(Vec::new());
    let resolver = |id: &str| -> Result<Option<String>, String> {
        asked.borrow_mut().push(id.to_string());
        Ok(Some("/icon.png".to_string()))
    };
    let state = state_of(vec![workspace(1, 1, None)], vec![window(1, None, Some(1))]);
    let mut cache = IconCache::new();
    let shown = state.render(&mut cache, &resolver);
    assert_eq!(shown[0].windows[0].icon, None);
    assert!(asked.borrow().is_empty());
}

#[test]
fn each_application_is_looked_up_once_over_all_snapshots() {
    let asked = RefCell::new(Vec::new());
    let resolver = |id: &str| -> Result<Option<String>, String> {
        asked.borrow_mut().push(id.to_string());
        if id == "broken" {
            Err("unreadable".to_string())
        } else {
            Ok(Some(format!("/icons/{}.png", id)))
        }
    };
    let mut state = state_of(
        vec![workspace(1, 2, None), workspace(2, 1, None)],
        vec![
            window(1, Some("term"), Some(1)),
            window(2, Some("web"), Some(2)),
            window(3, Some("term"), Some(2)),
            window(4, Some("broken"), Some(1)),
            window(5, Some("stray"), Some(77)),
            window(6, Some("loose"), None),
        ],
    );
    let mut cache = IconCache::new();
    let shown = state.render(&mut cache, &resolver);
    assert_eq!(*asked.borrow(), vec!["web", "term", "broken"]);
    let icons: Vec<Vec<Option<&str>>> = shown
        .iter()
        .map(|ws| ws.windows.iter().map(|w| w.icon.as_deref()).collect())
        .collect();
    assert_eq!(
        icons,
        vec![
            vec![Some("/icons/web.png"), Some("/icons/term.png")],
            vec![Some("/icons/term.png"), None],
        ]
    );
    assert_eq!(cache.lookup("stray"), None);
    assert_eq!(cache.lookup("loose"), None);
    assert_eq!(cache.lookup("broken"), Some(&None));

    state.on_event(Event::WindowOpenedOrChanged { window: window(7, Some("mail"), Some(1)) });
    let again = state.render(&mut cache, &resolver);
    assert_eq!(*asked.borrow(), vec!["web", "term", "broken", "mail"]);
    assert_eq!(again[1].windows.len(), 3);
    assert_eq!(again[1].windows[2].icon.as_deref(), Some("/icons/mail.png"));
}

#[test]
fn an_empty_state_renders_as_an_empty_list() {
    let state = State::new();
    let mut cache = IconCache::new();
    assert!(state.render(&mut cache, &no_icon).is_empty());
    let state = state_of(vec![], vec![window(1, Some("a"), Some(1))]);
    assert!(state.render(&mut cache, &no_icon).is_empty());
    assert_eq!(cache.lookup("a"), None);
}

#[test]
fn a_workspace_without_windows_is_shown_empty() {
    let state = state_of(vec![workspace(1, 1, Some("A"))], vec![]);
    let mut cache = IconCache::new();
    let shown = state.render(&mut cache, &no_icon);
    assert_eq!(shown.len(), 1);
    assert!(shown[0].windows.is_empty());
    assert!(!shown[0].is_active);
}
