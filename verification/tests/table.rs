use niri_workspaces::model::{WindowInfo, WorkspaceInfo};
use niri_workspaces::table::{table_of, Row};

fn window(id: u64, title: &str) -> WindowInfo {
    WindowInfo { id, title: Some(title.to_string()), app_id: None, workspace_id: None }
}

fn titles(rows: &Vec<WindowInfo>) -> Vec<(u64, &str)> {
    rows.iter().map(|w| (w.id, w.title.as_deref().unwrap_or(""))).collect()
}

#[test]
fn a_record_has_its_identifier() {
    assert_eq!(window(42, "a").id(), 42);
    let workspace =
        WorkspaceInfo { id: 7, idx: 1, output: None, is_active: false, is_focused: false };
    assert_eq!(Row::id(&workspace), 7);
}

#[test]
fn a_table_of_a_list_is_ordered_and_keeps_the_later_of_two_records() {
    let rows = table_of(vec![
        window(3, "c"),
        window(1, "a"),
        window(3, "C"),
        window(2, "b"),
        window(1, "A"),
    ]);
    assert_eq!(titles(&rows), vec![(1, "A"), (2, "b"), (3, "C")]);
    assert!(table_of(Vec::<WindowInfo>::new()).is_empty());
}
