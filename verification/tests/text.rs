use niri_workspaces::text::{clone_text, same_text};

#[test]
fn a_copy_of_a_text_holds_the_same_characters() {
    assert_eq!(clone_text(&Some("eDP-1".to_string())), Some("eDP-1".to_string()));
    assert_eq!(clone_text(&Some(String::new())), Some(String::new()));
    assert_eq!(clone_text(&None), None);
}

#[test]
fn texts_are_the_same_when_both_are_absent_or_hold_the_same_characters() {
    let a = Some("A".to_string());
    let b = Some("B".to_string());
    let empty = Some(String::new());
    assert!(same_text(&a, &Some("A".to_string())));
    assert!(same_text(&None, &None));
    assert!(same_text(&empty, &Some(String::new())));
    assert!(!same_text(&a, &b));
    assert!(!same_text(&a, &None));
    assert!(!same_text(&None, &a));
    assert!(!same_text(&empty, &None));
    assert!(!same_text(&a, &Some("a".to_string())));
}
