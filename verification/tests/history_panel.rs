use sub_ui::history_panel::{menu_label, HistoryAction, HistoryList, HistorySummary};

fn list() -> HistoryList {
    HistoryList::new(
        vec!["Add clip".to_owned(), "Trim clip".to_owned(), "Move clip".to_owned()],
        2,
    )
}

#[test]
fn the_menu_names_the_command_on_each_side_of_the_position() {
    let list = list();
    assert_eq!(list.undo_label(), Some("Trim clip"));
    assert_eq!(list.redo_label(), Some("Move clip"));
    assert_eq!(list.undo_menu_label(), "Undo Trim clip");
    assert_eq!(list.redo_menu_label(), "Redo Move clip");
    assert!(list.can_undo());
    assert!(list.can_redo());
    assert_eq!(list.len(), 3);
    assert!(!list.is_empty());
}

#[test]
fn an_empty_history_leaves_the_menu_entries_bare() {
    let empty = HistoryList::default();
    assert!(empty.is_empty());
    assert!(!empty.can_undo());
    assert!(!empty.can_redo());
    assert_eq!(empty.undo_label(), None);
    assert_eq!(empty.redo_label(), None);
    assert_eq!(empty.undo_menu_label(), "Undo");
    assert_eq!(empty.redo_menu_label(), "Redo");
}

#[test]
fn a_position_past_the_end_is_clamped() {
    let clamped = HistoryList::new(vec!["Add clip".to_owned()], 9);
    assert_eq!(clamped.position(), 1);
    assert!(!clamped.can_redo());
}

#[test]
fn jumping_counts_the_steps_in_the_right_direction() {
    let list = list();
    assert_eq!(
        HistoryAction::to_position(&list, 0),
        Some(HistoryAction::Undo { steps: 2 })
    );
    assert_eq!(
        HistoryAction::to_position(&list, 3),
        Some(HistoryAction::Redo { steps: 1 })
    );
    assert_eq!(HistoryAction::to_position(&list, 2), None);
    assert_eq!(HistoryAction::to_position(&list, 4), None);
    assert_eq!(HistoryAction::Undo { steps: 2 }.steps(), 2);
    assert_eq!(HistoryAction::Redo { steps: 5 }.steps(), 5);
}

#[test]
fn applied_steps_are_the_ones_before_the_position() {
    let list = list();
    assert!(list.is_applied(0));
    assert!(list.is_applied(1));
    assert!(!list.is_applied(2));
}

#[test]
fn a_menu_label_joins_the_verb_and_the_command() {
    assert_eq!(menu_label("Undo", Some("Cut")), "Undo Cut");
    assert_eq!(menu_label("Redo", None), "Redo");
}

#[test]
fn a_jump_and_its_steps_land_on_the_position_asked_for() {
    let list = list();
    for target in 0..=3usize {
        match HistoryAction::to_position(&list, target) {
            Some(HistoryAction::Undo { steps }) => assert_eq!(list.position() - steps, target),
            Some(HistoryAction::Redo { steps }) => assert_eq!(list.position() + steps, target),
            None => assert_eq!(list.position(), target),
        }
    }
}

#[test]
fn the_labels_are_kept_in_order() {
    let list = list();
    let labels: Vec<&str> = list.labels().iter().map(String::as_str).collect();
    assert_eq!(labels, ["Add clip", "Trim clip", "Move clip"]);
}

#[test]
fn a_summary_names_the_steps_beside_the_cursor_and_calls_the_rest_generic() {
    let summary = HistorySummary {
        undo_len: 2,
        redo_len: 2,
        undo_label: Some("Trim clip".to_owned()),
        redo_label: Some("Move clip".to_owned()),
    };
    let list = HistoryList::from_summary(&summary);
    let labels: Vec<&str> = list.labels().iter().map(String::as_str).collect();
    assert_eq!(labels, ["Earlier edit", "Trim clip", "Move clip", "Later edit"]);
    assert_eq!(list.position(), 2);
}

#[test]
fn the_stacks_of_a_history_become_one_list_with_the_undo_steps_applied() {
    let list = HistoryList::from_stacks(
        vec!["Add clip".to_owned(), "Trim clip".to_owned()],
        vec!["Move clip".to_owned()],
    );
    assert_eq!(list.labels(), ["Add clip", "Trim clip", "Move clip"]);
    assert_eq!(list.position(), 2);
    assert_eq!(list.undo_label(), Some("Trim clip"));
    assert_eq!(list.redo_label(), Some("Move clip"));
    let fresh = HistoryList::from_stacks(Vec::new(), Vec::new());
    assert!(fresh.is_empty());
    assert!(!fresh.can_undo());
}
