use sub_ui::markers::{marker_color, moved_range, palette_color, Marker, MarkerAction, MarkerState, PALETTE_LEN};

fn point(id: u128, at: i64) -> Marker {
    Marker { id, name: "cue".to_owned(), start: at, duration: 0 }
}

#[test]
fn a_markers_colour_is_stable_and_spread_over_the_palette() {
    let id: u128 = 0x0191_2f3e_8a7b_7c00_8d11_2233_4455_66a7;
    assert_eq!(marker_color(id), marker_color(id), "the same every frame");
    let palette: Vec<_> = (0..PALETTE_LEN).map(palette_color).collect();
    assert!(palette.contains(&marker_color(id)));

    // Identities minted in one session share their leading bits; the low
    // byte still spreads them over the whole palette.
    let mut seen = Vec::new();
    for low in 0u128..256 {
        let color = marker_color((id & !0xff) | low);
        if !seen.contains(&color) {
            seen.push(color);
        }
    }
    assert_eq!(seen.len(), PALETTE_LEN, "256 markers should reach every swatch");
    assert_eq!(marker_color(7), palette_color(1));
    assert_eq!(marker_color(0x100), palette_color(0));
}

#[test]
fn dragging_a_span_marker_keeps_its_duration() {
    let span = Marker { id: 1, name: "review".to_owned(), start: 24, duration: 48 };
    let moved = moved_range(&span, 96);
    assert_eq!(moved.0, 96);
    assert_eq!(moved.1, 48, "the note is not stretched");

    let cue = point(2, 24);
    assert_eq!(moved_range(&cue, 96), (96, 0));
    // A span pushed past the end of time collapses to a point.
    assert_eq!(moved_range(&span, i64::MAX - 10), (i64::MAX - 10, 0));
}

#[test]
fn a_drag_that_ends_where_it_began_is_not_an_edit() {
    let id: u128 = 42;
    let markers = vec![point(id, 24)];

    let mut state = MarkerState::new();
    state.begin_drag(id, 24);
    assert_eq!(state.dragging(), Some(id));
    assert_eq!(state.selected(), Some(id), "grabbing one selects it");
    state.drag_to(24);
    assert!(state.end_drag(&markers).is_none());

    state.begin_drag(id, 24);
    state.drag_to(72);
    assert_eq!(state.drag_time(), Some(72));
    match state.end_drag(&markers) {
        Some(MarkerAction::Move { marker, start, duration }) => {
            assert_eq!(marker, id);
            assert_eq!(start, 72);
            assert_eq!(duration, 0);
        }
        _ => panic!("the drag moves the marker"),
    }
    assert_eq!(state.dragging(), None, "the drag is over");
}

#[test]
fn a_drag_of_a_marker_the_sequence_lost_moves_nothing() {
    let mut state = MarkerState::new();
    state.begin_drag(9, 0);
    state.drag_to(10);
    assert!(state.end_drag(&[point(1, 0)]).is_none());
    state.begin_drag(9, 0);
    state.drag_to(10);
    state.cancel_drag();
    assert_eq!(state.dragging(), None);
    assert!(state.end_drag(&[point(9, 0)]).is_none());
}

#[test]
fn a_rename_commits_only_a_new_non_empty_name() {
    let id: u128 = 5;
    let mut state = MarkerState::new();

    state.begin_rename(id, "cue".to_owned());
    assert_eq!(state.renaming(), Some(id));
    assert_eq!(state.rename_text(), Some("cue"));
    assert!(state.rename_is_fresh());
    assert!(state.commit_rename("cue").is_none(), "unchanged is no edit");

    state.begin_rename(id, "cue".to_owned());
    state.set_rename_text("   ".to_owned());
    assert!(state.commit_rename("cue").is_none(), "empty is no edit");

    state.begin_rename(id, "cue".to_owned());
    state.rename_focused();
    assert!(!state.rename_is_fresh());
    state.set_rename_text("  reshoot ".to_owned());
    match state.commit_rename("cue") {
        Some(MarkerAction::Rename { marker, name }) => {
            assert_eq!(marker, id);
            assert_eq!(name, "reshoot");
        }
        _ => panic!("a new name is a rename"),
    }
    assert_eq!(state.renaming(), None);

    state.begin_rename(id, "cue".to_owned());
    state.cancel_rename();
    assert_eq!(state.renaming(), None);
}

#[test]
fn delete_removes_the_selection_but_not_while_a_name_is_being_typed() {
    let id: u128 = 11;
    let mut state = MarkerState::new();
    assert!(state.remove_selected().is_none(), "nothing is selected");

    state.select(Some(id));
    state.begin_rename(id, "cue".to_owned());
    assert!(state.remove_selected().is_none(), "Delete belongs to the text editor while one is open");

    state.cancel_rename();
    match state.remove_selected() {
        Some(MarkerAction::Remove { marker }) => assert_eq!(marker, id),
        _ => panic!("the selection is removed"),
    }
    assert_eq!(state.selected(), None, "and the selection goes with it");
}

#[test]
fn state_naming_a_marker_the_sequence_lost_is_dropped() {
    let id: u128 = 3;
    let mut state = MarkerState::new();
    state.begin_drag(id, 0);
    state.begin_rename(id, "cue".to_owned());

    state.retain(&[]);
    assert_eq!(state.selected(), None);
    assert_eq!(state.dragging(), None);
    assert_eq!(state.renaming(), None);

    state.begin_drag(id, 0);
    state.retain(&[id]);
    assert_eq!(state.dragging(), Some(id), "a marker still there keeps its drag");
}

#[test]
fn every_action_becomes_one_command() {
    let id: u128 = 77;
    let actions = [
        MarkerAction::add_at(id, 24, "Marker".to_owned()),
        MarkerAction::Move { marker: id, start: 48, duration: 0 },
        MarkerAction::Rename { marker: id, name: "reshoot".to_owned() },
        MarkerAction::Remove { marker: id },
    ];
    for action in &actions {
        assert_eq!(action.marker(), id, "every action names the same marker");
    }
    match &actions[0] {
        MarkerAction::Add { marker } => {
            assert_eq!(marker.start, 24);
            assert_eq!(marker.duration, 0);
            assert_eq!(marker.name, "Marker");
        }
        _ => panic!("the first is an add"),
    }
}
