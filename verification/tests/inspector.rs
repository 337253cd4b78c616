use sub_ui::fade::clamped_fade;
use sub_ui::inspector::{
    bool_of, choice_of, effect_moves, int_of, EffectEdit, EffectValue, InspectorField,
    InspectorPanel, InspectorResponse, ParamKey, WidgetSignals,
};

fn signals(changed: bool, dragged: bool, drag_started: bool, drag_stopped: bool) -> WidgetSignals {
    WidgetSignals { changed, dragged, drag_started, drag_stopped, lost_focus: false }
}

#[test]
fn a_fade_is_clamped_to_what_is_left_of_the_clip() {
    // The clip is 48 frames long, so a 240 frame fade cannot fit.
    assert_eq!(clamped_fade(240, 48, 0), 48, "the fade is cut to the clip");
    assert_eq!(clamped_fade(240, 48, 12), 36, "and leaves room for the other end");
    assert_eq!(clamped_fade(-5, 48, 0), 0);
}

#[test]
fn an_empty_response_asks_for_nothing() {
    assert!(InspectorResponse::<u8>::new().is_empty());
}

#[test]
fn a_response_carrying_only_an_effect_edit_is_not_empty() {
    let mut response = InspectorResponse::<u8>::new();
    response.effects.push(EffectEdit::Add { plugin: "com.example.grade".to_owned() });
    assert!(!response.is_empty());
}

#[test]
fn a_raised_effect_edit_is_its_own_history_entry() {
    let mut response = InspectorResponse::<u8>::new();
    response.raise(EffectEdit::Remove { effect: 4 });
    assert_eq!(response.begin.as_deref(), Some("Remove effect"));
    assert!(response.commit);
    assert_eq!(response.effects.len(), 1);
}

#[test]
fn a_parameter_takes_the_plugins_default_until_the_effect_binds_one() {
    assert_eq!(int_of(None, 4), 4);
    assert!(bool_of(None, true));
    assert_eq!(int_of(Some(EffectValue::Int(9)), 4), 9);
    assert!(!bool_of(Some(EffectValue::Bool(false)), true));
}

#[test]
fn a_bound_value_of_the_wrong_shape_falls_back_to_the_declaration() {
    let bound = Some(EffectValue::Choice(7));
    assert_eq!(choice_of(bound, 1, 3), 1, "an index the declaration no longer holds falls back");
    assert_eq!(int_of(bound, 5), 5);
    assert!(bool_of(bound, true));
    assert_eq!(choice_of(bound, 1, 8), 7, "one it holds is kept");
}

#[test]
fn every_effect_edit_names_the_history_entry_it_makes() {
    assert_eq!(EffectEdit::Add { plugin: "com.example.grade".to_owned() }.undo_label(), "Add effect");
    assert_eq!(EffectEdit::Move { effect: 1, to: 0 }.undo_label(), "Reorder effect");
    assert_eq!(EffectEdit::Remove { effect: 1 }.undo_label(), "Remove effect");
    assert_eq!(
        EffectEdit::SetParam { effect: 1, param: "exposure".to_owned(), value: EffectValue::Int(1) }.undo_label(),
        "Change effect parameter"
    );
}

#[test]
fn a_drag_is_one_gesture_from_first_change_to_release() {
    let mut panel = InspectorPanel::new();
    let first = panel.field_step(InspectorField::Opacity, signals(true, true, true, false));
    assert_eq!(first.begin, Some(InspectorField::Opacity.undo_label()));
    assert!(first.raise);
    assert!(!first.commit);
    assert_eq!(panel.gesture(), Some(InspectorField::Opacity));

    let middle = panel.field_step(InspectorField::Opacity, signals(true, true, false, false));
    assert_eq!(middle.begin, None);
    assert!(middle.raise);
    assert!(!middle.commit);

    let last = panel.field_step(InspectorField::Opacity, signals(false, false, false, true));
    assert!(!last.raise);
    assert!(last.commit);
    assert_eq!(panel.gesture(), None);
}

#[test]
fn a_typed_value_opens_and_commits_in_one_frame() {
    let mut panel = InspectorPanel::new();
    let step = panel.field_step(InspectorField::Gain, signals(true, false, false, false));
    assert!(step.begin.is_some());
    assert!(step.commit);
    assert_eq!(panel.gesture(), None);
}

#[test]
fn an_effect_parameter_waits_while_a_field_gesture_is_open() {
    let mut panel = InspectorPanel::new();
    panel.field_step(InspectorField::Opacity, signals(true, true, true, false));
    let key = ParamKey { effect: 1, param: "exposure".to_owned(), channel: None };
    let step = panel.param_step(key, signals(true, true, true, false));
    assert_eq!(step.begin, None);
    assert!(!panel.editing_effect_param());
    panel.forget();
    assert_eq!(panel.gesture(), None);

    let key = ParamKey { effect: 1, param: "exposure".to_owned(), channel: None };
    let step = panel.param_step(key, signals(true, true, true, false));
    assert!(step.begin.is_some());
    assert!(panel.editing_effect_param());
    let key = ParamKey { effect: 1, param: "exposure".to_owned(), channel: None };
    let step = panel.param_step(key, signals(false, false, false, true));
    assert!(step.commit);
    assert!(!panel.editing_effect_param());
}

#[test]
fn the_move_buttons_stop_at_the_ends_of_the_stack() {
    assert_eq!(effect_moves(0, 3), (None, Some(1)));
    assert_eq!(effect_moves(1, 3), (Some(0), Some(2)));
    assert_eq!(effect_moves(2, 3), (Some(1), None));
    assert_eq!(effect_moves(0, 1), (None, None));
}

#[test]
fn every_field_has_a_label_and_an_undo_label() {
    let fields = InspectorField::all();
    assert_eq!(fields.len(), 9);
    for field in fields {
        assert!(!field.label().is_empty());
        assert!(!field.undo_label().is_empty());
    }
}
