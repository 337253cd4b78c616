use sub_ui::fade::{clamped_fade, fade_length, plan_fade, ClipSpan, FadeEdge, FadeRefusal, TrackClips};
use sub_ui::problem::CLIP_FADE_REFUSED;

/// One unlocked track holding one clip of 48 frames with no fades.
fn scene() -> Vec<TrackClips> {
    vec![TrackClips {
        id: 1,
        locked: false,
        clips: vec![ClipSpan { clip: 7, start: 24, length: 48, fade_in: 0, fade_out: 0 }],
    }]
}

#[test]
fn dragging_the_head_handle_right_lengthens_the_fade_in() {
    let edit = plan_fade(&scene(), 1, 7, FadeEdge::In, 12)
        .expect("the drag is legal")
        .expect("the drag is an edit");
    assert_eq!(edit.duration, 12);
    assert_eq!(edit.edge, FadeEdge::In);
    assert_eq!(edit.label(), "Change fade in");
}

#[test]
fn dragging_the_tail_handle_left_lengthens_the_fade_out() {
    let edit = plan_fade(&scene(), 1, 7, FadeEdge::Out, -8)
        .expect("the drag is legal")
        .expect("the drag is an edit");
    assert_eq!(edit.duration, 8);
    assert_eq!(edit.edge, FadeEdge::Out);
}

#[test]
fn a_fade_is_clamped_to_the_clip_and_never_goes_negative() {
    let long = plan_fade(&scene(), 1, 7, FadeEdge::In, 600)
        .expect("the drag is legal")
        .expect("the drag is an edit");
    assert_eq!(long.duration, 48, "the fade stops at the clip's end");
    let short = plan_fade(&scene(), 1, 7, FadeEdge::In, -600).expect("the drag is legal");
    assert!(short.is_none(), "a fade already at zero cannot be shortened");
}

#[test]
fn a_fade_leaves_room_for_the_one_at_the_other_end() {
    let mut tracks = scene();
    tracks[0].clips[0].fade_out = 30;
    let edit = plan_fade(&tracks, 1, 7, FadeEdge::In, 48)
        .expect("the drag is legal")
        .expect("the drag is an edit");
    assert_eq!(edit.duration, 18, "the head fade stops where the tail fade starts");
}

#[test]
fn a_locked_track_refuses_the_drag() {
    let mut tracks = scene();
    tracks[0].locked = true;
    let refusal = plan_fade(&tracks, 1, 7, FadeEdge::In, 12).expect_err("a locked track refuses");
    assert_eq!(refusal, FadeRefusal::LockedTrack);
    assert_eq!(refusal.id(), "locked_track");
    let problem = refusal.to_problem();
    assert_eq!(problem.code, CLIP_FADE_REFUSED);
    assert_eq!(problem.details, vec![("reason".to_owned(), "locked_track".to_owned())]);
}

#[test]
fn a_clip_that_has_left_the_sequence_refuses_the_drag() {
    let mut tracks = scene();
    tracks[0].clips.clear();
    assert_eq!(
        plan_fade(&tracks, 1, 7, FadeEdge::In, 12).expect_err("no clip"),
        FadeRefusal::UnknownClip
    );
    assert_eq!(plan_fade(&scene(), 9, 7, FadeEdge::In, 12).expect_err("no track"), FadeRefusal::UnknownClip);
}

#[test]
fn a_drag_that_changes_nothing_is_no_edit() {
    assert_eq!(plan_fade(&scene(), 1, 7, FadeEdge::Out, 5), Ok(None));
}

#[test]
fn overflowing_arithmetic_is_refused() {
    assert_eq!(fade_length(i64::MAX, 0, 48, FadeEdge::In, 1), Err(FadeRefusal::OutOfRange));
    assert_eq!(fade_length(0, i64::MIN, i64::MAX, FadeEdge::In, 1), Err(FadeRefusal::OutOfRange));
    assert_eq!(FadeRefusal::OutOfRange.message(), "the fade is too long to represent");
}

#[test]
fn the_inspector_clamp_keeps_a_fade_inside_what_is_left() {
    assert_eq!(clamped_fade(30, 48, 10), 30);
    assert_eq!(clamped_fade(60, 48, 10), 38);
    assert_eq!(clamped_fade(-4, 48, 10), 0);
    assert_eq!(clamped_fade(5, 10, 20), 0);
}

#[test]
fn each_handle_names_the_other() {
    assert_eq!(FadeEdge::In.other(), FadeEdge::Out);
    assert_eq!(FadeEdge::Out.other(), FadeEdge::In);
    assert_eq!(FadeEdge::Out.id(), "out");
    assert_eq!(FadeEdge::Out.undo_label(), "Change fade out");
}
