use sub_ui::app::{RunLimits, BinProblems, MAX_BIN_PROBLEMS, canvas_label, painted_message, ready_line, unattended_close_reason, windows_are_up, CloseReason, ReadyReport, edit_mode_for, grain_nanos, is_yes, parse_count, CommandApiState, EditMode, LaunchSettings, ProjectState, UI_SMOKE_READY};
use sub_ui::keymap::Action;

#[test]
fn the_ready_line_reports_the_project() {
    assert_eq!(UI_SMOKE_READY, "ui-smoke ready");
    assert_eq!(ProjectState::Loaded.label(), "loaded");
    assert_eq!(ProjectState::Failed.label(), "failed");
    assert_eq!(ProjectState::Unrequested.label(), "none");
}

#[test]
fn yes_is_spelled_four_ways_in_any_case() {
    for value in ["1", "true", "YES", " on ", "True"] {
        assert!(is_yes(value), "{value:?}");
    }
    for value in ["", "0", "no", "off", "yess", "o n"] {
        assert!(!is_yes(value), "{value:?}");
    }
}

#[test]
fn only_the_two_bin_actions_ask_for_an_edit() {
    assert_eq!(edit_mode_for(Action::InsertAtPlayhead), Some(EditMode::Insert));
    assert_eq!(edit_mode_for(Action::OverwriteAtPlayhead), Some(EditMode::Overwrite));
    assert_eq!(edit_mode_for(Action::Undo), None);
    assert_eq!(edit_mode_for(Action::AddMarker), None);
}

#[test]
fn a_grain_becomes_nanoseconds_and_saturates() {
    assert_eq!(grain_nanos(1, 25), 40_000_000);
    assert_eq!(grain_nanos(0, 25), 0);
    assert_eq!(grain_nanos(3, 0), 0);
    assert_eq!(grain_nanos(-1, 25), 0);
    assert_eq!(grain_nanos(i64::MAX, 1), i64::MAX as u64);
}

#[test]
fn the_command_api_label_names_its_state() {
    assert_eq!(CommandApiState::Off.label(), "off");
    assert_eq!(CommandApiState::Starting.label(), "starting");
    assert_eq!(CommandApiState::Listening("unix:/tmp/sub.sock".to_owned()).label(), "unix:/tmp/sub.sock");
    assert_eq!(CommandApiState::Refused { code: "command.busy".to_owned(), message: "taken".to_owned() }.label(), "refused:command.busy");
    assert!(!CommandApiState::Starting.settled());
    assert!(CommandApiState::Off.settled());
}

#[test]
fn the_status_line_says_what_the_agent_surface_is_doing() {
    assert_eq!(
        CommandApiState::Listening("unix:/run/sub.sock".to_owned()).status_line(),
        "Command API listening on unix:/run/sub.sock"
    );
    assert_eq!(
        CommandApiState::Refused { code: "command.busy".to_owned(), message: "another editor holds it".to_owned() }
            .status_line(),
        "Command API not served: another editor holds it"
    );
    assert_eq!(CommandApiState::Starting.status_line(), "Command API starting");
    assert_eq!(CommandApiState::Off.status_line(), "Command API not served");
}

#[test]
fn a_frame_count_reads_as_str_parse_does() {
    assert_eq!(parse_count("3"), Some(3));
    assert_eq!(parse_count(" 12 \n"), Some(12));
    assert_eq!(parse_count("+7"), Some(7));
    assert_eq!(parse_count("4294967295"), Some(u32::MAX));
    assert_eq!(parse_count("4294967296"), None);
    assert_eq!(parse_count(""), None);
    assert_eq!(parse_count("+"), None);
    assert_eq!(parse_count("-1"), None);
    assert_eq!(parse_count("1 2"), None);
    assert_eq!(parse_count("ten"), None);
    for value in ["0", "017", "99999", " +5 ", "x", "++1"] {
        assert_eq!(parse_count(value), value.trim().parse::<u32>().ok(), "{value:?}");
    }
}

#[test]
fn a_launch_serves_the_command_api_unless_told_not_to() {
    let plain = LaunchSettings::from_vars(None, None, None, None);
    assert_eq!(plain.smoke_frames, None, "a normal run waits for the user");
    assert!(plain.serve_command_api);
    assert_eq!(plain.instance, None);
    assert_eq!(plain.endpoint_dir, None);

    let ci = LaunchSettings::from_vars(Some(" 3 "), Some("YES"), Some(""), Some("/run/sub"));
    assert_eq!(ci.smoke_frames, Some(3));
    assert!(!ci.serve_command_api);
    assert_eq!(ci.instance, None, "an empty name is no name");
    assert_eq!(ci.endpoint_dir.as_deref(), Some("/run/sub"));

    let odd = LaunchSettings::from_vars(Some("soon"), Some("nope"), Some("review"), None);
    assert_eq!(odd.smoke_frames, None, "an unreadable count runs normally");
    assert!(odd.serve_command_api);
    assert_eq!(odd.instance.as_deref(), Some("review"));
}

#[test]
fn the_bin_keeps_the_newest_problems_only() {
    let mut bin = BinProblems::new();
    assert!(bin.shown().is_empty());
    for index in 0..10 {
        bin.push(sub_ui::problem::Problem::new("media.unreadable", format!("file {index}")));
    }
    assert_eq!(MAX_BIN_PROBLEMS, 8);
    let messages: Vec<&str> = bin.shown().iter().map(|p| p.message.as_str()).collect();
    assert_eq!(messages, vec!["file 2", "file 3", "file 4", "file 5", "file 6", "file 7", "file 8", "file 9"]);
}

#[test]
fn an_unattended_run_ends_on_whichever_limit_comes_first() {
    assert_eq!(unattended_close_reason(Some(3), 2, None, 0), None);
    assert_eq!(unattended_close_reason(Some(3), 3, None, 0), Some(CloseReason::Painted(3)));
    assert_eq!(unattended_close_reason(None, 100, Some(5_000), 4_999), None);
    assert_eq!(unattended_close_reason(None, 0, Some(5_000), 5_000), Some(CloseReason::Held));
    assert_eq!(unattended_close_reason(Some(10), 4, Some(5_000), 6_000), Some(CloseReason::Held));
    assert_eq!(unattended_close_reason(Some(4), 4, Some(5_000), 6_000), Some(CloseReason::Painted(4)));
    assert_eq!(unattended_close_reason(None, 1_000, None, u128::MAX), None, "an attended run never closes itself");
    assert_eq!(painted_message(3), "smoke test painted 3 frames");
}

#[test]
fn the_canvas_is_read_only_on_a_photographed_run() {
    assert_eq!(canvas_label(false, &[255, 255, 255, 255]), "unread");
    assert_eq!(canvas_label(true, &[0, 0, 0, 255, 0, 0, 0, 255]), "black", "alpha alone is not a picture");
    assert_eq!(canvas_label(true, &[0, 0, 0, 255, 0, 9, 0, 255]), "lit");
    assert_eq!(canvas_label(true, &[0, 0, 0, 255, 7, 7]), "black", "a partial pixel is no pixel");
    assert_eq!(canvas_label(true, &[]), "black");
}

#[test]
fn the_ready_line_waits_for_every_window() {
    assert!(!windows_are_up(0, false, 0, true));
    assert!(windows_are_up(1, false, 0, true));
    assert!(!windows_are_up(1, true, 0, true), "an open pop-out has to paint too");
    assert!(windows_are_up(1, true, 1, true));
    assert!(!windows_are_up(5, false, 0, false), "the previews have to catch up");
}

#[test]
fn the_ready_line_names_every_field() {
    let report = ReadyReport {
        frames: 3,
        popout: true,
        popout_frames: 2,
        project: ProjectState::Loaded,
        sequences: 1,
        tracks: 4,
        revision: 17,
        command_api: CommandApiState::Refused { code: "command.address_in_use".to_string(), message: String::new() }.label(),
        picture: 2,
        canvas: canvas_label(true, &[1, 0, 0, 255]).to_string(),
    };
    assert_eq!(
        ready_line(&report),
        "ui-smoke ready: frames=3 popout=true popout_frames=2 project=loaded sequences=1 tracks=4 revision=17 \
         command_api=refused:command.address_in_use picture=2 canvas=lit"
    );
}

#[test]
fn either_ci_run_paints_on_its_own() {
    let counted = RunLimits { smoke_frames: Some(3), ..RunLimits::default() };
    assert!(counted.is_unattended());
    let held = RunLimits { hold_nanos: Some(5_000_000_000), ..RunLimits::default() };
    assert!(held.is_unattended());
}

#[test]
fn a_run_with_no_limits_waits_for_the_user() {
    let options = RunLimits::default();
    assert_eq!(options.smoke_frames, None);
    assert_eq!(options.hold_nanos, None);
    assert!(!options.is_unattended(), "a normal run waits for the user, not for a clock");
    assert_eq!(options.close_reason(1_000_000, u128::MAX), None);
    let both = RunLimits { smoke_frames: Some(2), hold_nanos: Some(10) };
    assert_eq!(both.close_reason(2, 0), Some(CloseReason::Painted(2)));
    assert_eq!(both.close_reason(1, 10), Some(CloseReason::Held));
}
