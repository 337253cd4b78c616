use sub_ui::fullscreen::{
    fullscreen_path, FullscreenSettings, FullscreenState, Monitor, MonitorChoice, MonitorList,
};
use sub_ui::keymap::{ConfigEnv, Platform};
use sub_ui::problem::FULLSCREEN_PARSE;

/// Two displays: a laptop panel and the review TV.
fn two_displays() -> MonitorList {
    MonitorList::new(vec![
        Monitor::new("eDP-1".to_owned(), [1920, 1080], true),
        Monitor::new("HDMI-1".to_owned(), [3840, 2160], false),
    ])
}

#[test]
fn a_list_numbers_its_displays_in_platform_order() {
    let monitors = two_displays();
    assert_eq!(monitors.len(), 2);
    assert_eq!(monitors.get(1).map(|monitor| monitor.index), Some(1));
    assert_eq!(monitors.get(1).map(Monitor::label).as_deref(), Some("2: HDMI-1 - 3840x2160"));
    assert!(monitors.get(0).is_some_and(|monitor| monitor.label().ends_with("(primary)")));
    assert_eq!(monitors.get(0).map(Monitor::label).as_deref(), Some("1: eDP-1 - 1920x1080 (primary)"));
    assert!(monitors.get(2).is_none());
}

#[test]
fn nothing_is_chosen_until_the_user_picks() {
    let mut state = FullscreenState::new();
    state.set_monitors(two_displays());
    assert_eq!(state.monitor_index(), None);
    assert!(state.chosen().is_none());
    assert_eq!(state.display_number(), 1);
}

#[test]
fn choosing_a_display_records_its_index_and_its_name() {
    let mut state = FullscreenState::new();
    state.set_monitors(two_displays());
    state.choose_monitor(Some(1));
    assert_eq!(state.monitor_index(), Some(1));
    assert_eq!(state.settings().monitor_name(), Some("HDMI-1"));
    assert_eq!(state.display_number(), 2, "the box follows the choice");
    assert_eq!(state.chosen().map(|monitor| monitor.name.as_str()), Some("HDMI-1"));
}

#[test]
fn choosing_none_clears_the_choice() {
    let mut state = FullscreenState::new();
    state.set_monitors(two_displays());
    state.choose_monitor(Some(1));
    state.choose_monitor(None);
    assert_eq!(state.monitor_index(), None);
    assert_eq!(state.settings().monitor_name(), None);
}

#[test]
fn an_unlistable_display_can_still_be_named_by_number() {
    let mut state = FullscreenState::new();
    state.choose_index(1);
    assert_eq!(state.monitor_index(), Some(1));
    assert_eq!(state.settings().monitor_name(), Some("Display 2"));
    assert_eq!(state.display_number(), 2);
}

#[test]
fn a_replugged_display_is_followed_by_name() {
    let mut state = FullscreenState::new();
    state.set_monitors(two_displays());
    state.choose_monitor(Some(1));
    // The TV comes back first in the platform's list after a reboot.
    state.set_monitors(MonitorList::new(vec![
        Monitor::new("HDMI-1".to_owned(), [3840, 2160], false),
        Monitor::new("eDP-1".to_owned(), [1920, 1080], true),
    ]));
    assert_eq!(state.monitor_index(), Some(0));
    assert_eq!(state.settings().monitor_name(), Some("HDMI-1"));
}

#[test]
fn a_malformed_settings_file_is_reported_not_fatal() {
    let Err(error) = FullscreenSettings::from_stored(99, None) else {
        panic!("another schema version is refused");
    };
    assert_eq!(error.code, FULLSCREEN_PARSE);
    assert_eq!(error.message, "the fullscreen settings file is version 99, and this build writes version 1");
    assert_eq!(error.details, vec![("version".to_owned(), "99".to_owned())]);
}

#[test]
fn the_choice_persists_and_loads_back() {
    let mut state = FullscreenState::new();
    state.set_monitors(two_displays());
    state.choose_monitor(Some(1));
    let text = "{\"version\":1,\"monitor\":{\"index\":1,\"name\":\"HDMI-1\"}}";
    assert!(state.is_dirty(text), "a choice that was never saved is dirty");
    state.mark_persisted(text.to_owned());
    assert!(!state.is_dirty(text), "and the choice is then clean");
    assert!(state.is_dirty("{\"version\":1,\"monitor\":null}"));

    let settings = FullscreenSettings::from_stored(1, Some(MonitorChoice { index: 1, name: "HDMI-1".to_owned() }))
        .unwrap_or_else(|_| panic!("version 1 reads"));
    let loaded = FullscreenState::from_file(settings, text.to_owned());
    assert_eq!(loaded.monitor_index(), Some(1));
    assert_eq!(loaded.settings().monitor_name(), Some("HDMI-1"));
    assert_eq!(loaded.display_number(), 2);
    assert!(!loaded.is_dirty(text), "a freshly loaded choice matches the file");
}

#[test]
fn a_missing_file_is_no_choice_and_no_problem() {
    let state = FullscreenState::new();
    assert_eq!(state.monitor_index(), None);
    assert!(state.monitors().is_empty());
}

#[test]
fn a_saved_index_with_no_list_is_kept() {
    let read = FullscreenSettings::from_stored(1, Some(MonitorChoice { index: 2, name: "DP-3".to_owned() }))
        .unwrap_or_else(|_| panic!("version 1 reads"));
    assert_eq!(read.monitor_index(), Some(2));
    let mut state = FullscreenState::from_file(read, String::new());
    state.set_monitors(two_displays());
    assert_eq!(state.monitor_index(), Some(2), "a display this run cannot enumerate is still asked for");
}

#[test]
fn the_settings_file_sits_in_the_config_dir() {
    let env = ConfigEnv {
        platform: Platform::Unix,
        config_override: Some("/cfg".to_owned()),
        appdata: None,
        home: None,
        xdg_config_home: None,
    };
    assert_eq!(fullscreen_path(&env), Some("/cfg/fullscreen.json".to_owned()));
}

#[test]
fn a_choice_resolves_by_name_first_then_by_index() {
    let monitors = two_displays();
    let by_name = MonitorChoice { index: 0, name: "HDMI-1".to_owned() };
    assert_eq!(monitors.resolve(&by_name).map(|monitor| monitor.index), Some(1));
    let by_index = MonitorChoice { index: 0, name: "gone".to_owned() };
    assert_eq!(monitors.resolve(&by_index).map(|monitor| monitor.index), Some(0));
    let nowhere = MonitorChoice { index: 5, name: "gone".to_owned() };
    assert!(monitors.resolve(&nowhere).is_none());
}
