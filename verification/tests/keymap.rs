use sub_ui::problem::FileRead;
use eframe::egui::Key;
use sub_ui::chords::{chord_spec, parse_chord, split_chord, Chord, Mods};
use sub_ui::keymap::{
    action_by_id, chord_error, config_dir, join, keymap_path, Action, ConfigEnv, EntryValue,
    KeymapDocument, LoadedKeymap, Platform, ShortcutMap, TopValue, KEYMAP_FILE_NAME,
};
use sub_ui::problem::{KEYMAP_INVALID_CHORD, KEYMAP_PARSE, KEYMAP_UNKNOWN_ACTION};

fn chord(modifiers: Mods, key: Key) -> Chord {
    Chord { modifiers, key: key as u32 }
}

fn ctrl() -> Mods {
    Mods::command_key()
}

/// The shipped bindings these cases lean on.
fn base() -> ShortcutMap {
    ShortcutMap::from_bindings(&[
        (Action::Undo, chord(ctrl(), Key::Z)),
        (Action::Redo, chord(ctrl().plus(Mods::shift_key()), Key::Z)),
        (Action::SplitAtPlayhead, chord(Mods::empty(), Key::K)),
        (Action::PlayForward, chord(Mods::empty(), Key::L)),
        (Action::ToggleSnapping, chord(Mods::empty(), Key::S)),
        (Action::AddMarker, chord(Mods::empty(), Key::M)),
        (Action::InsertAtPlayhead, chord(Mods::empty(), Key::Comma)),
        (Action::OverwriteAtPlayhead, chord(Mods::empty(), Key::Period)),
    ])
}

fn same_map(a: &ShortcutMap, b: &ShortcutMap) -> bool {
    Action::all().into_iter().all(|action| a.chord_for(action) == b.chord_for(action))
}

fn env(
    platform: Platform,
    config_override: Option<&str>,
    appdata: Option<&str>,
    home: Option<&str>,
    xdg: Option<&str>,
) -> ConfigEnv {
    ConfigEnv {
        platform,
        config_override: config_override.map(str::to_owned),
        appdata: appdata.map(str::to_owned),
        home: home.map(str::to_owned),
        xdg_config_home: xdg.map(str::to_owned),
    }
}

#[test]
fn chords_round_trip_through_their_spec() {
    for spec in ["L", "F1", "Ctrl+Z", "Ctrl+Shift+Z", "Alt+Left", "Space", "Comma", "Period", "Home"] {
        let parsed = parse_chord(spec).unwrap_or_else(|_| panic!("{spec} should parse"));
        let round_tripped = chord_spec(parsed);
        assert_eq!(parse_chord(&round_tripped).expect("a formatted spec parses"), parsed, "{spec} formatted as {round_tripped}");
    }
}

#[test]
fn modifier_names_are_case_insensitive_and_platform_neutral() {
    let expected = chord(ctrl().plus(Mods::shift_key()), Key::Z);
    for spec in ["Ctrl+Shift+Z", "ctrl+shift+z", "CMD+SHIFT+Z", "Command+Shift+Z"] {
        assert_eq!(parse_chord(spec).expect("a valid chord"), expected, "{spec}");
    }
}

#[test]
fn the_plus_key_can_be_bound() {
    let plus = parse_chord("+").expect("a bare plus is the plus key");
    assert_eq!(plus.key, Key::Plus as u32);
    assert_eq!(plus.modifiers, Mods::empty());
    for spec in ["Ctrl++", "Ctrl+"] {
        let with_ctrl = parse_chord(spec).expect("ctrl and the plus key");
        assert_eq!(with_ctrl.key, Key::Plus as u32, "{spec}");
        assert!(with_ctrl.modifiers.matches_exact(ctrl()), "{spec}");
    }
}

#[test]
fn a_bad_chord_is_an_error_with_a_stable_code() {
    for spec in ["", "   ", "Hyper+Z", "Ctrl+Nope", "Ctrl+Shift"] {
        let Err(fault) = parse_chord(spec) else {
            panic!("{spec:?} should not parse");
        };
        assert_eq!(chord_error(spec, &fault).code, KEYMAP_INVALID_CHORD, "{spec:?}");
    }
}

#[test]
fn a_chord_problem_quotes_the_spec_and_names_it() {
    let fault = parse_chord("Hyper+Z").unwrap_err();
    let problem = chord_error("Hyper+Z", &fault);
    assert_eq!(problem.message, "\"Hyper+Z\" is not a keyboard chord: \"Hyper\" is not a modifier");
    assert_eq!(problem.details, vec![("chord".to_owned(), "Hyper+Z".to_owned())]);
    let fault = parse_chord("Ctrl+Nope").unwrap_err();
    assert_eq!(
        chord_error("Ctrl+Nope", &fault).message,
        "\"Ctrl+Nope\" is not a keyboard chord: \"Nope\" is not a key"
    );
    let fault = parse_chord("  ").unwrap_err();
    assert_eq!(chord_error("  ", &fault).message, "\"  \" is not a keyboard chord: it names no key");
}

#[test]
fn a_spec_writes_its_modifiers_in_a_fixed_order() {
    let spec = chord_spec(chord(Mods::shift_key().plus(Mods::alt_key()).plus(ctrl()), Key::Z));
    assert_eq!(spec, "Ctrl+Alt+Shift+Z");
    assert_eq!(chord_spec(chord(Mods::empty(), Key::F1)), "F1");
}

#[test]
fn action_ids_resolve_and_unknown_ones_do_not() {
    for action in Action::all() {
        assert_eq!(action_by_id(action.id()), Some(action));
    }
    assert_eq!(action_by_id("editing.teleport"), None);
}

#[test]
fn a_file_overrides_only_the_actions_it_names() {
    let loaded = LoadedKeymap::from_toml(base(), "[bindings]\n\"editing.split_at_playhead\" = \"Ctrl+Shift+K\"\n");
    assert!(loaded.is_clean());
    assert_eq!(loaded.map.action_for(Key::K as u32, ctrl().plus(Mods::shift_key())), Some(Action::SplitAtPlayhead));
    assert_eq!(loaded.map.action_for(Key::K as u32, ctrl()), None);
    // Everything else is untouched.
    assert_eq!(loaded.map.action_for(Key::L as u32, Mods::empty()), Some(Action::PlayForward));
}

#[test]
fn none_unbinds_an_action() {
    let loaded = LoadedKeymap::from_toml(base(), "[bindings]\n\"view.toggle_snapping\" = \"none\"\n");
    assert!(loaded.is_clean());
    assert_eq!(loaded.map.action_for(Key::S as u32, Mods::empty()), None);
    assert_eq!(loaded.map.chord_for(Action::ToggleSnapping), None);
}

#[test]
fn an_empty_file_and_one_without_bindings_change_nothing() {
    for text in ["", "# just a comment\n", "[other]\nkey = 1\n"] {
        let loaded = LoadedKeymap::from_toml(base(), text);
        assert!(loaded.is_clean(), "{text:?}");
        assert!(same_map(&loaded.map, &base()), "{text:?}");
    }
}

#[test]
fn bad_entries_are_reported_and_the_good_ones_still_apply() {
    let loaded = LoadedKeymap::from_toml(
        base(),
        "[bindings]\n\
         \"editing.undo\" = \"Ctrl+U\"\n\
         \"editing.teleport\" = \"Ctrl+T\"\n\
         \"editing.redo\" = \"Ctrl+Nope\"\n\
         \"marking.add_marker\" = 7\n",
    );
    assert_eq!(loaded.problems.len(), 3);
    let seen: Vec<&str> = loaded.problems.iter().map(|problem| problem.code.as_str()).collect();
    assert!(seen.contains(&KEYMAP_UNKNOWN_ACTION), "{seen:?}");
    assert!(seen.contains(&KEYMAP_INVALID_CHORD), "{seen:?}");
    assert!(seen.contains(&KEYMAP_PARSE), "{seen:?}");
    // The valid entry survived; the rejected ones kept their defaults.
    assert_eq!(loaded.map.action_for(Key::U as u32, ctrl()), Some(Action::Undo));
    assert_eq!(loaded.map.action_for(Key::Z as u32, ctrl().plus(Mods::shift_key())), Some(Action::Redo));
    assert_eq!(loaded.map.action_for(Key::M as u32, Mods::empty()), Some(Action::AddMarker));
}

#[test]
fn malformed_toml_is_reported_and_leaves_the_defaults() {
    let loaded = LoadedKeymap::from_toml(base(), "[bindings\n\"editing.undo\" = \n");
    assert_eq!(loaded.problems.len(), 1);
    assert_eq!(loaded.problems[0].code, KEYMAP_PARSE);
    assert!(same_map(&loaded.map, &base()));
}

#[test]
fn a_bindings_key_that_is_not_a_table_is_reported() {
    let loaded = LoadedKeymap::from_toml(base(), "bindings = \"oops\"\n");
    assert_eq!(loaded.problems.len(), 1);
    assert_eq!(loaded.problems[0].code, KEYMAP_PARSE);
    assert!(same_map(&loaded.map, &base()));
}

#[test]
fn an_unknown_action_names_itself_in_the_problem() {
    let loaded = LoadedKeymap::from_toml(base(), "[bindings]\n\"editing.teleport\" = \"Ctrl+T\"\n");
    assert_eq!(loaded.problems.len(), 1);
    assert_eq!(loaded.problems[0].code, KEYMAP_UNKNOWN_ACTION);
    assert_eq!(loaded.problems[0].message, "\"editing.teleport\" is not an action this editor has");
    assert_eq!(loaded.problems[0].details, vec![("action".to_owned(), "editing.teleport".to_owned())]);
}

#[test]
fn a_blank_chord_unbinds_like_none() {
    let loaded = LoadedKeymap::from_toml(base(), "[bindings]\n\"editing.undo\" = \"  \"\n\"editing.redo\" = \"NONE\"\n");
    assert!(loaded.is_clean());
    assert_eq!(loaded.map.chord_for(Action::Undo), None);
    assert_eq!(loaded.map.chord_for(Action::Redo), None);
    assert_eq!(loaded.map.chord_for(Action::AddMarker), Some(chord(Mods::empty(), Key::M)));
}

#[test]
fn the_first_action_holding_a_chord_is_the_one_it_fires() {
    let map = ShortcutMap::from_bindings(&[
        (Action::AddMarker, chord(Mods::empty(), Key::M)),
        (Action::Undo, chord(Mods::empty(), Key::M)),
    ]);
    assert_eq!(map.action_for(Key::M as u32, Mods::empty()), Some(Action::Undo));
    assert_eq!(map.action_for(Key::M as u32, Mods::shift_key()), None);
}

#[test]
fn a_file_in_the_config_dir_is_what_the_editor_loads() {
    let dir = "/tmp/sub-ui-keymap-load";
    let path = keymap_path(&env(Platform::Unix, Some(dir), None, None, None)).expect("the override names a config directory");
    assert_eq!(path, format!("{dir}/{KEYMAP_FILE_NAME}"));
    let loaded = LoadedKeymap::from_toml(base(), "[bindings]\n\"transport.play_forward\" = \"Ctrl+Alt+L\"\n");
    assert!(loaded.is_clean());
    assert_eq!(loaded.map.action_for(Key::L as u32, ctrl().plus(Mods::alt_key())), Some(Action::PlayForward));
}

#[test]
fn the_config_dir_follows_the_platform_and_its_override() {
    // The override wins wherever it is set, and is used verbatim.
    let overridden = config_dir(&env(
        Platform::Unix,
        Some("/somewhere/else"),
        Some("C:\\Users\\editor\\AppData\\Roaming"),
        Some("/home/editor"),
        Some("/home/editor/.config"),
    ));
    assert_eq!(overridden, Some("/somewhere/else".to_owned()));

    // A blank override is no override, and with nothing else in the
    // environment there is no config file at all.
    assert_eq!(config_dir(&env(Platform::Unix, Some("  "), None, None, None)), None);
    assert_eq!(config_dir(&env(Platform::Unix, None, None, None, None)), None);

    // The platform root has the app name joined onto it.
    let platform = config_dir(&env(
        Platform::Unix,
        None,
        Some("C:\\Users\\editor\\AppData\\Roaming"),
        Some("/home/editor"),
        Some("/home/editor/.config"),
    ))
    .expect("a machine with a home has a config directory");
    assert!(platform.ends_with("subordinate"), "{platform}");
    assert_eq!(platform, "/home/editor/.config/subordinate");

    assert_eq!(
        config_dir(&env(Platform::Unix, None, None, Some("/home/editor"), None)),
        Some("/home/editor/.config/subordinate".to_owned())
    );
    assert_eq!(
        config_dir(&env(Platform::Windows, None, Some("C:\\Users\\editor\\AppData\\Roaming"), Some("/home/editor"), None)),
        Some("C:\\Users\\editor\\AppData\\Roaming\\subordinate".to_owned())
    );
    assert_eq!(
        config_dir(&env(Platform::MacOs, None, None, Some("/Users/editor"), None)),
        Some("/Users/editor/Library/Application Support/subordinate".to_owned())
    );

    // The two accessors agree.
    let e = env(Platform::Unix, None, None, Some("/home/editor"), None);
    assert_eq!(keymap_path(&e), config_dir(&e).map(|dir| format!("{dir}/{KEYMAP_FILE_NAME}")));
}

#[test]
fn joining_adds_one_separator_only_where_none_is() {
    assert_eq!(join("/a", "b", Platform::Unix), "/a/b");
    assert_eq!(join("/a/", "b", Platform::Unix), "/a/b");
    assert_eq!(join("C:\\a", "b", Platform::Windows), "C:\\a\\b");
    assert_eq!(join("C:\\a/", "b", Platform::Windows), "C:\\a/b");
}

#[test]
fn a_bare_drive_takes_no_separator() {
    assert_eq!(join("C:", "subordinate", Platform::Windows), "C:subordinate");
    assert_eq!(join("\\\\?\\d:", "subordinate", Platform::Windows), "\\\\?\\d:subordinate");
    assert_eq!(join("C:", "b", Platform::Unix), "C:/b", "only Windows has drives");
    assert_eq!(join("1:", "b", Platform::Windows), "1:\\b", "a drive is a letter");
    assert_eq!(
        config_dir(&env(Platform::Windows, None, Some("C:"), None, None)),
        Some("C:subordinate".to_string())
    );
}

#[test]
fn a_spec_splits_at_its_last_plus_unless_it_binds_the_plus_key() {
    assert_eq!(split_chord(" Ctrl+Shift+Z "), ("Ctrl+Shift".to_owned(), "Z".to_owned()));
    assert_eq!(split_chord("F1"), (String::new(), "F1".to_owned()));
    assert_eq!(split_chord("+"), (String::new(), "+".to_owned()));
    assert_eq!(split_chord("Ctrl++"), ("Ctrl".to_owned(), "+".to_owned()));
    assert_eq!(split_chord("Ctrl+"), ("Ctrl".to_owned(), "+".to_owned()));
}

#[test]
fn the_last_entry_for_an_action_decides_its_chord() {
    let entry = |id: &str, value: &str| (id.to_owned(), EntryValue::Text(value.to_owned()));
    let doc = KeymapDocument::Parsed(vec![(
        "bindings".to_owned(),
        TopValue::Table(vec![
            entry("editing.undo", "Ctrl+U"),
            entry("editing.undo", "Ctrl+Y"),
            entry("editing.redo", "Ctrl+R"),
            entry("editing.redo", "Ctrl+Nope"),
            entry("marking.add_marker", "Ctrl+M"),
            entry("marking.add_marker", "none"),
        ]),
    )]);
    let loaded = LoadedKeymap::from_document(base(), &doc);
    assert_eq!(loaded.map.chord_for(Action::Undo), Some(chord(ctrl(), Key::Y)));
    assert_eq!(loaded.map.chord_for(Action::Redo), Some(chord(ctrl(), Key::R)), "a rejected entry leaves what came before");
    assert_eq!(loaded.map.chord_for(Action::AddMarker), None);
    assert_eq!(loaded.problems.len(), 1, "one problem per rejected entry");
    assert_eq!(loaded.problems[0].code, KEYMAP_INVALID_CHORD);
    assert_eq!(
        loaded.problems[0].details,
        vec![("chord".to_owned(), "Ctrl+Nope".to_owned()), ("action".to_owned(), "editing.redo".to_owned())]
    );
}

#[test]
fn a_value_that_is_not_a_string_names_its_type() {
    let doc = KeymapDocument::Parsed(vec![(
        "bindings".to_owned(),
        TopValue::Table(vec![("marking.add_marker".to_owned(), EntryValue::Other("integer".to_owned()))]),
    )]);
    let loaded = LoadedKeymap::from_document(base(), &doc);
    assert_eq!(loaded.problems.len(), 1);
    assert_eq!(loaded.problems[0].code, KEYMAP_PARSE);
    assert_eq!(loaded.problems[0].message, "the chord for \"marking.add_marker\" must be a string");
    let malformed = LoadedKeymap::from_document(base(), &KeymapDocument::Malformed("expected `]`".to_owned()));
    assert_eq!(malformed.problems[0].message, "keymap.toml is not valid TOML: expected `]`");
    assert!(same_map(&malformed.map, &base()));
}

#[test]
fn a_keymap_file_that_is_missing_unreadable_or_read_says_so() {
    let missing = LoadedKeymap::from_read(base(), "/cfg/keymap.toml", FileRead::Missing);
    assert!(missing.source.is_none());
    assert!(missing.problems.is_empty());
    let unreadable = LoadedKeymap::from_read(base(), "/cfg/keymap.toml", FileRead::Unreadable("permission denied".to_owned()));
    assert_eq!(unreadable.source.as_deref(), Some("/cfg/keymap.toml"));
    assert_eq!(unreadable.problems.len(), 1);
    assert_eq!(unreadable.problems[0].code, "ui.keymap_unreadable");
    assert_eq!(unreadable.problems[0].message, "/cfg/keymap.toml could not be read: permission denied");
    assert_eq!(unreadable.problems[0].details, vec![("path".to_owned(), "/cfg/keymap.toml".to_owned())]);
    let read = LoadedKeymap::from_read(
        base(),
        "/cfg/keymap.toml",
        FileRead::Text("[bindings]\n\"view.toggle_snapping\" = \"none\"\n".to_owned()),
    );
    assert_eq!(read.source.as_deref(), Some("/cfg/keymap.toml"));
    assert!(read.problems.is_empty());
}
