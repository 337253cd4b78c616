use eframe::egui::Key;
use sub_ui::chords::{Chord, Mods};
use sub_ui::keymap::{Action, ShortcutMap};
use sub_ui::plugins::{PluginCommand, PluginMenu};
use sub_ui::problem::{PLUGIN_INVALID_CHORD, PLUGIN_SHORTCUT_CONFLICT};

fn command(plugin: &str, id: &str, title: &str, shortcut: Option<&str>) -> PluginCommand {
    PluginCommand {
        qualified_id: format!("{plugin}/{id}"),
        plugin: plugin.to_owned(),
        title: title.to_owned(),
        shortcut: shortcut.map(str::to_owned),
    }
}

fn ctrl_shift() -> Mods {
    Mods::command_key().plus(Mods::shift_key())
}

/// The editor's own chords that these cases touch.
fn editor_map() -> ShortcutMap {
    ShortcutMap::from_bindings(&[
        (Action::Undo, Chord { modifiers: Mods::command_key(), key: Key::Z as u32 }),
        (Action::Redo, Chord { modifiers: ctrl_shift(), key: Key::Z as u32 }),
        (Action::AddMarker, Chord { modifiers: Mods::empty(), key: Key::M as u32 }),
    ])
}

#[test]
fn a_free_chord_is_granted_and_fires_its_command() {
    let menu = PluginMenu::register(&[command("p", "go", "Go", Some("Ctrl+Shift+G"))], &editor_map());
    assert!(menu.problems().is_empty());
    assert_eq!(menu.entries()[0].chord_label(), "Ctrl+Shift+G");
    let presses = [Chord { modifiers: ctrl_shift(), key: Key::G as u32 }];
    let (fired, taken) = menu.take_commands(&presses);
    assert_eq!(fired, vec!["p/go".to_owned()]);
    assert_eq!(taken, vec![true], "the event was consumed");
}

#[test]
fn a_chord_the_editor_already_owns_is_refused_and_the_command_stays_in_the_menu() {
    let menu = PluginMenu::register(&[command("p", "undo-ish", "Undo-ish", Some("Ctrl+Z"))], &editor_map());
    assert_eq!(menu.entries().len(), 1, "the command is still in the menu");
    assert_eq!(menu.entries()[0].chord, None);
    assert_eq!(menu.entries()[0].chord_label(), "-");
    assert_eq!(menu.problems().len(), 1);
    assert_eq!(menu.problems()[0].code.as_str(), PLUGIN_SHORTCUT_CONFLICT);
    // Ctrl+Z still means undo, and nothing else.
    assert_eq!(menu.command_for(Key::Z as u32, Mods::command_key()), None);
}

#[test]
fn the_second_plugin_to_ask_for_a_chord_does_not_get_it() {
    let menu = PluginMenu::register(
        &[
            command("a", "go", "Go", Some("Ctrl+Shift+G")),
            command("b", "go", "Go too", Some("Ctrl+Shift+G")),
        ],
        &editor_map(),
    );
    assert_eq!(menu.chord_for("a/go"), Some(Chord { modifiers: ctrl_shift(), key: Key::G as u32 }));
    assert_eq!(menu.chord_for("b/go"), None);
    assert_eq!(menu.problems().len(), 1);
    assert_eq!(menu.problems()[0].code.as_str(), PLUGIN_SHORTCUT_CONFLICT);
    assert_eq!(menu.command_for(Key::G as u32, ctrl_shift()), Some("a/go"));
}

#[test]
fn a_chord_that_is_not_a_chord_is_reported_rather_than_guessed_at() {
    let menu = PluginMenu::register(&[command("p", "go", "Go", Some("Ctrl+Nope"))], &editor_map());
    assert_eq!(menu.entries()[0].chord, None);
    assert_eq!(menu.problems().len(), 1);
    assert_eq!(menu.problems()[0].code.as_str(), PLUGIN_INVALID_CHORD);
}

#[test]
fn a_command_without_a_shortcut_is_listed_with_no_chord() {
    let menu = PluginMenu::register(&[command("p", "tidy", "Tidy", None)], &editor_map());
    assert!(!menu.is_empty());
    assert!(menu.problems().is_empty());
    assert_eq!(menu.entries()[0].chord, None);
    assert_eq!(menu.entries()[0].qualified_id, "p/tidy");
    assert_eq!(menu.entries()[0].title, "Tidy");
}

#[test]
fn an_empty_menu_claims_no_keys() {
    let menu = PluginMenu::empty();
    assert!(menu.is_empty());
    let presses = [Chord { modifiers: Mods::empty(), key: Key::G as u32 }];
    let (fired, taken) = menu.take_commands(&presses);
    assert!(fired.is_empty());
    assert_eq!(taken, vec![false], "the event is left for someone else");
}

#[test]
fn only_the_presses_a_command_holds_are_taken() {
    let menu = PluginMenu::register(&[command("p", "go", "Go", Some("Ctrl+Shift+G"))], &editor_map());
    let presses = [
        Chord { modifiers: Mods::empty(), key: Key::G as u32 },
        Chord { modifiers: ctrl_shift(), key: Key::G as u32 },
        Chord { modifiers: ctrl_shift(), key: Key::G as u32 },
    ];
    let (fired, taken) = menu.take_commands(&presses);
    assert_eq!(fired, vec!["p/go".to_owned(), "p/go".to_owned()]);
    assert_eq!(taken, vec![false, true, true]);
}
