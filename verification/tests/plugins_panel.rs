use sub_ui::plugins_panel::{
    load_status, status_for, Capabilities, LoadFailure, LoadStatus, PluginRow, PluginsPanel,
    ReloadStatus, ScannedPlugin, NO_CAPABILITIES,
};
use sub_ui::problem::Problem;

/// An installed plugin as a scan of its manifest finds it, with no dev link.
fn installed(id: &str, enabled: bool) -> ScannedPlugin {
    ScannedPlugin {
        id: id.to_owned(),
        name: "Cutter".to_owned(),
        version: "1.2.3".to_owned(),
        directory: format!("/plugins/{id}"),
        enabled,
        dev: false,
        worlds: vec!["command".to_owned(), "effect".to_owned()],
        capabilities: Capabilities {
            fs_read: vec!["$PROJECT".to_owned()],
            fs_write: Vec::new(),
            network: false,
            shaders: true,
        },
    }
}

fn status(id: &str, error: Option<Problem>) -> ReloadStatus {
    ReloadStatus { id: id.to_owned(), generation: 2, commands: 3, effects: 1, tools: 0, dev: true, error }
}

fn reload_error() -> Problem {
    Problem {
        code: "plugin.load_failed".to_owned(),
        message: "the component does not instantiate".to_owned(),
        details: vec![("hint".to_owned(), "rebuild it".to_owned())],
    }
}

#[test]
fn a_row_carries_the_version_worlds_and_capabilities_from_the_manifest() {
    let row = PluginRow::new(installed("com.example.cutter", true), None);
    assert_eq!(row.version, "1.2.3");
    assert_eq!(row.worlds_label(), "command, effect");
    assert_eq!(row.capabilities_label(), "read $PROJECT, shaders");
    assert_eq!(row.title(), "Cutter 1.2.3");
    assert!(matches!(row.status, LoadStatus::NotLoaded));
}

#[test]
fn a_plugin_asking_for_nothing_says_so_rather_than_showing_an_empty_column() {
    let mut plugin = installed("com.example.cutter", true);
    plugin.capabilities = Capabilities { fs_read: Vec::new(), fs_write: Vec::new(), network: false, shaders: false };
    let row = PluginRow::new(plugin, None);
    assert_eq!(row.capabilities_label(), NO_CAPABILITIES);
}

#[test]
fn every_grant_is_named_in_a_fixed_order() {
    let mut plugin = installed("com.example.cutter", true);
    plugin.capabilities = Capabilities {
        fs_read: vec!["$PROJECT".to_owned(), "$HOME".to_owned()],
        fs_write: vec!["$CACHE".to_owned()],
        network: true,
        shaders: true,
    };
    let row = PluginRow::new(plugin, None);
    assert_eq!(row.capabilities_label(), "read $PROJECT $HOME, write $CACHE, network, shaders");
}

#[test]
fn a_switched_off_plugin_is_disabled_rather_than_not_loaded() {
    let row = PluginRow::new(installed("com.example.cutter", false), None);
    assert!(matches!(row.status, LoadStatus::Disabled));
    assert_eq!(row.status.label(), "disabled");
    assert!(!row.status.is_failed());
    assert!(row.status.error().is_none());
}

#[test]
fn a_loaded_plugin_shows_what_it_contributed() {
    let row = PluginRow::new(installed("com.example.cutter", true), Some(status("com.example.cutter", None)));
    assert!(matches!(row.status, LoadStatus::Loaded { generation: 2, commands: 3, effects: 1, tools: 0 }));
    assert_eq!(row.status.label(), "loaded");
    assert!(row.dev, "the status says it is a dev install");
    assert_eq!(row.title(), "Cutter 1.2.3 (dev)");
}

#[test]
fn a_failed_reload_keeps_the_row_and_carries_the_error() {
    let row = PluginRow::new(
        installed("com.example.cutter", true),
        Some(status("com.example.cutter", Some(reload_error()))),
    );
    assert!(row.status.is_failed());
    assert_eq!(row.status.label(), "failed");
    let error = row.status.error().expect("the failure is on the row");
    assert_eq!(error.code, "plugin.load_failed");
    assert_eq!(error.details[0], ("hint".to_owned(), "rebuild it".to_owned()));
}

#[test]
fn a_failure_shows_even_on_a_switched_off_plugin() {
    assert!(load_status(false, Some(status("p", Some(reload_error())))).is_failed());
    assert!(matches!(load_status(false, Some(status("p", None))), LoadStatus::Disabled));
}

#[test]
fn the_last_status_given_for_a_plugin_is_the_one_shown() {
    let statuses = vec![status("a", None), status("b", None), status("a", Some(reload_error()))];
    assert_eq!(status_for(&statuses, "a"), Some(2));
    assert_eq!(status_for(&statuses, "b"), Some(1));
    assert_eq!(status_for(&statuses, "c"), None);
}

#[test]
fn an_empty_scan_leaves_an_empty_list() {
    let mut panel = PluginsPanel::new();
    panel.set_rows(Vec::new(), Vec::new());
    assert!(panel.is_empty());
    assert!(!panel.has_problems());
    assert!(panel.rows().is_empty());
    assert!(panel.failures().is_empty());
}

#[test]
fn a_failed_row_or_an_unscannable_directory_needs_attention() {
    let mut panel = PluginsPanel::new();
    panel.set_rows(vec![PluginRow::new(installed("a", true), None)], Vec::new());
    assert!(!panel.has_problems());
    assert_eq!(panel.row("a").map(|row| row.id.as_str()), Some("a"));
    assert!(panel.row("z").is_none());
    panel.set_rows(
        vec![PluginRow::new(installed("a", true), Some(status("a", Some(reload_error()))))],
        Vec::new(),
    );
    assert!(panel.has_problems());
    panel.set_rows(Vec::new(), vec![LoadFailure { path: "/plugins/broken".to_owned(), error: reload_error() }]);
    assert!(panel.has_problems());
    assert!(!panel.is_empty());
}

#[test]
fn a_closed_panel_opens_and_closes_again() {
    let mut panel = PluginsPanel::new();
    assert!(!panel.open);
    panel.toggle();
    assert!(panel.open);
    panel.toggle();
    assert!(!panel.open);
    assert!(panel.is_empty());
}
