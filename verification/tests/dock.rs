use sub_ui::dock::{check_layout_version, layout_path, repair_plan, Panel, LAYOUT_VERSION};
use sub_ui::keymap::{ConfigEnv, Platform};
use sub_ui::problem::LAYOUT_PARSE;

fn sorted(mut panels: Vec<Panel>) -> Vec<Panel> {
    panels.sort_unstable();
    panels
}

/// The tabs of the shipped arrangement, surface by surface.
fn default_tabs() -> Vec<Panel> {
    vec![Panel::MediaBin, Panel::Viewer, Panel::Timeline, Panel::Inspector, Panel::Export]
}

#[test]
fn the_default_layout_is_the_plans_panel_list() {
    let plan = repair_plan(&default_tabs());
    assert!(!plan.changed);
    assert_eq!(sorted(plan.kept), sorted(Panel::all()));
}

#[test]
fn another_schema_version_is_reported() {
    assert!(check_layout_version(LAYOUT_VERSION).is_ok());
    let Err(error) = check_layout_version(LAYOUT_VERSION + 1) else {
        panic!("a version we do not write");
    };
    assert_eq!(error.code, LAYOUT_PARSE);
    assert_eq!(error.message, "the layout file is version 2, and this build writes version 1");
    assert_eq!(error.details, vec![("version".to_owned(), "2".to_owned())]);
}

#[test]
fn a_layout_missing_a_panel_is_repaired() {
    let tabs: Vec<Panel> = default_tabs().into_iter().filter(|panel| *panel != Panel::Export).collect();
    let plan = repair_plan(&tabs);
    assert!(plan.changed, "the missing panel is put back");
    assert_eq!(plan.restore, vec![Panel::Export]);
    assert_eq!(plan.keep, vec![true; 4]);
    let mut repaired = plan.kept.clone();
    repaired.extend(plan.restore.iter().copied());
    assert_eq!(sorted(repaired.clone()), sorted(Panel::all()), "every panel is present again");
    assert!(!repair_plan(&repaired).changed, "a complete layout is left alone");
}

#[test]
fn a_duplicated_panel_is_dropped() {
    let mut tabs = default_tabs();
    tabs.push(Panel::Viewer);
    let plan = repair_plan(&tabs);
    assert!(plan.changed, "the duplicate is dropped");
    assert_eq!(plan.keep, vec![true, true, true, true, true, false]);
    assert_eq!(plan.kept.iter().filter(|p| **p == Panel::Viewer).count(), 1, "one viewer is left");
    assert!(plan.restore.is_empty());
}

#[test]
fn an_empty_layout_gets_every_panel_back_in_plan_order() {
    let plan = repair_plan(&[]);
    assert!(plan.changed);
    assert!(plan.kept.is_empty());
    assert_eq!(plan.restore, Panel::all());
}

#[test]
fn a_missing_file_is_the_default_layout_and_no_problem() {
    let plan = repair_plan(&default_tabs());
    assert!(!plan.changed);
    assert_eq!(sorted(plan.kept), sorted(Panel::all()));
}

#[test]
fn panel_ids_and_titles_are_distinct() {
    let all = Panel::all();
    let mut ids: Vec<_> = all.iter().map(|panel| panel.id()).collect();
    ids.sort_unstable();
    ids.dedup();
    assert_eq!(ids.len(), all.len(), "every panel has its own id");
    let mut titles: Vec<_> = all.iter().map(|panel| panel.title()).collect();
    titles.sort_unstable();
    titles.dedup();
    assert_eq!(titles.len(), all.len());
    assert_eq!(Panel::MediaBin.id(), "panel.media_bin");
    assert_eq!(Panel::MediaBin.title(), "Media");
}

#[test]
fn the_layout_file_sits_in_the_config_dir() {
    let env = ConfigEnv {
        platform: Platform::Windows,
        config_override: None,
        appdata: Some("C:\\Roaming".to_owned()),
        home: None,
        xdg_config_home: None,
    };
    assert_eq!(layout_path(&env), Some("C:\\Roaming\\subordinate\\layout.json".to_owned()));
}
