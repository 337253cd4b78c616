use sub_ui::media_bin::{folder_name, BinSort, BinViewMode, SortColumn};

#[test]
fn a_column_click_reverses_its_own_column_and_resets_another() {
    let mut sort = BinSort::by_column(SortColumn::Name);
    sort.click(SortColumn::Duration);
    assert_eq!(sort.column, SortColumn::Duration);
    assert!(sort.ascending);
    sort.click(SortColumn::Duration);
    assert!(!sort.ascending);
    sort.click(SortColumn::Name);
    assert_eq!(sort.column, SortColumn::Name);
    assert!(sort.ascending);
    assert_eq!(sort.arrow(SortColumn::Name), " ^");
    assert_eq!(sort.arrow(SortColumn::Duration), "");
}

#[test]
fn a_typed_folder_name_is_trimmed_and_never_empty() {
    assert_eq!(folder_name("  Interviews "), "Interviews");
    assert_eq!(folder_name("   "), "New folder");
}

#[test]
fn the_view_toggle_names_the_mode_it_switches_to() {
    assert_eq!(BinViewMode::List.other(), BinViewMode::Grid);
    assert_eq!(BinViewMode::Grid.other(), BinViewMode::List);
    assert_eq!(BinViewMode::Grid.label(), "Grid");
}

use sub_ui::bin_tree::{bin_path, move_here, BinMove, BinNode, BinSelection, MediaBinPanel};
use sub_ui::media_bin::{
    frame_rate_text, proxy_text, rate_label, resolution_text, sorted_media, MediaEntry, MediaTime,
    ProxyState, Rational, VideoInfo,
};

const FPS_24: Rational = Rational { numerator: 24, denominator: 1 };
const FPS_25: Rational = Rational { numerator: 25, denominator: 1 };
const FPS_23_976: Rational = Rational { numerator: 24_000, denominator: 1_001 };
const FPS_29_97: Rational = Rational { numerator: 30_000, denominator: 1_001 };

/// A media item named `name`, `frames` long at `rate` and `width` wide.
fn item(id: u64, name: &str, frames: i64, rate: Rational, width: u32, height: u32) -> MediaEntry {
    MediaEntry {
        id,
        name: name.to_owned(),
        duration: Some(MediaTime { value: frames, rate }),
        video: Some(VideoInfo { width, height, frame_rate: rate }),
        has_audio: false,
        offline: false,
        proxy: ProxyState::NotMade,
    }
}

/// A project's media: three items of different shapes, all in one bin.
fn media() -> Vec<MediaEntry> {
    vec![
        item(1, "c.mov", 48, FPS_24, 1920, 1080),
        item(2, "a.mov", 100, FPS_25, 3840, 2160),
        item(3, "b.mov", 24, FPS_23_976, 1280, 720),
    ]
}

fn names(media: &[MediaEntry], sort: BinSort) -> Vec<String> {
    sorted_media(media, &[1, 2, 3], sort).into_iter().map(|item| item.name.clone()).collect()
}

#[test]
fn the_name_column_sorts_both_ways() {
    let media = media();
    assert_eq!(names(&media, BinSort::by_column(SortColumn::Name)), ["a.mov", "b.mov", "c.mov"]);
    let mut sort = BinSort::by_column(SortColumn::Name);
    sort.click(SortColumn::Name);
    assert!(!sort.ascending);
    assert_eq!(names(&media, sort), ["c.mov", "b.mov", "a.mov"]);
}

#[test]
fn duration_sorts_by_wall_clock_length_not_by_frame_count() {
    // 24 frames at 23.976 is just over a second; 48 at 24 is two seconds;
    // 100 at 25 is four.
    assert_eq!(names(&media(), BinSort::by_column(SortColumn::Duration)), ["b.mov", "c.mov", "a.mov"]);
}

#[test]
fn frame_rate_sorts_exactly_so_23_976_is_below_24() {
    assert_eq!(names(&media(), BinSort::by_column(SortColumn::FrameRate)), ["b.mov", "c.mov", "a.mov"]);
}

#[test]
fn resolution_sorts_by_pixel_count() {
    assert_eq!(names(&media(), BinSort::by_column(SortColumn::Resolution)), ["b.mov", "c.mov", "a.mov"]);
}

#[test]
fn a_bin_lists_only_the_items_the_project_still_has() {
    let media = media();
    let listed: Vec<u64> = sorted_media(&media, &[3, 9, 1], BinSort::by_column(SortColumn::Name))
        .into_iter()
        .map(|item| item.id)
        .collect();
    assert_eq!(listed, [3, 1]);
}

#[test]
fn metadata_columns_read_as_timecode_and_exact_rates() {
    let clip = item(1, "take.mov", 48, FPS_24, 1920, 1080);
    assert_eq!(frame_rate_text(&clip), "24");
    assert_eq!(resolution_text(&clip), "1920x1080");
    let ntsc = item(2, "ntsc.mov", 30, FPS_29_97, 1920, 1080);
    assert_eq!(frame_rate_text(&ntsc), "29.97");
    let film = item(3, "film.mov", 24, FPS_23_976, 1920, 1080);
    assert_eq!(frame_rate_text(&film), "23.976");
    assert_eq!(rate_label(Rational { numerator: 50, denominator: 2 }), "25");
    assert_eq!(rate_label(Rational { numerator: 5, denominator: 2 }), "2.5");
}

#[test]
fn an_unprobed_item_says_so_in_every_column() {
    let bare = MediaEntry {
        id: 7,
        name: "unknown.mov".to_owned(),
        duration: None,
        video: None,
        has_audio: false,
        offline: false,
        proxy: ProxyState::NotMade,
    };
    assert_eq!(frame_rate_text(&bare), "-");
    assert_eq!(resolution_text(&bare), "-");
    let sound = MediaEntry { has_audio: true, ..bare };
    assert_eq!(resolution_text(&sound), "audio");
}

#[test]
fn the_proxy_badge_names_its_state() {
    let mut entry = item(1, "a.mov", 1, FPS_24, 1, 1);
    assert_eq!(proxy_text(&entry), "NO PROXY");
    entry.proxy = ProxyState::Pending;
    assert_eq!(proxy_text(&entry), "PROXY...");
    entry.proxy = ProxyState::Ready("p.mov".to_owned());
    assert_eq!(proxy_text(&entry), "PROXY");
    entry.proxy = ProxyState::Stale("p.mov".to_owned());
    assert_eq!(proxy_text(&entry), "PROXY STALE");
    entry.proxy = ProxyState::Failed("no space".to_owned());
    assert_eq!(proxy_text(&entry), "PROXY FAILED");
}

fn node(id: u64, name: &str, depth: usize) -> BinNode {
    BinNode { id, name: name.to_owned(), depth, media: Vec::new() }
}

#[test]
fn the_tree_hides_the_children_of_a_collapsed_folder() {
    let tree = vec![node(10, "Doc cut", 0), node(11, "Interviews", 1), node(12, "Takes", 2)];
    let mut panel = MediaBinPanel::new();
    let visible: Vec<u64> = panel.rows(&tree).iter().map(|i| tree[*i].id).collect();
    assert_eq!(visible, [10, 11, 12], "everything is expanded to begin with");
    assert_eq!(tree[panel.rows(&tree)[2]].depth, 2, "depth is the nesting level");

    panel.toggle_collapsed(11);
    assert!(panel.is_collapsed(11));
    let visible: Vec<u64> = panel.rows(&tree).iter().map(|i| tree[*i].id).collect();
    assert_eq!(visible, [10, 11]);
    panel.toggle_collapsed(11);
    assert_eq!(panel.rows(&tree).len(), 3);
}

#[test]
fn the_open_folder_falls_back_to_the_root_when_it_is_gone() {
    let mut tree = vec![node(10, "Doc cut", 0), node(11, "Interviews", 1)];
    let mut panel = MediaBinPanel::new();
    assert_eq!(panel.open_bin(&tree), 10);
    panel.open(11);
    assert_eq!(panel.open_bin(&tree), 11);
    assert_eq!(bin_path(&tree, 11), "Doc cut / Interviews");
    assert_eq!(bin_path(&tree, 10), "Doc cut");

    tree.truncate(1);
    assert_eq!(panel.open_bin(&tree), 10);
}

#[test]
fn the_selection_is_the_item_or_else_the_open_folder() {
    let tree = vec![node(10, "Doc cut", 0), node(11, "Interviews", 1)];
    let mut panel = MediaBinPanel::new();
    assert!(matches!(panel.selection(&tree), BinSelection::Bin(10)));
    panel.open(11);
    panel.select_media(5);
    assert!(matches!(panel.selection(&tree), BinSelection::Media(5)));
    panel.open(10);
    assert!(matches!(panel.selection(&tree), BinSelection::Bin(10)));
}

#[test]
fn a_move_is_offered_only_where_it_changes_something() {
    let mut tree = vec![node(10, "Doc cut", 0), node(11, "Interviews", 1), node(12, "Takes", 2)];
    tree[1].media.push(5);
    // An item already in the folder goes nowhere.
    assert!(move_here(&tree, BinSelection::Media(5), 11).is_none());
    assert!(matches!(move_here(&tree, BinSelection::Media(5), 10), Some(BinMove::MoveMedia { media: 5, bin: 10 })));
    // A folder cannot move into itself or below itself.
    assert!(move_here(&tree, BinSelection::Bin(11), 11).is_none());
    assert!(move_here(&tree, BinSelection::Bin(11), 12).is_none());
    assert!(matches!(move_here(&tree, BinSelection::Bin(12), 10), Some(BinMove::MoveBin { bin: 12, parent: 10 })));
}

#[test]
fn items_that_tie_keep_the_bins_order() {
    let media = vec![
        item(1, "take.mov", 48, FPS_24, 1920, 1080),
        item(2, "take.mov", 48, FPS_24, 1920, 1080),
        item(3, "a.mov", 48, FPS_24, 1920, 1080),
        item(4, "take.mov", 48, FPS_24, 1920, 1080),
    ];
    for column in [SortColumn::Name, SortColumn::Duration, SortColumn::FrameRate, SortColumn::Resolution] {
        let mut sort = BinSort::by_column(column);
        let listed: Vec<u64> = sorted_media(&media, &[4, 1, 3, 2], sort).into_iter().map(|item| item.id).collect();
        assert_eq!(listed, [3, 4, 1, 2], "{column:?}");
        sort.click(column);
        let listed: Vec<u64> = sorted_media(&media, &[4, 1, 3, 2], sort).into_iter().map(|item| item.id).collect();
        assert_eq!(listed, [4, 1, 2, 3], "descending keeps ties in bin order too: {column:?}");
    }
}
