//! The editor's five dockable panels, and the rules that keep a saved
//! arrangement of them usable.
//!
//! A layout file is configuration, never a reason to refuse to start. One
//! written by another schema version is refused and the default used; one
//! that has lost a panel, or holds one twice, is repaired: the missing
//! panels come back, the duplicates go, and everything else stays where the
//! user put it.

use vstd::prelude::*;
use vstd::string::*;
use crate::keymap::{config_dir, join, join_path, spec_config_dir, ConfigEnv};
use crate::problem::{concat, details_view, Problem, ProblemView, LAYOUT_PARSE};
use crate::text::{decimal, decimal_text};

verus! {

/// The name of the layout file inside the config directory.
pub const LAYOUT_FILE_NAME: &'static str = "layout.json";

/// The schema version written into the layout file.
pub const LAYOUT_VERSION: u32 = 1;

/// One editor panel.
#[derive(Debug, Clone, Copy, PartialEq, Eq, Structural, PartialOrd, Ord, Hash)]
pub enum Panel {
    /// The project's media items and bins.
    MediaBin,
    /// The multi-track timeline of the open sequence.
    Timeline,
    /// The preview picture, scrub bar and timecode.
    Viewer,
    /// The parameters of whatever is selected.
    Inspector,
    /// Export presets and render progress.
    Export,
}

/// Every panel, in the order the plan lists them.
pub open spec fn all_panels() -> Seq<Panel> {
    seq![Panel::MediaBin, Panel::Timeline, Panel::Viewer, Panel::Inspector, Panel::Export]
}

/// A panel's stable identifier.
pub open spec fn panel_id(p: Panel) -> Seq<char> {
    match p {
        Panel::MediaBin => "panel.media_bin"@,
        Panel::Timeline => "panel.timeline"@,
        Panel::Viewer => "panel.viewer"@,
        Panel::Inspector => "panel.inspector"@,
        Panel::Export => "panel.export"@,
    }
}

/// A panel's tab title.
pub open spec fn panel_title(p: Panel) -> Seq<char> {
    match p {
        Panel::MediaBin => "Media"@,
        Panel::Timeline => "Timeline"@,
        Panel::Viewer => "Viewer"@,
        Panel::Inspector => "Inspector"@,
        Panel::Export => "Export"@,
    }
}

impl Panel {
    /// Every panel, in the order the plan lists them.
    pub fn all() -> (r: Vec<Panel>)
        ensures
            r@ == all_panels(),
    {
        let r = vec![Panel::MediaBin, Panel::Timeline, Panel::Viewer, Panel::Inspector, Panel::Export];
        assert(r@ =~= all_panels());
        r
    }

    /// The panel's stable identifier, used for its egui id and in logs.
    pub fn id(self) -> (r: &'static str)
        ensures
            r@ == panel_id(self),
    {
        match self {
            Panel::MediaBin => "panel.media_bin",
            Panel::Timeline => "panel.timeline",
            Panel::Viewer => "panel.viewer",
            Panel::Inspector => "panel.inspector",
            Panel::Export => "panel.export",
        }
    }

    /// The panel's tab title.
    pub fn title(self) -> (r: &'static str)
        ensures
            r@ == panel_title(self),
    {
        match self {
            Panel::MediaBin => "Media",
            Panel::Timeline => "Timeline",
            Panel::Viewer => "Viewer",
            Panel::Inspector => "Inspector",
            Panel::Export => "Export",
        }
    }
}

/// No two panels share an identifier or a title, and the list names each
/// panel once.
pub proof fn law_panels_are_distinct(a: Panel, b: Panel)
    ensures
        a != b ==> panel_id(a) != panel_id(b) && panel_title(a) != panel_title(b),
        all_panels().contains(a),
        all_panels().no_duplicates(),
{
    reveal_strlit("panel.media_bin");
    reveal_strlit("panel.timeline");
    reveal_strlit("panel.viewer");
    reveal_strlit("panel.inspector");
    reveal_strlit("panel.export");
    reveal_strlit("Media");
    reveal_strlit("Timeline");
    reveal_strlit("Viewer");
    reveal_strlit("Inspector");
    reveal_strlit("Export");
    let all = all_panels();
    match a {
        Panel::MediaBin => assert(all[0] == a),
        Panel::Timeline => assert(all[1] == a),
        Panel::Viewer => assert(all[2] == a),
        Panel::Inspector => assert(all[3] == a),
        Panel::Export => assert(all[4] == a),
    }
    if a != b {
        assert(panel_id(a)[6] != panel_id(b)[6] || panel_id(a).len() != panel_id(b).len()
            || panel_id(a)[7] != panel_id(b)[7]);
        assert(panel_title(a)[0] != panel_title(b)[0] || panel_title(a).len() != panel_title(
            b,
        ).len());
    }
}

/// The problem a layout file of version `v` is refused with.
pub open spec fn layout_version_problem(v: nat) -> ProblemView {
    ProblemView {
        code: LAYOUT_PARSE@,
        message: "the layout file is version "@ + decimal(v) + ", and this build writes version 1"@,
        details: seq![("version"@, decimal(v))],
    }
}

/// Whether a layout file that states `version` can be used: one of another
/// schema version is refused with `ui.layout_parse`.
pub fn check_layout_version(version: u32) -> (r: Result<(), Problem>)
    ensures
        version == LAYOUT_VERSION ==> r is Ok,
        version != LAYOUT_VERSION ==> (r matches Err(p) && p.view_problem()
            == layout_version_problem(version as nat)),
{
    if version != LAYOUT_VERSION {
        let digits = decimal_text(version as u64);
        let head = concat("the layout file is version ", digits.as_str());
        let message = concat(head.as_str(), ", and this build writes version 1");
        let p = Problem::new(LAYOUT_PARSE, message).with_detail("version", digits.as_str());
        assert(details_view(p.details@) =~= seq![("version"@, decimal(version as nat))]);
        return Err(p);
    }
    Ok(())
}

/// The tabs of `tabs` that a repair keeps: each panel's first tab, in
/// order.
pub open spec fn kept_tabs(tabs: Seq<Panel>) -> Seq<Panel>
    decreases tabs.len(),
{
    if tabs.len() == 0 {
        Seq::empty()
    } else {
        let before = kept_tabs(tabs.drop_last());
        if tabs.drop_last().contains(tabs.last()) {
            before
        } else {
            before.push(tabs.last())
        }
    }
}

/// The panels of `all` that `tabs` lacks, in the order of `all`.
pub open spec fn missing_from(all: Seq<Panel>, tabs: Seq<Panel>) -> Seq<Panel>
    decreases all.len(),
{
    if all.len() == 0 {
        Seq::empty()
    } else {
        let before = missing_from(all.drop_last(), tabs);
        if tabs.contains(all.last()) {
            before
        } else {
            before.push(all.last())
        }
    }
}

/// Whether a repair that keeps the tabs marked in `keep` drops any.
pub open spec fn drops_a_tab(keep: Seq<bool>) -> bool {
    exists|i: int| 0 <= i < keep.len() && !#[trigger] keep[i]
}

/// What a repair does to a layout whose tabs, in order, are `tabs`.
pub struct RepairPlan {
    /// For each tab, whether it stays: only a panel's first tab does.
    pub keep: Vec<bool>,
    /// The tabs that stay, in order.
    pub kept: Vec<Panel>,
    /// The panels to put back, in the plan's order.
    pub restore: Vec<Panel>,
    /// Whether the repair changes anything.
    pub changed: bool,
}

/// The repair of a layout whose tabs, in order, are `tabs`: every tab that
/// repeats an earlier one goes, and every panel no tab shows comes back.
pub fn repair_plan(tabs: &[Panel]) -> (r: RepairPlan)
    ensures
        r.keep@.len() == tabs@.len(),
        forall|i: int|
            0 <= i < tabs@.len() ==> r.keep@[i] == !tabs@.subrange(0, i).contains(
                #[trigger] tabs@[i],
            ),
        r.kept@ == kept_tabs(tabs@),
        r.restore@ == missing_from(all_panels(), tabs@),
        r.changed == (r.restore@.len() > 0 || drops_a_tab(r.keep@)),
{
    let mut keep: Vec<bool> = Vec::new();
    let mut kept: Vec<Panel> = Vec::new();
    let mut dropped = false;
    let mut i: usize = 0;
    while i < tabs.len()
        invariant
            i <= tabs@.len(),
            keep@.len() == i,
            forall|k: int|
                0 <= k < i ==> keep@[k] == !tabs@.subrange(0, k).contains(#[trigger] tabs@[k]),
            kept@ == kept_tabs(tabs@.subrange(0, i as int)),
            dropped == drops_a_tab(keep@),
        decreases tabs@.len() - i,
    {
        let tab = tabs[i];
        let mut seen = false;
        let mut j: usize = 0;
        while j < i
            invariant
                j <= i < tabs@.len(),
                tab == tabs@[i as int],
                seen == tabs@.subrange(0, j as int).contains(tab),
            decreases i - j,
        {
            assert(tabs@.subrange(0, j + 1 as int) =~= tabs@.subrange(0, j as int).push(
                tabs@[j as int],
            ));
            proof {
                lemma_push_contains(tabs@.subrange(0, j as int), tabs@[j as int], tab);
            }
            if tabs[j] == tab {
                seen = true;
            }
            j = j + 1;
        }
        let ghost prefix = tabs@.subrange(0, i + 1 as int);
        assert(prefix.drop_last() =~= tabs@.subrange(0, i as int));
        let ghost keep_before = keep@;
        keep.push(!seen);
        assert(forall|k: int| 0 <= k < i ==> keep@[k] == keep_before[k]);
        if seen {
            dropped = true;
            assert(!keep@[i as int]);
        } else {
            kept.push(tab);
        }
        i = i + 1;
    }
    assert(tabs@.subrange(0, tabs@.len() as int) =~= tabs@);
    let all = Panel::all();
    let mut restore: Vec<Panel> = Vec::new();
    let mut k: usize = 0;
    while k < all.len()
        invariant
            k <= all@.len(),
            all@ == all_panels(),
            restore@ == missing_from(all@.subrange(0, k as int), tabs@),
            keep@.len() == tabs@.len(),
            dropped == drops_a_tab(keep@),
        decreases all@.len() - k,
    {
        let p = all[k];
        let mut present = false;
        let mut j: usize = 0;
        while j < tabs.len()
            invariant
                j <= tabs@.len(),
                present == tabs@.subrange(0, j as int).contains(p),
            decreases tabs@.len() - j,
        {
            assert(tabs@.subrange(0, j + 1 as int) =~= tabs@.subrange(0, j as int).push(
                tabs@[j as int],
            ));
            proof {
                lemma_push_contains(tabs@.subrange(0, j as int), tabs@[j as int], p);
            }
            if tabs[j] == p {
                present = true;
            }
            j = j + 1;
        }
        assert(tabs@.subrange(0, tabs@.len() as int) =~= tabs@);
        assert(all@.subrange(0, k + 1 as int).drop_last() =~= all@.subrange(0, k as int));
        if !present {
            restore.push(p);
        }
        k = k + 1;
    }
    assert(all@.subrange(0, all@.len() as int) =~= all@);
    assert(restore@ == missing_from(all_panels(), tabs@));
    let changed = restore.len() > 0 || dropped;
    assert(dropped == drops_a_tab(keep@));
    RepairPlan { keep, kept, restore, changed }
}

proof fn lemma_push_contains(s: Seq<Panel>, x: Panel, y: Panel)
    ensures
        s.push(x).contains(y) <==> (s.contains(y) || x == y),
{
    let t = s.push(x);
    if t.contains(y) {
        let w = choose|w: int| 0 <= w < t.len() && t[w] == y;
        if w < s.len() {
            assert(s[w] == y);
        }
    }
    if s.contains(y) {
        let w = choose|w: int| 0 <= w < s.len() && s[w] == y;
        assert(t[w] == y);
    }
    if x == y {
        assert(t[s.len() as int] == y);
    }
}

proof fn lemma_push_distinct(s: Seq<Panel>, x: Panel)
    requires
        s.no_duplicates(),
        !s.contains(x),
    ensures
        s.push(x).no_duplicates(),
{
    let t = s.push(x);
    assert forall|i: int, j: int| 0 <= i < t.len() && 0 <= j < t.len() && i != j implies t[i]
        != t[j] by {
        if i == s.len() {
            assert(s[j] == t[j]);
        } else if j == s.len() {
            assert(s[i] == t[i]);
        } else {
            assert(s[i] == t[i] && s[j] == t[j]);
        }
    }
}

proof fn lemma_kept_tabs(tabs: Seq<Panel>)
    ensures
        forall|p: Panel| kept_tabs(tabs).contains(p) <==> tabs.contains(p),
        kept_tabs(tabs).no_duplicates(),
    decreases tabs.len(),
{
    if tabs.len() > 0 {
        let init = tabs.drop_last();
        let last = tabs.last();
        lemma_kept_tabs(init);
        assert(init.push(last) =~= tabs);
        assert forall|p: Panel| kept_tabs(tabs).contains(p) <==> tabs.contains(p) by {
            lemma_push_contains(init, last, p);
            lemma_push_contains(kept_tabs(init), last, p);
        }
        if !init.contains(last) {
            lemma_push_distinct(kept_tabs(init), last);
        }
    }
}

proof fn lemma_missing_from(all: Seq<Panel>, tabs: Seq<Panel>)
    requires
        all.no_duplicates(),
    ensures
        forall|p: Panel| missing_from(all, tabs).contains(p) <==> (all.contains(p) && !tabs.contains(p)),
        missing_from(all, tabs).no_duplicates(),
    decreases all.len(),
{
    if all.len() > 0 {
        let init = all.drop_last();
        let last = all.last();
        assert(init.no_duplicates());
        lemma_missing_from(init, tabs);
        assert(init.push(last) =~= all);
        assert forall|p: Panel| missing_from(all, tabs).contains(p) <==> (all.contains(p)
            && !tabs.contains(p)) by {
            lemma_push_contains(init, last, p);
            lemma_push_contains(missing_from(init, tabs), last, p);
        }
        if init.contains(last) {
            let i = choose|i: int| 0 <= i < init.len() && init[i] == last;
            assert(all[i] == all[all.len() - 1]);
        }
        if !tabs.contains(last) {
            lemma_push_distinct(missing_from(init, tabs), last);
        }
    }
}

/// A repaired layout holds every panel exactly once: the tabs it keeps and
/// the panels it puts back together name each panel one time, whatever the
/// file held.
pub proof fn law_repair_holds_each_panel_once(tabs: Seq<Panel>)
    ensures
        forall|p: Panel| (kept_tabs(tabs) + missing_from(all_panels(), tabs)).contains(p),
        (kept_tabs(tabs) + missing_from(all_panels(), tabs)).no_duplicates(),
{
    lemma_kept_tabs(tabs);
    law_panels_are_distinct(Panel::MediaBin, Panel::MediaBin);
    lemma_missing_from(all_panels(), tabs);
    let k = kept_tabs(tabs);
    let m = missing_from(all_panels(), tabs);
    let r = k + m;
    assert forall|p: Panel| r.contains(p) by {
        law_panels_are_distinct(p, p);
        if k.contains(p) {
            let i = choose|i: int| 0 <= i < k.len() && k[i] == p;
            assert(r[i] == p);
        } else {
            let i = choose|i: int| 0 <= i < m.len() && m[i] == p;
            assert(r[k.len() + i] == p);
        }
    }
    assert forall|i: int, j: int| 0 <= i < r.len() && 0 <= j < r.len() && i != j implies r[i]
        != r[j] by {
        if i < k.len() {
            assert(r[i] == k[i]);
            assert(k.contains(r[i]));
            assert(tabs.contains(r[i]));
        } else {
            assert(r[i] == m[i - k.len()]);
            assert(m.contains(r[i]));
            assert(!tabs.contains(r[i]));
        }
        if j < k.len() {
            assert(r[j] == k[j]);
            assert(k.contains(r[j]));
            assert(tabs.contains(r[j]));
        } else {
            assert(r[j] == m[j - k.len()]);
            assert(m.contains(r[j]));
            assert(!tabs.contains(r[j]));
        }
    }
}

/// A layout that already holds every panel once is left alone by a repair.
pub proof fn law_complete_layout_is_unchanged(tabs: Seq<Panel>)
    requires
        tabs.no_duplicates(),
        forall|p: Panel| tabs.contains(p),
    ensures
        kept_tabs(tabs) == tabs,
        missing_from(all_panels(), tabs).len() == 0,
        forall|i: int| 0 <= i < tabs.len() ==> !tabs.subrange(0, i).contains(#[trigger] tabs[i]),
    decreases tabs.len(),
{
    law_panels_are_distinct(Panel::MediaBin, Panel::MediaBin);
    lemma_missing_from(all_panels(), tabs);
    if missing_from(all_panels(), tabs).len() > 0 {
        let p = missing_from(all_panels(), tabs)[0];
        assert(missing_from(all_panels(), tabs).contains(p));
        assert(tabs.contains(p));
    }
    assert forall|i: int| 0 <= i < tabs.len() implies !tabs.subrange(0, i).contains(
        #[trigger] tabs[i],
    ) by {
        if tabs.subrange(0, i).contains(tabs[i]) {
            let j = choose|j: int| 0 <= j < i && tabs.subrange(0, i)[j] == tabs[i];
            assert(tabs[j] == tabs[i]);
        }
    }
    lemma_kept_whole(tabs);
}

proof fn lemma_kept_whole(tabs: Seq<Panel>)
    requires
        tabs.no_duplicates(),
    ensures
        kept_tabs(tabs) == tabs,
    decreases tabs.len(),
{
    if tabs.len() > 0 {
        let init = tabs.drop_last();
        assert(init.no_duplicates());
        lemma_kept_whole(init);
        if init.contains(tabs.last()) {
            let j = choose|j: int| 0 <= j < init.len() && init[j] == tabs.last();
            assert(tabs[j] == tabs[tabs.len() - 1]);
        }
        assert(init.push(tabs.last()) =~= tabs);
    }
}

/// The path `layout.json` is read from and written to, if there is a config
/// directory.
pub fn layout_path(env: &ConfigEnv) -> (r: Option<String>)
    ensures
        match r {
            Some(s) => match spec_config_dir(*env) {
                Some(d) => s@ == join_path(d, LAYOUT_FILE_NAME@, env.platform),
                None => false,
            },
            None => spec_config_dir(*env) is None,
        },
{
    match config_dir(env) {
        Some(dir) => Some(join(dir.as_str(), LAYOUT_FILE_NAME, env.platform)),
        None => None,
    }
}

} // verus!
