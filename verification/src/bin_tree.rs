//! The media bin's folder tree: which folders are on screen, the path of the
//! open one, and which moves are worth offering.
//!
//! The tree is held written out parents before children, each folder with
//! its depth, the way the panel walks it: the first folder is the root, and
//! a folder's parent is the nearest folder before it that sits one level
//! shallower.

use vstd::prelude::*;
use crate::media_bin::{BinSort, BinViewMode};
use crate::text::{join_with, joined, views_of};

verus! {

/// One folder of the tree.
pub struct BinNode {
    /// Its identity.
    pub id: u64,
    /// Its name.
    pub name: String,
    /// How deep it sits: the root is at depth zero.
    pub depth: usize,
    /// The items filed directly in it.
    pub media: Vec<u64>,
}

/// Whether `p` is the parent of folder `i` in `s`: the nearest folder
/// before it that sits shallower.
pub open spec fn is_parent(s: Seq<BinNode>, i: int, p: int) -> bool {
    &&& 0 <= p < i < s.len()
    &&& s[p].depth < s[i].depth
    &&& forall|k: int| p < k < i ==> (#[trigger] s[k]).depth >= s[i].depth
}

/// The parent of folder `i`, if it has one.
pub open spec fn parent_of(s: Seq<BinNode>, i: int) -> Option<int> {
    if exists|p: int| is_parent(s, i, p) {
        Some(choose|p: int| is_parent(s, i, p))
    } else {
        None
    }
}

/// Whether folder `i` is on screen: every folder above it is expanded.
pub open spec fn shown(s: Seq<BinNode>, collapsed: Seq<u64>, i: int) -> bool
    decreases i,
{
    if i <= 0 {
        true
    } else if exists|p: int| is_parent(s, i, p) {
        let p = choose|p: int| is_parent(s, i, p);
        shown(s, collapsed, p) && !collapsed.contains(s[p].id)
    } else {
        true
    }
}

/// The folders among the first `n` that are on screen, in order.
pub open spec fn shown_rows(s: Seq<BinNode>, collapsed: Seq<u64>, n: int) -> Seq<int>
    decreases n,
{
    if n <= 0 {
        Seq::empty()
    } else if shown(s, collapsed, n - 1) {
        shown_rows(s, collapsed, n - 1).push(n - 1)
    } else {
        shown_rows(s, collapsed, n - 1)
    }
}

/// The names from the root down to folder `i`.
pub open spec fn path_names(s: Seq<BinNode>, i: int) -> Seq<Seq<char>>
    decreases i,
{
    if i <= 0 {
        seq![s[0].name@]
    } else if exists|p: int| is_parent(s, i, p) {
        let p = choose|p: int| is_parent(s, i, p);
        path_names(s, p).push(s[i].name@)
    } else {
        seq![s[i].name@]
    }
}

/// The first folder of `s` with identity `id`.
pub open spec fn index_of(s: Seq<BinNode>, id: u64) -> Option<int> {
    if exists|k: int| 0 <= k < s.len() && s[k].id == id {
        Some(choose|k: int| 0 <= k < s.len() && s[k].id == id && forall|j: int| 0 <= j < k ==> (#[trigger] s[j]).id != id)
    } else {
        None
    }
}

/// Whether folder `i` sits inside folder `j`'s subtree, `j` itself
/// included.
pub open spec fn within(s: Seq<BinNode>, j: int, i: int) -> bool {
    &&& 0 <= j <= i < s.len()
    &&& forall|k: int| j < k <= i ==> (#[trigger] s[k]).depth > s[j].depth
}

/// The parent of folder `i`, found by looking back for the nearest
/// shallower folder.
fn find_parent(s: &Vec<BinNode>, i: usize) -> (r: Option<usize>)
    requires
        i < s@.len(),
    ensures
        match r {
            Some(p) => is_parent(s@, i as int, p as int),
            None => !exists|p: int| is_parent(s@, i as int, p),
        },
{
    let d = s[i].depth;
    let mut k: usize = i;
    while k > 0
        invariant
            k <= i < s@.len(),
            d == s@[i as int].depth,
            forall|m: int| k <= m < i ==> (#[trigger] s@[m]).depth >= d,
        decreases k,
    {
        k = k - 1;
        if s[k].depth < d {
            return Some(k);
        }
    }
    proof {
        assert forall|p: int| !is_parent(s@, i as int, p) by {
            if is_parent(s@, i as int, p) {
                assert(s@[p].depth >= d);
            }
        }
    }
    None
}

/// Whether `ids` holds `id`.
fn holds(ids: &Vec<u64>, id: u64) -> (r: bool)
    ensures
        r == ids@.contains(id),
{
    let mut i: usize = 0;
    while i < ids.len()
        invariant
            i <= ids@.len(),
            forall|j: int| 0 <= j < i ==> ids@[j] != id,
        decreases ids@.len() - i,
    {
        if ids[i] == id {
            assert(ids@[i as int] == id);
            return true;
        }
        i = i + 1;
    }
    false
}

proof fn lemma_push_contains_id(s: Seq<u64>, x: u64, y: u64)
    ensures
        s.push(x).contains(y) == (s.contains(y) || x == y),
{
    let t = s.push(x);
    if t.contains(y) {
        let w = choose|w: int| 0 <= w < t.len() && t[w] == y;
        if w < s.len() {
            assert(s[w] == y);
        }
    }
    if s.contains(y) {
        let w = choose|w: int| 0 <= w < s.len() && s[w] == y;
        assert(t[w] == y);
    }
    if x == y {
        assert(t[s.len() as int] == y);
    }
}

/// `ids` without `id`.
fn without(ids: &Vec<u64>, id: u64) -> (r: Vec<u64>)
    ensures
        !r@.contains(id),
        forall|o: u64| o != id ==> r@.contains(o) == ids@.contains(o),
{
    let mut kept: Vec<u64> = Vec::new();
    let mut i: usize = 0;
    while i < ids.len()
        invariant
            i <= ids@.len(),
            !kept@.contains(id),
            forall|o: u64| o != id ==> kept@.contains(o) == ids@.subrange(0, i as int).contains(o),
        decreases ids@.len() - i,
    {
        let x = ids[i];
        let ghost before = kept@;
        let ghost pre = ids@.subrange(0, i as int);
        assert(ids@.subrange(0, i + 1 as int) =~= pre.push(x));
        if x != id {
            kept.push(x);
        }
        proof {
            assert forall|o: u64| o != id implies kept@.contains(o) == ids@.subrange(0, i + 1 as int).contains(o) by {
                lemma_push_contains_id(pre, x, o);
                if x != id {
                    lemma_push_contains_id(before, x, o);
                }
            }
            if x != id {
                lemma_push_contains_id(before, x, id);
            }
        }
        i = i + 1;
    }
    assert(ids@.subrange(0, ids@.len() as int) =~= ids@);
    kept
}

/// The first folder of `s` with identity `id`, by position.
pub fn find_bin(s: &Vec<BinNode>, id: u64) -> (r: Option<usize>)
    ensures
        match r {
            Some(k) => k < s@.len() && index_of(s@, id) == Some(k as int),
            None => index_of(s@, id) is None,
        },
{
    let mut i: usize = 0;
    while i < s.len()
        invariant
            i <= s@.len(),
            forall|j: int| 0 <= j < i ==> (#[trigger] s@[j]).id != id,
        decreases s@.len() - i,
    {
        if s[i].id == id {
            proof {
                let w = choose|k: int| 0 <= k < s@.len() && s@[k].id == id && forall|j: int| 0 <= j < k ==> (#[trigger] s@[j]).id != id;
                assert(w == i);
            }
            return Some(i);
        }
        i = i + 1;
    }
    None
}

/// The path of `bin` from the root, for the breadcrumb line: every folder
/// from the root down joined with ` / `, or the root's name when the tree
/// does not hold `bin`.
pub fn bin_path(tree: &Vec<BinNode>, bin: u64) -> (r: String)
    requires
        tree@.len() > 0,
    ensures
        r@ == match index_of(tree@, bin) {
            Some(k) => joined(path_names(tree@, k), " / "@),
            None => tree@[0].name@,
        },
{
    let k = match find_bin(tree, bin) {
        Some(k) => k,
        None => {
            return tree[0].name.clone();
        },
    };
    let mut names: Vec<String> = Vec::new();
    names.push(tree[k].name.clone());
    let mut at: usize = k;
    while at > 0
        invariant
            at <= k < tree@.len(),
            index_of(tree@, bin) == Some(k as int),
            names@.len() > 0,
            path_names(tree@, k as int) == path_names(tree@, at as int) + views_of(names@).drop_first(),
            views_of(names@)[0] == tree@[at as int].name@,
        decreases at,
    {
        match find_parent(tree, at) {
            Some(p) => {
                let ghost before = views_of(names@);
                names.insert(0, tree[p].name.clone());
                proof {
                    let chosen = choose|q: int| is_parent(tree@, at as int, q);
                    assert(is_parent(tree@, at as int, p as int));
                    if chosen != p {
                        if chosen < p {
                            assert(tree@[p as int].depth >= tree@[at as int].depth);
                        } else {
                            assert(tree@[chosen].depth >= tree@[at as int].depth);
                        }
                    }
                    assert(path_names(tree@, at as int) == path_names(tree@, p as int).push(tree@[at as int].name@));
                    assert(views_of(names@).drop_first() =~= before);
                    assert(path_names(tree@, k as int) =~= path_names(tree@, p as int) + views_of(names@).drop_first()) by {
                        assert(before[0] == tree@[at as int].name@);
                        assert(before =~= seq![tree@[at as int].name@] + before.drop_first());
                    }
                }
                at = p;
            },
            None => {
                proof {
                    assert(path_names(tree@, at as int) == seq![tree@[at as int].name@]);
                    assert(views_of(names@) =~= seq![views_of(names@)[0]] + views_of(names@).drop_first());
                    assert(path_names(tree@, k as int) == views_of(names@));
                }
                return join_with(names.as_slice(), " / ");
            },
        }
    }
    proof {
        assert(path_names(tree@, 0) == seq![tree@[0].name@]);
        assert(views_of(names@) =~= seq![views_of(names@)[0]] + views_of(names@).drop_first());
        assert(path_names(tree@, k as int) == views_of(names@));
    }
    join_with(names.as_slice(), " / ")
}

/// What the bin has selected: a folder, or an item inside the open one.
#[derive(Debug, Clone, Copy, PartialEq, Eq, Structural)]
pub enum BinSelection {
    /// A folder is selected; its contents are on the right.
    Bin(u64),
    /// An item inside the open folder is selected.
    Media(u64),
}

/// A move the tree offers.
#[derive(Debug, Clone, Copy, PartialEq, Eq, Structural)]
pub enum BinMove {
    /// Move this folder inside another one.
    MoveBin { bin: u64, parent: u64 },
    /// File this item in another folder.
    MoveMedia { media: u64, bin: u64 },
}

/// The first folder of `s` that files `media`.
pub open spec fn bin_of(s: Seq<BinNode>, media: u64) -> Option<int> {
    if exists|k: int| 0 <= k < s.len() && s[k].media@.contains(media) {
        Some(choose|k: int| 0 <= k < s.len() && s[k].media@.contains(media) && forall|j: int| 0 <= j < k ==> !(#[trigger] s[j]).media@.contains(media))
    } else {
        None
    }
}

/// The move of `sel` into the folder `target` that the tree offers, if it
/// is one worth offering: the root cannot move, a folder cannot move into
/// its own subtree or into the parent it already has, and an item is not
/// filed again where it already is.
pub open spec fn move_of(s: Seq<BinNode>, sel: BinSelection, target: u64) -> Option<BinMove> {
    match sel {
        BinSelection::Bin(bin) => if bin == s[0].id {
            None
        } else {
            match index_of(s, bin) {
                None => None,
                Some(b) => if exists|t: int| within(s, b, t) && s[t].id == target {
                    None
                } else {
                    match parent_of(s, b) {
                        None => None,
                        Some(p) => if s[p].id == target {
                            None
                        } else {
                            Some(BinMove::MoveBin { bin, parent: target })
                        },
                    }
                },
            }
        },
        BinSelection::Media(media) => match bin_of(s, media) {
            Some(k) => if s[k].id == target {
                None
            } else {
                Some(BinMove::MoveMedia { media, bin: target })
            },
            None => Some(BinMove::MoveMedia { media, bin: target }),
        },
    }
}

/// Whether the subtree of folder `b` holds a folder with identity `target`.
fn subtree_holds(tree: &Vec<BinNode>, b: usize, target: u64) -> (r: bool)
    requires
        b < tree@.len(),
    ensures
        r == exists|t: int| within(tree@, b as int, t) && tree@[t].id == target,
{
    let d = tree[b].depth;
    let mut t: usize = b;
    while t < tree.len()
        invariant
            b <= t <= tree@.len(),
            d == tree@[b as int].depth,
            forall|k: int| b < k < t ==> (#[trigger] tree@[k]).depth > d,
            forall|k: int| b <= k < t ==> (#[trigger] tree@[k]).id != target,
        decreases tree@.len() - t,
    {
        if t > b && tree[t].depth <= d {
            proof {
                assert forall|x: int| !(within(tree@, b as int, x) && tree@[x].id == target) by {
                    if within(tree@, b as int, x) && tree@[x].id == target {
                        if x >= t {
                            assert(tree@[t as int].depth > d);
                        }
                    }
                }
            }
            return false;
        }
        if tree[t].id == target {
            proof {
                assert(within(tree@, b as int, t as int));
            }
            return true;
        }
        t = t + 1;
    }
    proof {
        assert forall|x: int| !(within(tree@, b as int, x) && tree@[x].id == target) by {
            if within(tree@, b as int, x) && tree@[x].id == target {
                assert(x < t);
            }
        }
    }
    false
}

/// The first folder that files `media`, by position.
fn media_home(tree: &Vec<BinNode>, media: u64) -> (r: Option<usize>)
    ensures
        match r {
            Some(k) => k < tree@.len() && bin_of(tree@, media) == Some(k as int),
            None => bin_of(tree@, media) is None,
        },
{
    let mut k: usize = 0;
    while k < tree.len()
        invariant
            k <= tree@.len(),
            forall|j: int| 0 <= j < k ==> !(#[trigger] tree@[j]).media@.contains(media),
        decreases tree@.len() - k,
    {
        if holds(&tree[k].media, media) {
            proof {
                let w = choose|w: int| 0 <= w < tree@.len() && tree@[w].media@.contains(media) && forall|j: int| 0 <= j < w ==> !(#[trigger] tree@[j]).media@.contains(media);
                assert(w == k);
            }
            return Some(k);
        }
        k = k + 1;
    }
    None
}

/// The move the tree offers for `sel` onto `target`.
pub fn move_here(tree: &Vec<BinNode>, sel: BinSelection, target: u64) -> (r: Option<BinMove>)
    requires
        tree@.len() > 0,
    ensures
        r == move_of(tree@, sel, target),
{
    match sel {
        BinSelection::Bin(bin) => {
            if bin == tree[0].id {
                return None;
            }
            let b = match find_bin(tree, bin) {
                Some(b) => b,
                None => {
                    return None;
                },
            };
            if subtree_holds(tree, b, target) {
                return None;
            }
            let p = match find_parent(tree, b) {
                Some(p) => p,
                None => {
                    return None;
                },
            };
            proof {
                let chosen = choose|q: int| is_parent(tree@, b as int, q);
                if chosen != p {
                    if chosen < p {
                        assert(tree@[p as int].depth >= tree@[b as int].depth);
                    } else {
                        assert(tree@[chosen].depth >= tree@[b as int].depth);
                    }
                }
            }
            if tree[p].id == target {
                return None;
            }
            Some(BinMove::MoveBin { bin, parent: target })
        },
        BinSelection::Media(media) => match media_home(tree, media) {
            Some(k) => {
                if tree[k].id == target {
                    None
                } else {
                    Some(BinMove::MoveMedia { media, bin: target })
                }
            },
            None => Some(BinMove::MoveMedia { media, bin: target }),
        },
    }
}

/// The media bin panel's own state: how the contents are drawn and sorted,
/// the open folder, the selected item and the collapsed folders.
pub struct MediaBinPanel {
    /// Whether the contents are listed or tiled.
    pub mode: BinViewMode,
    /// Which column the contents are ordered by.
    pub sort: BinSort,
    open_bin: Option<u64>,
    selected_media: Option<u64>,
    collapsed: Vec<u64>,
}

impl MediaBinPanel {
    /// How the contents are drawn.
    pub closed spec fn spec_mode(&self) -> BinViewMode {
        self.mode
    }

    /// How the contents are sorted.
    pub closed spec fn spec_sort(&self) -> BinSort {
        self.sort
    }

    /// The folder asked to be open, if any.
    pub closed spec fn spec_open(&self) -> Option<u64> {
        self.open_bin
    }

    /// The selected item, if any.
    pub closed spec fn spec_selected(&self) -> Option<u64> {
        self.selected_media
    }

    /// The collapsed folders.
    pub closed spec fn spec_collapsed(&self) -> Seq<u64> {
        self.collapsed@
    }

    /// A panel showing the root folder, listed and sorted by name.
    pub fn new() -> (r: MediaBinPanel)
        ensures
            r.spec_mode() == BinViewMode::List,
            r.spec_sort().column == crate::media_bin::SortColumn::Name,
            r.spec_sort().ascending,
            r.spec_open() is None,
            r.spec_selected() is None,
            r.spec_collapsed().len() == 0,
    {
        MediaBinPanel {
            mode: BinViewMode::List,
            sort: BinSort::by_column(crate::media_bin::SortColumn::Name),
            open_bin: None,
            selected_media: None,
            collapsed: Vec::new(),
        }
    }

    /// The folder whose contents are on the right: the one opened, while
    /// the tree still holds it, else the root.
    pub fn open_bin(&self, tree: &Vec<BinNode>) -> (r: u64)
        requires
            tree@.len() > 0,
        ensures
            r == match self.spec_open() {
                Some(b) => if index_of(tree@, b) is Some { b } else { tree@[0].id },
                None => tree@[0].id,
            },
    {
        match self.open_bin {
            Some(b) => match find_bin(tree, b) {
                Some(_) => b,
                None => tree[0].id,
            },
            None => tree[0].id,
        }
    }

    /// Opens `bin` and clears the item selection.
    pub fn open(&mut self, bin: u64)
        ensures
            final(self).spec_open() == Some(bin),
            final(self).spec_selected() is None,
            final(self).spec_collapsed() == old(self).spec_collapsed(),
            final(self).spec_mode() == old(self).spec_mode(),
            final(self).spec_sort() == old(self).spec_sort(),
    {
        self.open_bin = Some(bin);
        self.selected_media = None;
    }

    /// Selects `media` inside the open folder.
    pub fn select_media(&mut self, media: u64)
        ensures
            final(self).spec_selected() == Some(media),
            final(self).spec_open() == old(self).spec_open(),
            final(self).spec_collapsed() == old(self).spec_collapsed(),
            final(self).spec_mode() == old(self).spec_mode(),
            final(self).spec_sort() == old(self).spec_sort(),
    {
        self.selected_media = Some(media);
    }

    /// What is selected: the item when one is, otherwise the open folder.
    pub fn selection(&self, tree: &Vec<BinNode>) -> (r: BinSelection)
        requires
            tree@.len() > 0,
        ensures
            r == match self.spec_selected() {
                Some(m) => BinSelection::Media(m),
                None => BinSelection::Bin(match self.spec_open() {
                    Some(b) => if index_of(tree@, b) is Some { b } else { tree@[0].id },
                    None => tree@[0].id,
                }),
            },
    {
        match self.selected_media {
            Some(m) => BinSelection::Media(m),
            None => BinSelection::Bin(self.open_bin(tree)),
        }
    }

    /// Whether `bin`'s children are hidden.
    pub fn is_collapsed(&self, bin: u64) -> (r: bool)
        ensures
            r == self.spec_collapsed().contains(bin),
    {
        holds(&self.collapsed, bin)
    }

    /// Hides or shows `bin`'s children.
    pub fn toggle_collapsed(&mut self, bin: u64)
        ensures
            final(self).spec_collapsed().contains(bin) == !old(self).spec_collapsed().contains(bin),
            forall|other: u64| other != bin ==> final(self).spec_collapsed().contains(other)
                == old(self).spec_collapsed().contains(other),
            final(self).spec_open() == old(self).spec_open(),
            final(self).spec_selected() == old(self).spec_selected(),
    {
        let was = holds(&self.collapsed, bin);
        let mut kept = without(&self.collapsed, bin);
        if !was {
            let ghost before = kept@;
            kept.push(bin);
            proof {
                assert forall|o: u64| #![auto] kept@.contains(o) == (before.contains(o) || o == bin) by {
                    lemma_push_contains_id(before, bin, o);
                }
            }
        }
        self.collapsed = kept;
    }

    /// The folders on screen, by position in the tree, in order: every
    /// folder whose ancestors are all expanded, parents before children.
    pub fn rows(&self, tree: &Vec<BinNode>) -> (r: Vec<usize>)
        ensures
            r@.len() == shown_rows(tree@, self.spec_collapsed(), tree@.len() as int).len(),
            forall|i: int|
                0 <= i < r@.len() ==> (#[trigger] r@[i]) as int == shown_rows(
                    tree@,
                    self.spec_collapsed(),
                    tree@.len() as int,
                )[i],
    {
        let ghost c = self.collapsed@;
        let mut visible: Vec<bool> = Vec::new();
        let mut out: Vec<usize> = Vec::new();
        let mut i: usize = 0;
        while i < tree.len()
            invariant
                i <= tree@.len(),
                c == self.collapsed@,
                visible@.len() == i,
                forall|k: int| 0 <= k < i ==> (#[trigger] visible@[k]) == shown(tree@, c, k),
                out@.len() == shown_rows(tree@, c, i as int).len(),
                forall|k: int| 0 <= k < out@.len() ==> (#[trigger] out@[k]) as int == shown_rows(tree@, c, i as int)[k],
            decreases tree@.len() - i,
        {
            let on = if i == 0 {
                true
            } else {
                match find_parent(tree, i) {
                    Some(p) => {
                        proof {
                            let chosen = choose|q: int| is_parent(tree@, i as int, q);
                            if chosen != p {
                                if chosen < p {
                                    assert(tree@[p as int].depth >= tree@[i as int].depth);
                                } else {
                                    assert(tree@[chosen].depth >= tree@[i as int].depth);
                                }
                            }
                        }
                        visible[p] && !holds(&self.collapsed, tree[p].id)
                    },
                    None => true,
                }
            };
            assert(on == shown(tree@, c, i as int));
            let ghost old_out = out@;
            visible.push(on);
            if on {
                out.push(i);
            }
            assert forall|k: int| 0 <= k < out@.len() implies (#[trigger] out@[k]) as int == shown_rows(tree@, c, i + 1 as int)[k] by {
                if k < old_out.len() {
                    assert(out@[k] == old_out[k]);
                }
            }
            i = i + 1;
        }
        out
    }
}

} // verus!
