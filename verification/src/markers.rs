//! Markers on the timeline ruler: what colour each is painted in, and what
//! a gesture on one asks the history to do.
//!
//! `M` drops a marker at the playhead, a drag along the ruler moves it, a
//! double-click renames it and `Delete` removes it; each is one undoable
//! action. Times are whole frames at the sequence's rate, and a marker that
//! covers a span keeps its exact duration when it moves.

use vstd::prelude::*;
use crate::text::{str_eq, trim, trimmed};

verus! {

/// The name a marker dropped from the keyboard starts with.
pub const DEFAULT_MARKER_NAME: &'static str = "Marker";

/// How many swatches the ruler paints markers in.
pub const PALETTE_LEN: usize = 6;

/// A colour, as red, green and blue.
#[derive(Debug, Clone, Copy, PartialEq, Eq, Structural)]
pub struct Rgb {
    /// Red.
    pub r: u8,
    /// Green.
    pub g: u8,
    /// Blue.
    pub b: u8,
}

/// The swatches markers are drawn in: amber, sky, green, violet, orange,
/// teal. They stay apart from the playhead's red and the clip palette.
pub open spec fn palette(i: int) -> Rgb {
    if i == 0 {
        Rgb { r: 240, g: 196, b: 64 }
    } else if i == 1 {
        Rgb { r: 96, g: 190, b: 232 }
    } else if i == 2 {
        Rgb { r: 126, g: 210, b: 128 }
    } else if i == 3 {
        Rgb { r: 198, g: 148, b: 232 }
    } else if i == 4 {
        Rgb { r: 240, g: 152, b: 96 }
    } else {
        Rgb { r: 120, g: 208, b: 200 }
    }
}

/// The swatch at position `i` of the palette.
pub fn palette_color(i: usize) -> (c: Rgb)
    requires
        i < PALETTE_LEN,
    ensures
        c == palette(i as int),
{
    if i == 0 {
        Rgb { r: 240, g: 196, b: 64 }
    } else if i == 1 {
        Rgb { r: 96, g: 190, b: 232 }
    } else if i == 2 {
        Rgb { r: 126, g: 210, b: 128 }
    } else if i == 3 {
        Rgb { r: 198, g: 148, b: 232 }
    } else if i == 4 {
        Rgb { r: 240, g: 152, b: 96 }
    } else {
        Rgb { r: 120, g: 208, b: 200 }
    }
}

/// The swatch a marker is painted in, from the last byte of its identifier:
/// the leading bits of a time-ordered identifier are a timestamp, so markers
/// dropped in one session would otherwise share a swatch.
pub open spec fn swatch_of(id: u128) -> int {
    ((id % 256) % 6) as int
}

/// Markers whose identities differ only in their last byte, as those
/// minted in one session do, reach every swatch of the palette: the one
/// whose last byte is `s` gets swatch `s`.
pub proof fn law_a_session_reaches_every_swatch(id: u128, s: int)
    requires
        0 <= s < PALETTE_LEN,
    ensures
        swatch_of((id - id % 256 + s) as u128) == s,
        0 <= swatch_of(id) < PALETTE_LEN,
{
    let base = id - id % 256;
    assert(base % 256 == 0) by {
        vstd::arithmetic::div_mod::lemma_fundamental_div_mod(id as int, 256);
    }
    assert(0 <= base && base + s <= u128::MAX);
    assert((base + s) % 256 == s) by {
        vstd::arithmetic::div_mod::lemma_mod_add_multiples_vanish(s, 256);
        vstd::arithmetic::div_mod::lemma_fundamental_div_mod(id as int, 256);
        assert(base == 256 * (id as int / 256));
        vstd::arithmetic::div_mod::lemma_mod_multiples_vanish(id as int / 256, s, 256);
    }
}

/// The swatch `id` is painted in, the same on every machine and after every
/// reload.
pub fn marker_color(id: u128) -> (c: Rgb)
    ensures
        c == palette(swatch_of(id)),
{
    let byte = (id % 256) as usize;
    palette_color(byte % PALETTE_LEN)
}

/// A marker as the ruler reads it from the sequence.
pub struct Marker {
    /// Its identity.
    pub id: u128,
    /// Its name.
    pub name: String,
    /// The frame its span starts on.
    pub start: i64,
    /// How many frames it covers; a point marker covers none.
    pub duration: i64,
}

/// The span a marker of `duration` frames takes on when its head is dragged
/// to `start`: the same duration, or a point when that span cannot be held.
pub open spec fn moved_span(duration: i64, start: i64) -> (i64, i64) {
    if duration >= 0 && start + duration <= i64::MAX {
        (start, duration)
    } else {
        (start, 0)
    }
}

/// The span `marker` takes on when its head is dragged to `start`, as
/// (start, duration): a point stays a point and a span keeps its exact
/// duration.
pub fn moved_range(marker: &Marker, start: i64) -> (r: (i64, i64))
    ensures
        r == moved_span(marker.duration, start),
{
    if marker.duration >= 0 && start <= i64::MAX - marker.duration {
        (start, marker.duration)
    } else {
        (start, 0)
    }
}

/// What a gesture on a marker asks the history to do: each is one command.
pub enum MarkerAction {
    /// Drop this new marker on the sequence.
    Add { marker: Marker },
    /// Move a marker to another span, its duration preserved.
    Move { marker: u128, start: i64, duration: i64 },
    /// Give a marker a new name.
    Rename { marker: u128, name: String },
    /// Remove a marker.
    Remove { marker: u128 },
}

impl MarkerAction {
    /// A point marker named `name`, with identity `id`, dropped at `at`.
    pub fn add_at(id: u128, at: i64, name: String) -> (r: MarkerAction)
        ensures
            r matches MarkerAction::Add { marker } && marker.id == id && marker.start == at
                && marker.duration == 0 && marker.name@ == name@,
    {
        MarkerAction::Add { marker: Marker { id, name, start: at, duration: 0 } }
    }

    /// The marker this action touches.
    pub fn marker(&self) -> (r: u128)
        ensures
            r == match *self {
                MarkerAction::Add { marker } => marker.id,
                MarkerAction::Move { marker, .. } => marker,
                MarkerAction::Rename { marker, .. } => marker,
                MarkerAction::Remove { marker } => marker,
            },
    {
        match self {
            MarkerAction::Add { marker } => marker.id,
            MarkerAction::Move { marker, .. } => *marker,
            MarkerAction::Rename { marker, .. } => *marker,
            MarkerAction::Remove { marker } => *marker,
        }
    }
}

/// A drag in progress: the marker, where its head sat when the button went
/// down, and where it sits now.
#[derive(Debug, Clone, Copy, PartialEq, Eq, Structural)]
pub struct Drag {
    /// The marker under the pointer.
    pub marker: u128,
    /// Where its head sat then.
    pub from: i64,
    /// Where it sits now.
    pub to: i64,
}

/// A rename in progress.
pub struct Rename {
    /// The marker being renamed.
    pub marker: u128,
    /// What has been typed so far.
    pub name: String,
    /// Whether the editor has yet to take the keyboard, so the seeded name
    /// is still selected whole.
    pub fresh: bool,
}

/// The index of the marker with identity `id` in `s`, if it is there.
pub open spec fn marker_with(s: Seq<Marker>, id: u128) -> Option<int> {
    if exists|k: int| 0 <= k < s.len() && s[k].id == id {
        Some(choose|k: int| 0 <= k < s.len() && s[k].id == id && forall|j: int| 0 <= j < k ==> s[j].id != id)
    } else {
        None
    }
}

/// The ruler's own marker state: what is selected, dragged and renamed.
pub struct MarkerState {
    selected: Option<u128>,
    drag: Option<Drag>,
    rename: Option<Rename>,
}

/// Whether `ids` holds `id`.
pub open spec fn has_id(ids: Seq<u128>, id: u128) -> bool {
    ids.contains(id)
}

impl MarkerState {
    /// The selected marker.
    pub closed spec fn spec_selected(&self) -> Option<u128> {
        self.selected
    }

    /// The drag in progress.
    pub closed spec fn spec_drag(&self) -> Option<Drag> {
        self.drag
    }

    /// The marker being renamed and what has been typed.
    pub closed spec fn spec_rename(&self) -> Option<(u128, Seq<char>, bool)> {
        match self.rename {
            Some(r) => Some((r.marker, r.name@, r.fresh)),
            None => None,
        }
    }

    /// A ruler with nothing selected, dragged or being renamed.
    pub fn new() -> (r: MarkerState)
        ensures
            r.spec_selected() is None,
            r.spec_drag() is None,
            r.spec_rename() is None,
    {
        MarkerState { selected: None, drag: None, rename: None }
    }

    /// The selected marker, if one is.
    pub fn selected(&self) -> (r: Option<u128>)
        ensures
            r == self.spec_selected(),
    {
        self.selected
    }

    /// Selects `marker`, or clears the selection with `None`.
    pub fn select(&mut self, marker: Option<u128>)
        ensures
            final(self).spec_selected() == marker,
            final(self).spec_drag() == old(self).spec_drag(),
            final(self).spec_rename() == old(self).spec_rename(),
    {
        self.selected = marker;
    }

    /// The marker being dragged, if one is.
    pub fn dragging(&self) -> (r: Option<u128>)
        ensures
            r == match self.spec_drag() {
                Some(d) => Some(d.marker),
                None => None::<u128>,
            },
    {
        match self.drag {
            Some(d) => Some(d.marker),
            None => None,
        }
    }

    /// Where the marker being dragged is shown, which is not yet where the
    /// project has it.
    pub fn drag_time(&self) -> (r: Option<i64>)
        ensures
            r == match self.spec_drag() {
                Some(d) => Some(d.to),
                None => None::<i64>,
            },
    {
        match self.drag {
            Some(d) => Some(d.to),
            None => None,
        }
    }

    /// The marker whose name is being edited, if one is.
    pub fn renaming(&self) -> (r: Option<u128>)
        ensures
            r == match self.spec_rename() {
                Some(t) => Some(t.0),
                None => None::<u128>,
            },
    {
        match &self.rename {
            Some(r) => Some(r.marker),
            None => None,
        }
    }

    /// What has been typed into the rename editor so far.
    pub fn rename_text(&self) -> (r: Option<&str>)
        ensures
            match r {
                Some(s) => self.spec_rename() matches Some(t) && s@ == t.1,
                None => self.spec_rename() is None,
            },
    {
        match &self.rename {
            Some(r) => Some(r.name.as_str()),
            None => None,
        }
    }

    /// Starts dragging `marker`, whose head sits at `from`; it becomes the
    /// selection.
    pub fn begin_drag(&mut self, marker: u128, from: i64)
        ensures
            final(self).spec_selected() == Some(marker),
            final(self).spec_drag() == Some(Drag { marker, from, to: from }),
            final(self).spec_rename() == old(self).spec_rename(),
    {
        self.selected = Some(marker);
        self.drag = Some(Drag { marker, from, to: from });
    }

    /// Moves the drag in progress to `to`.
    pub fn drag_to(&mut self, to: i64)
        ensures
            final(self).spec_drag() == match old(self).spec_drag() {
                Some(d) => Some(Drag { to, ..d }),
                None => None::<Drag>,
            },
            final(self).spec_selected() == old(self).spec_selected(),
            final(self).spec_rename() == old(self).spec_rename(),
    {
        match self.drag {
            Some(d) => {
                self.drag = Some(Drag { marker: d.marker, from: d.from, to });
            },
            None => {},
        }
    }

    /// Ends the drag and returns the move it asks for, given the sequence's
    /// markers. A drag that ends where it began is not an edit, and a
    /// marker the sequence has lost moves nowhere.
    pub fn end_drag(&mut self, markers: &[Marker]) -> (r: Option<MarkerAction>)
        ensures
            final(self).spec_drag() is None,
            final(self).spec_selected() == old(self).spec_selected(),
            final(self).spec_rename() == old(self).spec_rename(),
            match old(self).spec_drag() {
                None => r is None,
                Some(d) => if d.to == d.from {
                    r is None
                } else {
                    match marker_with(markers@, d.marker) {
                        None => r is None,
                        Some(k) => r matches Some(MarkerAction::Move { marker, start, duration })
                            && marker == d.marker && (start, duration) == moved_span(
                            markers@[k].duration,
                            d.to,
                        ),
                    }
                },
            },
    {
        let d = match self.drag {
            Some(d) => d,
            None => {
                return None;
            },
        };
        self.drag = None;
        if d.to == d.from {
            return None;
        }
        let mut i: usize = 0;
        while i < markers.len()
            invariant
                i <= markers@.len(),
                forall|j: int| 0 <= j < i ==> (#[trigger] markers@[j]).id != d.marker,
                self.spec_drag() is None,
                self.spec_selected() == old(self).spec_selected(),
                self.spec_rename() == old(self).spec_rename(),
                old(self).spec_drag() == Some(d),
                d.to != d.from,
            decreases markers@.len() - i,
        {
            if markers[i].id == d.marker {
                let (start, duration) = moved_range(&markers[i], d.to);
                proof {
                    let s = markers@;
                    assert(s[i as int].id == d.marker);
                    let k = choose|k: int|
                        0 <= k < s.len() && s[k].id == d.marker && forall|j: int|
                            0 <= j < k ==> s[j].id != d.marker;
                    assert(k == i);
                }
                return Some(MarkerAction::Move { marker: d.marker, start, duration });
            }
            i = i + 1;
        }
        None
    }

    /// Abandons the drag in progress without moving anything.
    pub fn cancel_drag(&mut self)
        ensures
            final(self).spec_drag() is None,
            final(self).spec_selected() == old(self).spec_selected(),
            final(self).spec_rename() == old(self).spec_rename(),
    {
        self.drag = None;
    }

    /// Opens the rename editor over `marker`, seeded with `name`; it becomes
    /// the selection.
    pub fn begin_rename(&mut self, marker: u128, name: String)
        ensures
            final(self).spec_selected() == Some(marker),
            final(self).spec_rename() == Some((marker, name@, true)),
            final(self).spec_drag() == old(self).spec_drag(),
    {
        self.selected = Some(marker);
        self.rename = Some(Rename { marker, name, fresh: true });
    }

    /// Closes the rename editor, discarding what was typed.
    pub fn cancel_rename(&mut self)
        ensures
            final(self).spec_rename() is None,
            final(self).spec_selected() == old(self).spec_selected(),
            final(self).spec_drag() == old(self).spec_drag(),
    {
        self.rename = None;
    }

    /// Replaces what has been typed, as the editor widget does.
    pub fn set_rename_text(&mut self, text: String)
        ensures
            final(self).spec_rename() == match old(self).spec_rename() {
                Some(t) => Some((t.0, text@, t.2)),
                None => None::<(u128, Seq<char>, bool)>,
            },
            final(self).spec_selected() == old(self).spec_selected(),
            final(self).spec_drag() == old(self).spec_drag(),
    {
        match &mut self.rename {
            Some(r) => {
                r.name = text;
            },
            None => {},
        }
    }

    /// Whether the rename editor has yet to take the keyboard.
    pub fn rename_is_fresh(&self) -> (r: bool)
        ensures
            r == (self.spec_rename() matches Some(t) && t.2),
    {
        match &self.rename {
            Some(r) => r.fresh,
            None => false,
        }
    }

    /// Records that the rename editor now holds the keyboard.
    pub fn rename_focused(&mut self)
        ensures
            final(self).spec_rename() == match old(self).spec_rename() {
                Some(t) => Some((t.0, t.1, false)),
                None => None::<(u128, Seq<char>, bool)>,
            },
            final(self).spec_selected() == old(self).spec_selected(),
            final(self).spec_drag() == old(self).spec_drag(),
    {
        match &mut self.rename {
            Some(r) => {
                r.fresh = false;
            },
            None => {},
        }
    }

    /// Closes the rename editor and returns the rename it asks for, given
    /// the marker's current name: the typed name, trimmed, unless it is
    /// empty or unchanged, which is no edit at all.
    pub fn commit_rename(&mut self, current: &str) -> (r: Option<MarkerAction>)
        ensures
            final(self).spec_rename() is None,
            final(self).spec_selected() == old(self).spec_selected(),
            final(self).spec_drag() == old(self).spec_drag(),
            match old(self).spec_rename() {
                None => r is None,
                Some(t) => if trim(t.1).len() == 0 || trim(t.1) == current@ {
                    r is None
                } else {
                    r matches Some(MarkerAction::Rename { marker, name }) && marker == t.0 && name@
                        == trim(t.1)
                },
            },
    {
        let rename = match self.rename.take() {
            Some(r) => r,
            None => {
                return None;
            },
        };
        let name = trimmed(rename.name.as_str());
        if name.as_str().unicode_len() == 0 || str_eq(name.as_str(), current) {
            return None;
        }
        Some(MarkerAction::Rename { marker: rename.marker, name })
    }

    /// Removes the selected marker, unless a name is being typed. The
    /// selection and any drag go at once, so a second `Delete` cannot ask to
    /// remove the marker again.
    pub fn remove_selected(&mut self) -> (r: Option<MarkerAction>)
        ensures
            old(self).spec_rename() is Some ==> r is None && final(self).spec_selected() == old(
                self,
            ).spec_selected() && final(self).spec_drag() == old(self).spec_drag(),
            old(self).spec_rename() is None ==> match old(self).spec_selected() {
                Some(m) => (r matches Some(MarkerAction::Remove { marker }) && marker == m)
                    && final(self).spec_selected() is None && final(self).spec_drag() is None,
                None => r is None && final(self).spec_drag() == old(self).spec_drag()
                    && final(self).spec_selected() is None,
            },
            final(self).spec_rename() == old(self).spec_rename(),
    {
        if self.rename.is_some() {
            return None;
        }
        let marker = match self.selected.take() {
            Some(m) => m,
            None => {
                return None;
            },
        };
        self.drag = None;
        Some(MarkerAction::Remove { marker })
    }

    /// Drops any selection, drag or rename naming a marker the sequence no
    /// longer holds; `present` are the identities it holds.
    pub fn retain(&mut self, present: &[u128])
        ensures
            final(self).spec_selected() == match old(self).spec_selected() {
                Some(m) => if present@.contains(m) {
                    Some(m)
                } else {
                    None::<u128>
                },
                None => None::<u128>,
            },
            final(self).spec_drag() == match old(self).spec_drag() {
                Some(d) => if present@.contains(d.marker) {
                    Some(d)
                } else {
                    None::<Drag>
                },
                None => None::<Drag>,
            },
            final(self).spec_rename() == match old(self).spec_rename() {
                Some(t) => if present@.contains(t.0) {
                    Some(t)
                } else {
                    None::<(u128, Seq<char>, bool)>
                },
                None => None::<(u128, Seq<char>, bool)>,
            },
    {
        match self.selected {
            Some(m) => {
                if !holds(present, m) {
                    self.selected = None;
                }
            },
            None => {},
        }
        match self.drag {
            Some(d) => {
                if !holds(present, d.marker) {
                    self.drag = None;
                }
            },
            None => {},
        }
        let drop_rename = match &self.rename {
            Some(r) => !holds(present, r.marker),
            None => false,
        };
        if drop_rename {
            self.rename = None;
        }
    }
}

/// Whether `ids` holds `id`.
fn holds(ids: &[u128], id: u128) -> (r: bool)
    ensures
        r == ids@.contains(id),
{
    let mut i: usize = 0;
    while i < ids.len()
        invariant
            i <= ids@.len(),
            forall|j: int| 0 <= j < i ==> ids@[j] != id,
        decreases ids@.len() - i,
    {
        if ids[i] == id {
            assert(ids@[i as int] == id);
            return true;
        }
        i = i + 1;
    }
    false
}

} // verus!
