//! Dragging a clip's fade handles.
//!
//! A fade is a length on the clip, so dragging a handle becomes one new
//! fade length. The timeline hands the drag over as an exact offset at the
//! sequence timebase and gets back the length it means.
//!
//! A fade cannot be longer than what is left of the clip beside the other
//! fade, and it cannot be negative. Both ends are clamped rather than
//! refused; refusals are for drags that were never legal at all: a locked
//! track, or a clip that has left the sequence.

use vstd::prelude::*;
use vstd::string::*;
use crate::problem::{concat, details_view, Problem, CLIP_FADE_REFUSED};

verus! {

/// Which of a clip's two fades a drag has hold of.
#[derive(Debug, Clone, Copy, PartialEq, Eq, Structural)]
pub enum FadeEdge {
    /// The head: the clip ramps up from nothing.
    In,
    /// The tail: the clip ramps down to nothing.
    Out,
}

impl FadeEdge {
    /// A stable identifier, for logging and for tests.
    pub fn id(self) -> (r: &'static str)
        ensures
            r@ == match self {
                FadeEdge::In => "in"@,
                FadeEdge::Out => "out"@,
            },
    {
        match self {
            FadeEdge::In => "in",
            FadeEdge::Out => "out",
        }
    }

    /// The history label a drag on this handle produces.
    pub fn undo_label(self) -> (r: &'static str)
        ensures
            r@ == match self {
                FadeEdge::In => "Change fade in"@,
                FadeEdge::Out => "Change fade out"@,
            },
    {
        match self {
            FadeEdge::In => "Change fade in",
            FadeEdge::Out => "Change fade out",
        }
    }

    /// The other handle of the same clip.
    pub fn other(self) -> (r: FadeEdge)
        ensures
            r != self,
    {
        match self {
            FadeEdge::In => FadeEdge::Out,
            FadeEdge::Out => FadeEdge::In,
        }
    }
}

/// Why a fade drag cannot become an edit at all.
#[derive(Debug, Clone, Copy, PartialEq, Eq, Structural)]
pub enum FadeRefusal {
    /// The clip is on a locked track.
    LockedTrack,
    /// The clip is no longer in the sequence.
    UnknownClip,
    /// The arithmetic of the fade overflowed, which no real edit does.
    OutOfRange,
}

/// A refusal's stable identifier.
pub open spec fn refusal_id(r: FadeRefusal) -> Seq<char> {
    match r {
        FadeRefusal::LockedTrack => "locked_track"@,
        FadeRefusal::UnknownClip => "unknown_clip"@,
        FadeRefusal::OutOfRange => "out_of_range"@,
    }
}

/// A refusal's sentence.
pub open spec fn refusal_message(r: FadeRefusal) -> Seq<char> {
    match r {
        FadeRefusal::LockedTrack => "a locked track's clips cannot be faded"@,
        FadeRefusal::UnknownClip => "the faded clip is no longer in the sequence"@,
        FadeRefusal::OutOfRange => "the fade is too long to represent"@,
    }
}

impl FadeRefusal {
    /// A stable identifier, for logging and for tests.
    pub fn id(self) -> (r: &'static str)
        ensures
            r@ == refusal_id(self),
    {
        match self {
            FadeRefusal::LockedTrack => "locked_track",
            FadeRefusal::UnknownClip => "unknown_clip",
            FadeRefusal::OutOfRange => "out_of_range",
        }
    }

    /// One sentence saying what is wrong, for the error and the tooltip.
    pub fn message(self) -> (r: &'static str)
        ensures
            r@ == refusal_message(self),
    {
        match self {
            FadeRefusal::LockedTrack => "a locked track's clips cannot be faded",
            FadeRefusal::UnknownClip => "the faded clip is no longer in the sequence",
            FadeRefusal::OutOfRange => "the fade is too long to represent",
        }
    }

    /// This refusal as a problem carrying `ui.clip_fade_refused` and the
    /// refusal's id as its `reason`.
    pub fn to_problem(self) -> (r: Problem)
        ensures
            r.code@ == CLIP_FADE_REFUSED@,
            r.message@ == refusal_message(self),
            details_view(r.details@) == seq![("reason"@, refusal_id(self))],
    {
        let p = Problem::new(CLIP_FADE_REFUSED, self.message().to_string()).with_detail(
            "reason",
            self.id(),
        );
        assert(details_view(p.details@) =~= seq![("reason"@, refusal_id(self))]);
        p
    }
}

/// A clip as the fade handles see it, every length in frames at the
/// sequence timebase.
#[derive(Debug, Clone, Copy, PartialEq, Eq, Structural)]
pub struct ClipSpan {
    /// The clip's identity.
    pub clip: u64,
    /// Where the clip starts on the track.
    pub start: i64,
    /// How long the clip is on the track.
    pub length: i64,
    /// Its fade in.
    pub fade_in: i64,
    /// Its fade out.
    pub fade_out: i64,
}

/// A track's clips, and whether the track refuses edits.
pub struct TrackClips {
    /// The track's identity.
    pub id: u64,
    /// Whether the track is locked.
    pub locked: bool,
    /// The clips on the track, in order.
    pub clips: Vec<ClipSpan>,
}

/// One fade drag reduced to the edit it will commit.
#[derive(Debug, Clone, Copy, PartialEq, Eq, Structural)]
pub struct FadeEdit {
    /// The track of the clip whose handle is dragged.
    pub track: u64,
    /// The clip whose handle is dragged.
    pub clip: u64,
    /// The handle being dragged.
    pub edge: FadeEdge,
    /// How long the fade is afterwards.
    pub duration: i64,
    /// Where the clip starts, for painting the ramp.
    pub start: i64,
    /// How long the clip is, for painting the ramp.
    pub length: i64,
}

impl FadeEdit {
    /// The label the history entry gets.
    pub fn label(&self) -> (r: &'static str)
        ensures
            r@ == match self.edge {
                FadeEdge::In => "Change fade in"@,
                FadeEdge::Out => "Change fade out"@,
            },
    {
        self.edge.undo_label()
    }
}

/// Whether `x` fits an `i64`.
pub open spec fn fits(x: int) -> bool {
    i64::MIN <= x <= i64::MAX
}

/// The fade length a drag of `delta` on `edge` asks for, clamped to the
/// room left beside `other` in a clip `length` long; `None` when nothing
/// changes.
pub open spec fn fade_after(current: int, other: int, length: int, edge: FadeEdge, delta: int) -> Result<
    Option<int>,
    FadeRefusal,
> {
    let wanted = match edge {
        FadeEdge::In => current + delta,
        FadeEdge::Out => current - delta,
    };
    let room = length - other;
    if !fits(wanted) || !fits(room) {
        Err(FadeRefusal::OutOfRange)
    } else {
        let room = if room < 0 { 0 } else { room };
        let floor = if wanted < 0 { 0 } else { wanted };
        let duration = if floor < room { floor } else { room };
        if duration == current {
            Ok(None)
        } else {
            Ok(Some(duration))
        }
    }
}

/// The length a fade drag gives, by exact checked arithmetic.
pub fn fade_length(current: i64, other: i64, length: i64, edge: FadeEdge, delta: i64) -> (r: Result<
    Option<i64>,
    FadeRefusal,
>)
    ensures
        match r {
            Ok(Some(d)) => fade_after(
                current as int,
                other as int,
                length as int,
                edge,
                delta as int,
            ) == Ok::<Option<int>, FadeRefusal>(Some(d as int)),
            Ok(None) => fade_after(current as int, other as int, length as int, edge, delta as int)
                == Ok::<Option<int>, FadeRefusal>(None),
            Err(e) => fade_after(current as int, other as int, length as int, edge, delta as int)
                == Err::<Option<int>, FadeRefusal>(e),
        },
{
    let wanted = match edge {
        FadeEdge::In => current.checked_add(delta),
        FadeEdge::Out => current.checked_sub(delta),
    };
    let wanted = match wanted {
        Some(w) => w,
        None => {
            return Err(FadeRefusal::OutOfRange);
        },
    };
    let room = match length.checked_sub(other) {
        Some(r) => r,
        None => {
            return Err(FadeRefusal::OutOfRange);
        },
    };
    let room = if room < 0 { 0 } else { room };
    let floor = if wanted < 0 { 0 } else { wanted };
    let duration = if floor < room { floor } else { room };
    if duration == current {
        Ok(None)
    } else {
        Ok(Some(duration))
    }
}

/// The first track of `tracks` whose id is `id`.
pub open spec fn find_track(tracks: Seq<TrackClips>, id: u64) -> Option<TrackClips>
    decreases tracks.len(),
{
    if tracks.len() == 0 {
        None
    } else if tracks[0].id == id {
        Some(tracks[0])
    } else {
        find_track(tracks.drop_first(), id)
    }
}

/// The first clip of `clips` whose id is `id`.
pub open spec fn find_clip(clips: Seq<ClipSpan>, id: u64) -> Option<ClipSpan>
    decreases clips.len(),
{
    if clips.len() == 0 {
        None
    } else if clips[0].clip == id {
        Some(clips[0])
    } else {
        find_clip(clips.drop_first(), id)
    }
}

/// What dragging `edge` of clip `clip` on track `track` by `delta` does.
pub open spec fn spec_plan_fade(
    tracks: Seq<TrackClips>,
    track: u64,
    clip: u64,
    edge: FadeEdge,
    delta: int,
) -> Result<Option<FadeEdit>, FadeRefusal> {
    match find_track(tracks, track) {
        None => Err(FadeRefusal::UnknownClip),
        Some(t) => if t.locked {
            Err(FadeRefusal::LockedTrack)
        } else {
            match find_clip(t.clips@, clip) {
                None => Err(FadeRefusal::UnknownClip),
                Some(c) => {
                    let (current, other) = match edge {
                        FadeEdge::In => (c.fade_in, c.fade_out),
                        FadeEdge::Out => (c.fade_out, c.fade_in),
                    };
                    match fade_after(current as int, other as int, c.length as int, edge, delta) {
                        Err(e) => Err(e),
                        Ok(None) => Ok(None),
                        Ok(Some(d)) => Ok(
                            Some(
                                FadeEdit {
                                    track,
                                    clip,
                                    edge,
                                    duration: d as i64,
                                    start: c.start,
                                    length: c.length,
                                },
                            ),
                        ),
                    }
                },
            }
        },
    }
}

fn track_by_id<'a>(tracks: &'a [TrackClips], id: u64) -> (r: Option<&'a TrackClips>)
    ensures
        match r {
            Some(t) => find_track(tracks@, id) == Some(*t),
            None => find_track(tracks@, id) is None,
        },
{
    let mut i: usize = 0;
    assert(tracks@.subrange(0, tracks@.len() as int) =~= tracks@);
    while i < tracks.len()
        invariant
            i <= tracks@.len(),
            find_track(tracks@, id) == find_track(
                tracks@.subrange(i as int, tracks@.len() as int),
                id,
            ),
        decreases tracks@.len() - i,
    {
        assert(tracks@.subrange(i as int, tracks@.len() as int).drop_first() =~= tracks@.subrange(
            i + 1 as int,
            tracks@.len() as int,
        ));
        if tracks[i].id == id {
            return Some(&tracks[i]);
        }
        i = i + 1;
    }
    None
}

fn clip_by_id(clips: &[ClipSpan], id: u64) -> (r: Option<ClipSpan>)
    ensures
        r == find_clip(clips@, id),
{
    let mut i: usize = 0;
    assert(clips@.subrange(0, clips@.len() as int) =~= clips@);
    while i < clips.len()
        invariant
            i <= clips@.len(),
            find_clip(clips@, id) == find_clip(clips@.subrange(i as int, clips@.len() as int), id),
        decreases clips@.len() - i,
    {
        assert(clips@.subrange(i as int, clips@.len() as int).drop_first() =~= clips@.subrange(
            i + 1 as int,
            clips@.len() as int,
        ));
        if clips[i].clip == id {
            return Some(clips[i]);
        }
        i = i + 1;
    }
    None
}

/// Works out what dragging `edge` of clip `clip` on track `track` by
/// `delta` would do.
///
/// `delta` is positive to the right on the timeline for both handles:
/// dragging right lengthens a fade in and shortens a fade out. The result is
/// clamped to the clip, and a drag that changes nothing yields `Ok(None)`
/// rather than an edit, so wobbling a pixel inside the handle does not push
/// an undo step.
pub fn plan_fade(tracks: &[TrackClips], track: u64, clip: u64, edge: FadeEdge, delta: i64) -> (r:
    Result<Option<FadeEdit>, FadeRefusal>)
    ensures
        r == spec_plan_fade(tracks@, track, clip, edge, delta as int),
{
    let t = match track_by_id(tracks, track) {
        Some(t) => t,
        None => {
            return Err(FadeRefusal::UnknownClip);
        },
    };
    if t.locked {
        return Err(FadeRefusal::LockedTrack);
    }
    let c = match clip_by_id(t.clips.as_slice(), clip) {
        Some(c) => c,
        None => {
            return Err(FadeRefusal::UnknownClip);
        },
    };
    let (current, other) = match edge {
        FadeEdge::In => (c.fade_in, c.fade_out),
        FadeEdge::Out => (c.fade_out, c.fade_in),
    };
    match fade_length(current, other, c.length, edge, delta) {
        Err(e) => Err(e),
        Ok(None) => Ok(None),
        Ok(Some(d)) => Ok(
            Some(FadeEdit { track, clip, edge, duration: d, start: c.start, length: c.length }),
        ),
    }
}

/// A planned fade never goes negative and always leaves room for the fade
/// at the other end of the clip, when the two fit the clip at all.
pub proof fn law_fade_stays_in_the_clip(
    current: int,
    other: int,
    length: int,
    edge: FadeEdge,
    delta: int,
    d: int,
)
    requires
        fade_after(current, other, length, edge, delta) == Ok::<Option<int>, FadeRefusal>(Some(d)),
    ensures
        d >= 0,
        other <= length ==> d + other <= length,
        d != current,
{
}

/// A fade clamped by the inspector: `wanted` frames, cut to what is left of
/// a clip `length` long beside `other`, and never negative.
pub open spec fn spec_clamped_fade(wanted: int, length: int, other: int) -> int {
    let room = if fits(length - other) { length - other } else { 0 };
    if room < 0 {
        0
    } else if wanted < 0 {
        0
    } else if wanted > room {
        room
    } else {
        wanted
    }
}

/// `wanted` frames of fade, clamped to what is left of the clip beside the
/// fade at its other end.
pub fn clamped_fade(wanted: i64, length: i64, other: i64) -> (r: i64)
    ensures
        r == spec_clamped_fade(wanted as int, length as int, other as int),
{
    let room = match length.checked_sub(other) {
        Some(room) => room,
        None => 0,
    };
    if room < 0 {
        0
    } else if wanted < 0 {
        0
    } else if wanted > room {
        room
    } else {
        wanted
    }
}


/// A fade set from the inspector always fits beside the fade at the other
/// end of the clip: it is never negative, the two together never outlast
/// the clip, and a length that already fits is kept as asked.
pub proof fn law_a_set_fade_fits_beside_the_other(wanted: i64, length: i64, other: i64)
    requires
        0 <= other <= length,
    ensures
        0 <= spec_clamped_fade(wanted as int, length as int, other as int),
        spec_clamped_fade(wanted as int, length as int, other as int) + other <= length,
        0 <= wanted <= length - other ==> spec_clamped_fade(wanted as int, length as int, other as int)
            == wanted,
{
}

/// Dragging a fade handle moves the fade by the distance dragged: right
/// lengthens a fade in and shortens a fade out, left the other way round,
/// whenever the new length still fits beside the other fade.
pub proof fn law_a_drag_moves_the_fade_by_its_distance(
    current: i64,
    other: i64,
    length: i64,
    edge: FadeEdge,
    delta: i64,
)
    requires
        0 <= other <= length,
        0 <= (match edge {
            FadeEdge::In => current + delta,
            FadeEdge::Out => current - delta,
        }) <= length - other,
    ensures
        fade_after(current as int, other as int, length as int, edge, delta as int) == if delta == 0 {
            Ok::<Option<int>, FadeRefusal>(None)
        } else {
            Ok::<Option<int>, FadeRefusal>(
                Some(
                    match edge {
                        FadeEdge::In => current + delta,
                        FadeEdge::Out => current - delta,
                    },
                ),
            )
        },
{
}

/// On a clip of an unlocked track, a drag of the head handle plans a fade
/// in of the current one plus the distance dragged, and a drag of the tail
/// handle a fade out of the current one minus it, whenever that fits.
pub proof fn law_a_planned_fade_follows_the_drag(
    tracks: Seq<TrackClips>,
    track: u64,
    clip: u64,
    edge: FadeEdge,
    delta: i64,
    t: TrackClips,
    c: ClipSpan,
)
    requires
        find_track(tracks, track) == Some(t),
        !t.locked,
        find_clip(t.clips@, clip) == Some(c),
        0 <= c.fade_in <= c.length,
        0 <= c.fade_out <= c.length,
        delta != 0,
        match edge {
            FadeEdge::In => 0 <= c.fade_in + delta <= c.length - c.fade_out,
            FadeEdge::Out => 0 <= c.fade_out - delta <= c.length - c.fade_in,
        },
    ensures
        spec_plan_fade(tracks, track, clip, edge, delta as int) matches Ok(Some(e)) && e.duration == (
        match edge {
            FadeEdge::In => c.fade_in + delta,
            FadeEdge::Out => c.fade_out - delta,
        }) && e.edge == edge && e.clip == clip && e.track == track,
{
    let (current, other) = match edge {
        FadeEdge::In => (c.fade_in, c.fade_out),
        FadeEdge::Out => (c.fade_out, c.fade_in),
    };
    law_a_drag_moves_the_fade_by_its_distance(current, other, c.length, edge, delta);
}

} // verus!
