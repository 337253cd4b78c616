//! Live timeline audio: which windows of decoded sound playback asks for
//! around the playhead, which cached window plays each clip, and the state
//! that keeps decoding bounded.
//!
//! Sound is decoded in windows of a few seconds laid on a fixed grid, so a
//! playhead moving forward asks for the same windows again rather than a new
//! one every frame. Decoding runs on a worker and mixing on the audio
//! callback, both the caller's; [`PlaybackAudio`] is told what they did and
//! says what to do next. Every count here is in samples at the output rate.

use vstd::prelude::*;
use crate::media_bin::MediaTime;

verus! {

/// How many seconds one decoded window holds.
pub const WINDOW_SECONDS: u64 = 4;

/// The grid windows are laid on, in seconds.
pub const STEP_SECONDS: u64 = 2;

/// How many samples the window cache may hold at once.
pub const MAX_CACHE_SAMPLES: usize = 16777216;

/// `a + b`, or the largest `u64` when that overflows.
pub open spec fn sat_add(a: u64, b: u64) -> u64 {
    if a + b > u64::MAX { u64::MAX } else { (a + b) as u64 }
}

/// `a - b`, or zero when that would be negative.
pub open spec fn sat_sub(a: u64, b: u64) -> u64 {
    if a < b { 0 } else { (a - b) as u64 }
}

/// Whether a clip spanning `length` samples from `start` is under the
/// playhead at `frame`, or will be within one grid step.
pub open spec fn slot_near(frame: u64, rate: u64, start: u64, length: u64) -> bool {
    frame < sat_add(start, length) && sat_add(frame, (rate * STEP_SECONDS) as u64) >= start
}

/// Whether a clip is under the playhead or about to be.
pub fn clip_is_near(frame: u64, rate: u64, start: u64, length: u64) -> (r: bool)
    requires
        rate <= u32::MAX,
    ensures
        r == slot_near(frame, rate, start, length),
{
    let end = start.saturating_add(length);
    frame < end && frame.saturating_add(rate * STEP_SECONDS) >= start
}

/// The sample of a clip's source under the playhead at `frame`, for a clip
/// placed at `start` that begins `source_start` samples into its source; a
/// negative or overflowing source start reads as the largest position.
pub open spec fn source_at(source_start: i64, frame: u64, start: u64) -> u64 {
    let base: u64 = if source_start < 0 { u64::MAX } else { source_start as u64 };
    sat_add(base, sat_sub(frame, start))
}

/// The sample of the source under the playhead.
pub fn source_position(source_start: i64, frame: u64, start: u64) -> (r: u64)
    ensures
        r == source_at(source_start, frame, start),
{
    let base: u64 = if source_start < 0 { u64::MAX } else { source_start as u64 };
    base.saturating_add(frame.saturating_sub(start))
}

/// The windows wanted for a clip whose source is at `source`: the grid
/// window holding it, started a tenth of a second early, and the next one
/// too once the source is within a second of the next grid line.
pub open spec fn wanted_windows(source: u64, rate: u64) -> (u64, Option<u64>) {
    let step = (rate * STEP_SECONDS) as int;
    let grid = (source as int / step) * step;
    let first = sat_sub(grid as u64, rate / 10);
    if sat_add(source, rate) >= grid + step {
        (first, Some(sat_sub((grid + step) as u64, rate / 10)))
    } else {
        (first, None)
    }
}

/// Whether the grid line after the one at or before `source` is a
/// sample position at all.
pub open spec fn grid_fits(source: u64, rate: u64) -> bool {
    let step = (rate * STEP_SECONDS) as int;
    (source as int / step) * step + step <= u64::MAX
}

/// The starts of the windows to request for a clip whose source is at
/// `source`.
pub fn window_starts(source: u64, rate: u64) -> (r: (u64, Option<u64>))
    requires
        0 < rate <= u32::MAX,
        grid_fits(source, rate),
    ensures
        r == wanted_windows(source, rate),
{
    let step = rate * STEP_SECONDS;
    let q = source / step;
    assert(q * step <= source) by (nonlinear_arith)
        requires
            q == source / step,
            step > 0,
    ;
    let grid = q * step;
    let first = grid.saturating_sub(rate / 10);
    if source.saturating_add(rate) >= grid + step {
        (first, Some((grid + step).saturating_sub(rate / 10)))
    } else {
        (first, None)
    }
}

/// Whether the cached window starting at `key_start` holds the source
/// sample `source`: past the early tenth of a second the window was started
/// with, and before its end.
pub open spec fn window_holds(key_start: u64, source: u64, rate: u64) -> bool {
    sat_add(key_start, if key_start == 0 { 0 } else { (rate / 10) as u64 }) <= source && source
        < key_start + WINDOW_SECONDS * rate
}

/// The first window playback asks for around a playhead holds the sample
/// under it, so a clip starts sounding as soon as that window is decoded.
pub proof fn law_the_first_window_holds_the_playhead(source: u64, rate: u64)
    requires
        0 < rate <= u32::MAX,
    ensures
        window_holds(wanted_windows(source, rate).0, source, rate),
{
    let step = (rate * STEP_SECONDS) as int;
    assert(step == 2 * rate);
    let q = source as int / step;
    let grid = q * step;
    vstd::arithmetic::div_mod::lemma_fundamental_div_mod(source as int, step);
    assert(grid <= source < grid + step) by (nonlinear_arith)
        requires
            source as int == step * q + source as int % step,
            0 <= source as int % step < step,
            grid == q * step,
    ;
    assert(q >= 0) by (nonlinear_arith)
        requires
            source >= 0,
            step > 0,
            q == source as int / step,
    ;
    assert(grid >= 0) by (nonlinear_arith)
        requires
            q >= 0,
            step > 0,
            grid == q * step,
    ;
}

/// Whether a cached window holds the sample playing now.
pub fn window_covers(key_start: u64, source: u64, rate: u64) -> (r: bool)
    requires
        rate <= u32::MAX,
    ensures
        r == window_holds(key_start, source, rate),
{
    let lead = if key_start == 0 { 0 } else { rate / 10 };
    let width: u64 = WINDOW_SECONDS * rate;
    let end: u128 = key_start as u128 + width as u128;
    key_start.saturating_add(lead) <= source && (source as u128) < end
}

/// The cached window that plays a clip now: the latest-starting one that
/// holds the source sample, among `starts`.
pub fn pick_window(starts: &[u64], source: u64, rate: u64) -> (r: Option<u64>)
    requires
        rate <= u32::MAX,
    ensures
        match r {
            Some(k) => starts@.contains(k) && window_holds(k, source, rate) && forall|i: int|
                0 <= i < starts@.len() && window_holds(#[trigger] starts@[i], source, rate) ==> starts@[i] <= k,
            None => forall|i: int| 0 <= i < starts@.len() ==> !window_holds(#[trigger] starts@[i], source, rate),
        },
{
    let mut best: Option<u64> = None;
    let mut i: usize = 0;
    while i < starts.len()
        invariant
            i <= starts@.len(),
            rate <= u32::MAX,
            match best {
                Some(k) => starts@.contains(k) && window_holds(k, source, rate) && forall|j: int|
                    0 <= j < i && window_holds(#[trigger] starts@[j], source, rate) ==> starts@[j] <= k,
                None => forall|j: int| 0 <= j < i ==> !window_holds(#[trigger] starts@[j], source, rate),
            },
        decreases starts@.len() - i,
    {
        let s = starts[i];
        if window_covers(s, source, rate) {
            best = match best {
                Some(k) => if s > k { Some(s) } else { Some(k) },
                None => Some(s),
            };
            assert(starts@[i as int] == s);
        }
        i = i + 1;
    }
    best
}

/// Whether decoding one more window would take the cache past its limit,
/// given the samples it holds and the windows already being decoded.
pub open spec fn over_budget(held: usize, pending: usize, rate: u64) -> bool {
    let window = 2 * WINDOW_SECONDS * rate;
    held + pending * window + window > MAX_CACHE_SAMPLES
}

/// Whether a new window would overflow the cache.
pub fn cache_full(held: usize, pending: usize, rate: u64) -> (r: bool)
    requires
        rate <= u32::MAX,
    ensures
        r == over_budget(held, pending, rate),
{
    assert(2 * WINDOW_SECONDS * rate <= 0x8_0000_0000) by (nonlinear_arith)
        requires
            rate <= 0xffff_ffff,
    ;
    let window: u64 = 2 * WINDOW_SECONDS * rate;
    let held = held as u128;
    assert((pending as u128) * (window as u128) <= 0xffff_ffff_ffff_ffff * 0x8_0000_0000) by (nonlinear_arith)
        requires
            pending <= 0xffff_ffff_ffff_ffff,
            window <= 0x8_0000_0000,
    ;
    let reserved = (pending as u128) * (window as u128);
    held + reserved + (window as u128) > MAX_CACHE_SAMPLES as u128
}

/// A decoded window of sound: the source it comes from (one number for
/// each media file, stream and sample rate) and the sample it starts at.
#[derive(Debug, Clone, Copy, PartialEq, Eq, Structural)]
pub struct Window {
    /// Which source, media file and stream at the output rate.
    pub source: u64,
    /// The source sample the window starts at.
    pub start: u64,
}

/// A window held in the cache: its samples' count and the samples.
pub struct Held<P> {
    /// Which window this is.
    pub window: Window,
    /// How many samples it holds.
    pub samples: usize,
    /// The decoded samples.
    pub data: P,
}

/// A window whose decode failed, and why.
pub struct Failure {
    /// Which window.
    pub window: Window,
    /// What went wrong, for the playback controls.
    pub message: String,
}

/// Whether some entry of `s` holds window `w`.
pub open spec fn holds_window<P>(s: Seq<Held<P>>, w: Window) -> bool {
    exists|i: int| 0 <= i < s.len() && (#[trigger] s[i]).window == w
}

/// Whether no two entries of `s` hold the same window.
pub open spec fn held_distinct<P>(s: Seq<Held<P>>) -> bool {
    forall|i: int, j: int| 0 <= i < s.len() && 0 <= j < s.len() && i != j ==> (#[trigger] s[i]).window != (#[trigger] s[j]).window
}

/// Whether some failure of `s` is for window `w`.
pub open spec fn fails_window(s: Seq<Failure>, w: Window) -> bool {
    exists|i: int| 0 <= i < s.len() && (#[trigger] s[i]).window == w
}

/// Whether no two failures of `s` are for the same window.
pub open spec fn failures_distinct(s: Seq<Failure>) -> bool {
    forall|i: int, j: int| 0 <= i < s.len() && 0 <= j < s.len() && i != j ==> (#[trigger] s[i]).window != (#[trigger] s[j]).window
}

/// `s` with window `h.window` now holding `h`: the entry for that window
/// is replaced, or `h` joins at the end.
pub open spec fn put_held<P>(s: Seq<Held<P>>, h: Held<P>) -> Seq<Held<P>> {
    if holds_window(s, h.window) {
        s.update(choose|i: int| 0 <= i < s.len() && (#[trigger] s[i]).window == h.window, h)
    } else {
        s.push(h)
    }
}

/// `s` with the failure of window `f.window` now being `f`.
pub open spec fn put_failure(s: Seq<Failure>, f: Failure) -> Seq<Failure> {
    if fails_window(s, f.window) {
        s.update(choose|i: int| 0 <= i < s.len() && (#[trigger] s[i]).window == f.window, f)
    } else {
        s.push(f)
    }
}

/// The samples the entries of `s` hold together.
pub open spec fn held_total<P>(s: Seq<Held<P>>) -> int
    decreases s.len(),
{
    if s.len() == 0 {
        0
    } else {
        held_total(s.drop_last()) + s.last().samples
    }
}

/// `s` with `w` added, unless it is there already.
pub open spec fn with_window(s: Seq<Window>, w: Window) -> Seq<Window> {
    if s.contains(w) {
        s
    } else {
        s.push(w)
    }
}

/// Whether `s` names window `w`.
fn window_in(s: &[Window], w: Window) -> (r: bool)
    ensures
        r == s@.contains(w),
{
    let mut i: usize = 0;
    while i < s.len()
        invariant
            i <= s@.len(),
            forall|k: int| 0 <= k < i ==> s@[k] != w,
        decreases s@.len() - i,
    {
        if s[i] == w {
            assert(s@[i as int] == w);
            return true;
        }
        i = i + 1;
    }
    false
}

/// Adds `w` to the set `s`.
fn add_window(s: &mut Vec<Window>, w: Window)
    ensures
        final(s)@ == with_window(old(s)@, w),
{
    if !window_in(s.as_slice(), w) {
        s.push(w);
    }
}

/// Where window `w` is held in `s`, if it is.
fn find_held<P>(s: &[Held<P>], w: Window) -> (r: Option<usize>)
    ensures
        match r {
            Some(i) => i < s@.len() && s@[i as int].window == w,
            None => !holds_window(s@, w),
        },
{
    let mut i: usize = 0;
    while i < s.len()
        invariant
            i <= s@.len(),
            forall|k: int| 0 <= k < i ==> s@[k].window != w,
        decreases s@.len() - i,
    {
        if s[i].window == w {
            return Some(i);
        }
        i = i + 1;
    }
    None
}

/// Where the failure of window `w` is in `s`, if it is there.
fn find_failure(s: &[Failure], w: Window) -> (r: Option<usize>)
    ensures
        match r {
            Some(i) => i < s@.len() && s@[i as int].window == w,
            None => !fails_window(s@, w),
        },
{
    let mut i: usize = 0;
    while i < s.len()
        invariant
            i <= s@.len(),
            forall|k: int| 0 <= k < i ==> s@[k].window != w,
        decreases s@.len() - i,
    {
        if s[i].window == w {
            return Some(i);
        }
        i = i + 1;
    }
    None
}

/// Holds `h` in the cache `s`, in place of what that window held.
fn store_held<P>(s: &mut Vec<Held<P>>, h: Held<P>)
    requires
        held_distinct(old(s)@),
    ensures
        final(s)@ == put_held(old(s)@, h),
        held_distinct(final(s)@),
{
    match find_held(s.as_slice(), h.window) {
        Some(i) => {
            let ghost j = choose|j: int| 0 <= j < old(s)@.len() && (#[trigger] old(s)@[j]).window == h.window;
            assert(old(s)@[i as int].window == h.window);
            assert(i as int == j);
            s.set(i, h);
            assert(forall|k: int| 0 <= k < s@.len() ==> (#[trigger] s@[k]).window == old(s)@[k].window);
        },
        None => {
            s.push(h);
            assert(forall|k: int| 0 <= k < old(s)@.len() ==> (#[trigger] s@[k]) == old(s)@[k]);
        },
    }
}

/// Records `f` as the failure of its window, in place of an earlier one.
fn store_failure(s: &mut Vec<Failure>, f: Failure)
    requires
        failures_distinct(old(s)@),
    ensures
        final(s)@ == put_failure(old(s)@, f),
        failures_distinct(final(s)@),
{
    match find_failure(s.as_slice(), f.window) {
        Some(i) => {
            let ghost j = choose|j: int| 0 <= j < old(s)@.len() && (#[trigger] old(s)@[j]).window == f.window;
            assert(old(s)@[i as int].window == f.window);
            assert(i as int == j);
            s.set(i, f);
            assert(forall|k: int| 0 <= k < s@.len() ==> (#[trigger] s@[k]).window == old(s)@[k].window);
        },
        None => {
            s.push(f);
            assert(forall|k: int| 0 <= k < old(s)@.len() ==> (#[trigger] s@[k]) == old(s)@[k]);
        },
    }
}

/// Whether the cache keeps window `w`: it is wanted, or a slot plays it.
pub open spec fn keeps_window(wanted: Seq<Window>, selected: Seq<Option<Window>>, w: Window) -> bool {
    wanted.contains(w) || selected.contains(Some(w))
}

/// The entries of `s` the cache keeps.
pub open spec fn kept_held<P>(s: Seq<Held<P>>, wanted: Seq<Window>, selected: Seq<Option<Window>>) -> Seq<Held<P>> {
    s.filter(|h: Held<P>| keeps_window(wanted, selected, h.window))
}

/// The failures of `s` that are for wanted windows.
pub open spec fn kept_failures(s: Seq<Failure>, wanted: Seq<Window>) -> Seq<Failure> {
    s.filter(|f: Failure| wanted.contains(f.window))
}

/// Whether a window is other than `w`.
pub open spec fn other_than(w: Window) -> spec_fn(Window) -> bool {
    |x: Window| x != w
}

/// `s` without window `w`.
pub open spec fn without_window(s: Seq<Window>, w: Window) -> Seq<Window> {
    s.filter(other_than(w))
}

proof fn lemma_held_filter_distinct<P>(s: Seq<Held<P>>, p: spec_fn(Held<P>) -> bool)
    requires
        held_distinct(s),
    ensures
        held_distinct(s.filter(p)),
    decreases s.len(),
{
    broadcast use vstd::seq_lib::group_filter_ensures;
    if s.len() > 0 {
        let init = s.drop_last();
        let last = s.last();
        assert(init.push(last) =~= s);
        init.lemma_filter_push(last, p);
        lemma_held_filter_distinct(init, p);
        if p(last) {
            let f = init.filter(p);
            assert forall|k: int| 0 <= k < f.len() implies (#[trigger] f[k]).window != last.window by {
                assert(f.contains(f[k]));
                init.lemma_filter_contains_rev(p, f[k]);
                let m = choose|m: int| 0 <= m < init.len() && init[m] == f[k];
                assert(s[m] == init[m]);
                assert(s[s.len() - 1] == last);
            }
            let g = f.push(last);
            assert forall|i: int, j: int| 0 <= i < g.len() && 0 <= j < g.len() && i != j implies (#[trigger] g[i]).window != (#[trigger] g[j]).window by {
                if i < f.len() && j < f.len() {
                    assert(g[i] == f[i] && g[j] == f[j]);
                } else if i < f.len() {
                    assert(g[i] == f[i]);
                } else {
                    assert(g[j] == f[j]);
                }
            }
        }
    }
}

proof fn lemma_failure_filter_distinct(s: Seq<Failure>, p: spec_fn(Failure) -> bool)
    requires
        failures_distinct(s),
    ensures
        failures_distinct(s.filter(p)),
    decreases s.len(),
{
    broadcast use vstd::seq_lib::group_filter_ensures;
    if s.len() > 0 {
        let init = s.drop_last();
        let last = s.last();
        assert(init.push(last) =~= s);
        init.lemma_filter_push(last, p);
        lemma_failure_filter_distinct(init, p);
        if p(last) {
            let f = init.filter(p);
            assert forall|k: int| 0 <= k < f.len() implies (#[trigger] f[k]).window != last.window by {
                assert(f.contains(f[k]));
                init.lemma_filter_contains_rev(p, f[k]);
                let m = choose|m: int| 0 <= m < init.len() && init[m] == f[k];
                assert(s[m] == init[m]);
                assert(s[s.len() - 1] == last);
            }
            let g = f.push(last);
            assert forall|i: int, j: int| 0 <= i < g.len() && 0 <= j < g.len() && i != j implies (#[trigger] g[i]).window != (#[trigger] g[j]).window by {
                if i < f.len() && j < f.len() {
                    assert(g[i] == f[i] && g[j] == f[j]);
                } else if i < f.len() {
                    assert(g[i] == f[i]);
                } else {
                    assert(g[j] == f[j]);
                }
            }
        }
    }
}

proof fn lemma_window_filter_distinct(s: Seq<Window>, p: spec_fn(Window) -> bool)
    requires
        s.no_duplicates(),
    ensures
        s.filter(p).no_duplicates(),
    decreases s.len(),
{
    broadcast use vstd::seq_lib::group_filter_ensures;
    if s.len() > 0 {
        let init = s.drop_last();
        let last = s.last();
        assert(init.push(last) =~= s);
        init.lemma_filter_push(last, p);
        lemma_window_filter_distinct(init, p);
        if p(last) {
            let f = init.filter(p);
            assert forall|k: int| 0 <= k < f.len() implies f[k] != last by {
                assert(f.contains(f[k]));
                init.lemma_filter_contains_rev(p, f[k]);
                let m = choose|m: int| 0 <= m < init.len() && init[m] == f[k];
                assert(s[m] == init[m]);
                assert(s[s.len() - 1] == last);
            }
            let g = f.push(last);
            assert forall|i: int, j: int| 0 <= i < g.len() && 0 <= j < g.len() && i != j implies g[i] != g[j] by {
                if i < f.len() && j < f.len() {
                    assert(g[i] == f[i] && g[j] == f[j]);
                } else if i < f.len() {
                    assert(g[i] == f[i]);
                } else {
                    assert(g[j] == f[j]);
                }
            }
        }
    }
}

/// Whether a slot plays window `w`.
fn plays_window(selected: &[Option<Window>], w: Window) -> (r: bool)
    ensures
        r == selected@.contains(Some(w)),
{
    let mut i: usize = 0;
    while i < selected.len()
        invariant
            i <= selected@.len(),
            forall|k: int| 0 <= k < i ==> selected@[k] != Some(w),
        decreases selected@.len() - i,
    {
        match selected[i] {
            Some(x) => {
                if x == w {
                    assert(selected@[i as int] == Some(w));
                    return true;
                }
            },
            None => {},
        }
        i = i + 1;
    }
    false
}

/// Drops the cached windows that are neither wanted nor played.
fn retain_held<P>(s: &mut Vec<Held<P>>, wanted: &[Window], selected: &[Option<Window>])
    requires
        held_distinct(old(s)@),
    ensures
        final(s)@ == kept_held(old(s)@, wanted@, selected@),
        held_distinct(final(s)@),
{
    let ghost all = s@;
    let ghost p = |h: Held<P>| keeps_window(wanted@, selected@, h.window);
    let mut i: usize = 0;
    let ghost mut k: int = 0;
    assert(all.subrange(0, 0).filter(p) =~= Seq::<Held<P>>::empty()) by {
        reveal(Seq::filter);
    }
    assert(all.subrange(0, 0).filter(p) + all.subrange(0, all.len() as int) =~= all);
    while i < s.len()
        invariant
            0 <= k <= all.len(),
            s@ == all.subrange(0, k).filter(p) + all.subrange(k, all.len() as int),
            i == all.subrange(0, k).filter(p).len(),
            p == (|h: Held<P>| keeps_window(wanted@, selected@, h.window)),
        decreases all.len() - k,
    {
        let ghost pre = all.subrange(0, k).filter(p);
        assert(all.subrange(0, k + 1) =~= all.subrange(0, k).push(all[k]));
        proof {
            all.subrange(0, k).lemma_filter_push(all[k], p);
        }
        assert(s@[i as int] == all[k]);
        let w = s[i].window;
        if window_in(wanted, w) || plays_window(selected, w) {
            assert(p(all[k]));
            assert(s@ =~= all.subrange(0, k + 1).filter(p) + all.subrange(k + 1, all.len() as int));
            i = i + 1;
        } else {
            assert(!p(all[k]));
            s.remove(i);
            assert(s@ =~= all.subrange(0, k + 1).filter(p) + all.subrange(k + 1, all.len() as int));
        }
        proof {
            k = k + 1;
        }
    }
    proof {
        if k < all.len() {
            assert(s@.len() == i + (all.len() - k));
        }
        assert(all.subrange(0, k) =~= all);
        assert(all.subrange(k, all.len() as int) =~= Seq::<Held<P>>::empty());
        assert(s@ =~= all.filter(p));
        lemma_held_filter_distinct(all, p);
    }
}

/// Drops the failures of windows that are no longer wanted.
fn retain_failures(s: &mut Vec<Failure>, wanted: &[Window])
    requires
        failures_distinct(old(s)@),
    ensures
        final(s)@ == kept_failures(old(s)@, wanted@),
        failures_distinct(final(s)@),
{
    let ghost all = s@;
    let ghost p = |f: Failure| wanted@.contains(f.window);
    let mut i: usize = 0;
    let ghost mut k: int = 0;
    assert(all.subrange(0, 0).filter(p) =~= Seq::<Failure>::empty()) by {
        reveal(Seq::filter);
    }
    assert(all.subrange(0, 0).filter(p) + all.subrange(0, all.len() as int) =~= all);
    while i < s.len()
        invariant
            0 <= k <= all.len(),
            s@ == all.subrange(0, k).filter(p) + all.subrange(k, all.len() as int),
            i == all.subrange(0, k).filter(p).len(),
            p == (|f: Failure| wanted@.contains(f.window)),
        decreases all.len() - k,
    {
        assert(all.subrange(0, k + 1) =~= all.subrange(0, k).push(all[k]));
        proof {
            all.subrange(0, k).lemma_filter_push(all[k], p);
        }
        assert(s@[i as int] == all[k]);
        let w = s[i].window;
        if window_in(wanted, w) {
            assert(p(all[k]));
            assert(s@ =~= all.subrange(0, k + 1).filter(p) + all.subrange(k + 1, all.len() as int));
            i = i + 1;
        } else {
            assert(!p(all[k]));
            s.remove(i);
            assert(s@ =~= all.subrange(0, k + 1).filter(p) + all.subrange(k + 1, all.len() as int));
        }
        proof {
            k = k + 1;
        }
    }
    proof {
        if k < all.len() {
            assert(s@.len() == i + (all.len() - k));
        }
        assert(all.subrange(0, k) =~= all);
        assert(all.subrange(k, all.len() as int) =~= Seq::<Failure>::empty());
        assert(s@ =~= all.filter(p));
        lemma_failure_filter_distinct(all, p);
    }
}

/// Takes window `w` out of the set `s`.
fn drop_window(s: &mut Vec<Window>, w: Window)
    requires
        old(s)@.no_duplicates(),
    ensures
        final(s)@ == without_window(old(s)@, w),
        final(s)@.no_duplicates(),
{
    let ghost all = s@;
    let ghost p = other_than(w);
    let mut i: usize = 0;
    let ghost mut k: int = 0;
    assert(all.subrange(0, 0).filter(p) =~= Seq::<Window>::empty()) by {
        reveal(Seq::filter);
    }
    assert(all.subrange(0, 0).filter(p) + all.subrange(0, all.len() as int) =~= all);
    while i < s.len()
        invariant
            0 <= k <= all.len(),
            s@ == all.subrange(0, k).filter(p) + all.subrange(k, all.len() as int),
            i == all.subrange(0, k).filter(p).len(),
            p == other_than(w),
        decreases all.len() - k,
    {
        assert(all.subrange(0, k + 1) =~= all.subrange(0, k).push(all[k]));
        proof {
            all.subrange(0, k).lemma_filter_push(all[k], p);
        }
        assert(s@[i as int] == all[k]);
        if s[i] != w {
            assert(p(all[k]));
            assert(s@ =~= all.subrange(0, k + 1).filter(p) + all.subrange(k + 1, all.len() as int));
            i = i + 1;
        } else {
            assert(!p(all[k]));
            s.remove(i);
            assert(s@ =~= all.subrange(0, k + 1).filter(p) + all.subrange(k + 1, all.len() as int));
        }
        proof {
            k = k + 1;
        }
    }
    proof {
        if k < all.len() {
            assert(s@.len() == i + (all.len() - k));
        }
        assert(all.subrange(0, k) =~= all);
        assert(all.subrange(k, all.len() as int) =~= Seq::<Window>::empty());
        assert(s@ =~= all.filter(p));
        lemma_window_filter_distinct(all, p);
    }
}

/// The samples the cache holds together.
fn held_sum<P>(s: &[Held<P>]) -> (r: u128)
    ensures
        r == held_total(s@),
{
    let mut total: u128 = 0;
    let mut i: usize = 0;
    while i < s.len()
        invariant
            i <= s@.len(),
            total == held_total(s@.subrange(0, i as int)),
            total <= i * (usize::MAX as int),
        decreases s@.len() - i,
    {
        assert(s@.subrange(0, i + 1 as int).drop_last() =~= s@.subrange(0, i as int));
        assert(total + s[i as int].samples <= (i + 1) * (usize::MAX as int)) by (nonlinear_arith)
            requires
                total <= i * (usize::MAX as int),
                s[i as int].samples <= usize::MAX,
        ;
        assert((i + 1) * (usize::MAX as int) <= 0xffff_ffff_ffff_ffff * 0xffff_ffff_ffff_ffff) by (nonlinear_arith)
            requires
                i < usize::MAX,
                usize::MAX <= 0xffff_ffff_ffff_ffff,
        ;
        total = total + s[i].samples as u128;
        i = i + 1;
    }
    assert(s@.subrange(0, s@.len() as int) =~= s@);
    total
}

/// One clip on an audio track: the source it plays and how many samples
/// into that source the clip begins.
#[derive(Debug, Clone, Copy)]
pub struct AudioSlot {
    /// Which source, as in [`Window::source`].
    pub source: u64,
    /// The source sample the clip begins at.
    pub source_start: u64,
}

/// What the mix graph says of one slot this frame: whether its track is
/// heard, and the samples its clip spans on the timeline, as a start and a
/// length.
#[derive(Debug, Clone, Copy)]
pub struct SlotLive {
    /// Whether the slot's track is heard.
    pub audible: bool,
    /// Where the clip lies, when the graph places it.
    pub span: Option<(u64, u64)>,
}

/// A decode the worker finished: the window, the epoch it was asked for
/// in, and its samples with their count, or why there are none.
pub struct Decoded<P> {
    /// Which window was decoded.
    pub window: Window,
    /// The epoch the decode was asked for in.
    pub epoch: u64,
    /// The samples and how many there are, or what went wrong.
    pub samples: Result<(usize, P), String>,
}

/// What becomes of a window playback wants decoded.
#[derive(Debug, Clone, Copy, PartialEq, Eq, Structural)]
pub enum Admission {
    /// It is held, being decoded, or failed already: nothing to do.
    Skip,
    /// Decoding it would take the cache past its limit; that is recorded as
    /// its failure.
    LimitReached,
    /// Decode it, in this epoch.
    Decode(u64),
}

/// The source sample under the playhead at `frame` for a slot whose clip
/// starts at `start` on the timeline.
pub open spec fn slot_source(slot: AudioSlot, frame: u64, start: u64) -> u64 {
    sat_add(slot.source_start, sat_sub(frame, start))
}

/// The windows one slot wants at `frame`: none unless its track is heard
/// and its clip is under the playhead or about to be; else those of
/// [`wanted_windows`], of the slot's source.
pub open spec fn slot_wants(slot: AudioSlot, live: SlotLive, frame: u64, rate: u64) -> Seq<Window> {
    if !live.audible {
        Seq::empty()
    } else {
        match live.span {
            None => Seq::empty(),
            Some((start, length)) => if !slot_near(frame, rate, start, length) {
                Seq::empty()
            } else {
                let (first, next) = wanted_windows(slot_source(slot, frame, start), rate);
                match next {
                    None => seq![Window { source: slot.source, start: first }],
                    Some(n) => seq![
                        Window { source: slot.source, start: first },
                        Window { source: slot.source, start: n },
                    ],
                }
            },
        }
    }
}

/// The windows every slot wants at `frame`, slot by slot.
pub open spec fn all_wants(slots: Seq<AudioSlot>, live: Seq<SlotLive>, frame: u64, rate: u64) -> Seq<Window>
    decreases slots.len(),
{
    if slots.len() == 0 {
        Seq::empty()
    } else {
        all_wants(slots.drop_last(), live, frame, rate) + slot_wants(
            slots.last(),
            live[slots.len() - 1],
            frame,
            rate,
        )
    }
}

/// The windows of `s`, each once, in the order they first come.
pub open spec fn distinct_windows(s: Seq<Window>) -> Seq<Window>
    decreases s.len(),
{
    if s.len() == 0 {
        s
    } else {
        with_window(distinct_windows(s.drop_last()), s.last())
    }
}

/// Whether every slot near the playhead reads from a source whose next
/// grid line is a sample position: past it the window arithmetic has no
/// room.
pub open spec fn sources_fit(slots: Seq<AudioSlot>, live: Seq<SlotLive>, frame: u64, rate: u64) -> bool {
    forall|i: int|
        0 <= i < slots.len() && (#[trigger] live[i]).audible ==> match live[i].span {
            Some((start, length)) => slot_near(frame, rate, start, length) ==> grid_fits(
                slot_source(slots[i], frame, start),
                rate,
            ),
            None => true,
        }
}

/// The cached window that plays for a slot of source `src` whose source is
/// at `source`: the latest-starting one of that source that holds the
/// sample.
pub open spec fn best_window<P>(cache: Seq<Held<P>>, src: u64, source: u64, rate: u64) -> Option<Window>
    decreases cache.len(),
{
    if cache.len() == 0 {
        None
    } else {
        let b = best_window(cache.drop_last(), src, source, rate);
        let w = cache.last().window;
        if w.source == src && window_holds(w.start, source, rate) {
            match b {
                None => Some(w),
                Some(k) => if w.start >= k.start {
                    Some(w)
                } else {
                    Some(k)
                },
            }
        } else {
            b
        }
    }
}

/// What a slot plays after this frame: nothing when its track is not heard;
/// what it played when the graph does not place its clip; else the best
/// cached window while the clip is near the playhead, and nothing after.
pub open spec fn slot_choice<P>(
    before: Option<Window>,
    slot: AudioSlot,
    live: SlotLive,
    cache: Seq<Held<P>>,
    frame: u64,
    rate: u64,
) -> Option<Window> {
    if !live.audible {
        None
    } else {
        match live.span {
            None => before,
            Some((start, length)) => if slot_near(frame, rate, start, length) {
                best_window(cache, slot.source, slot_source(slot, frame, start), rate)
            } else {
                None
            },
        }
    }
}

/// What every slot plays after this frame.
pub open spec fn choices<P>(
    before: Seq<Option<Window>>,
    slots: Seq<AudioSlot>,
    live: Seq<SlotLive>,
    cache: Seq<Held<P>>,
    frame: u64,
    rate: u64,
) -> Seq<Option<Window>> {
    Seq::new(before.len(), |i: int| slot_choice(before[i], slots[i], live[i], cache, frame, rate))
}

/// The selection a frame compares its own with: what each slot played,
/// with the slots whose track is not heard silenced.
pub open spec fn heard_selection(before: Seq<Option<Window>>, live: Seq<SlotLive>) -> Seq<Option<Window>> {
    Seq::new(before.len(), |i: int| if live[i].audible { before[i] } else { None })
}

/// The cache, the failures and the windows being decoded, as one value.
pub type Books<P> = (Seq<Held<P>>, Seq<Failure>, Seq<Window>);

/// What one finished decode does: one from another epoch is dropped; else
/// its window is no longer being decoded, and, when it is still wanted, its
/// samples are held or its failure recorded.
pub open spec fn accept_one<P>(b: Books<P>, d: Decoded<P>, epoch: u64, wanted: Seq<Window>) -> Books<P> {
    if d.epoch != epoch {
        b
    } else {
        let pending = without_window(b.2, d.window);
        if !wanted.contains(d.window) {
            (b.0, b.1, pending)
        } else {
            match d.samples {
                Ok((n, data)) => (put_held(b.0, Held { window: d.window, samples: n, data }), b.1, pending),
                Err(m) => (b.0, put_failure(b.1, Failure { window: d.window, message: m }), pending),
            }
        }
    }
}

/// What the finished decodes `ds` do, in order.
pub open spec fn accept_all<P>(b: Books<P>, ds: Seq<Decoded<P>>, epoch: u64, wanted: Seq<Window>) -> Books<P>
    decreases ds.len(),
{
    if ds.len() == 0 {
        b
    } else {
        accept_one(accept_all(b, ds.drop_last(), epoch, wanted), ds.last(), epoch, wanted)
    }
}

/// Whether the playhead moved from `from` to `to` by more than half a
/// second: a seek, after which decodes asked for earlier are abandoned.
pub open spec fn is_seek(from: u64, to: u64, rate: u64) -> bool {
    (if from >= to { from - to } else { to - from }) > rate / 2
}

/// The epoch after `e`: decodes asked for before it are abandoned.
pub open spec fn next_epoch(e: u64) -> u64 {
    if e == u64::MAX { 0 } else { (e + 1) as u64 }
}

/// Whether one more window would take the cache past its limit, given the
/// samples it holds and the windows being decoded.
pub open spec fn past_limit(held: int, pending: int, rate: u64) -> bool {
    let window = 2 * WINDOW_SECONDS * rate;
    held + pending * window + window > MAX_CACHE_SAMPLES
}

/// Live timeline audio: which windows of each clip's source are decoded,
/// being decoded, wanted, failed, and playing.
///
/// Decoding is restricted to windows around the clips under and just ahead
/// of the playhead, within a bounded cache, and a seek abandons what was
/// asked for before it. The decoding itself, the mix graph and the mixer are
/// the caller's: it reports what the graph says of each slot and what the
/// worker finished, and decodes and installs what this asks for.
pub struct PlaybackAudio<P> {
    configuration_error: Option<String>,
    slots: Vec<AudioSlot>,
    cache: Vec<Held<P>>,
    pending: Vec<Window>,
    wanted: Vec<Window>,
    selected: Vec<Option<Window>>,
    failed: Vec<Failure>,
    epoch: u64,
    position: u64,
}

impl<P> PlaybackAudio<P> {
    /// Every slot has its selection; no window is held, being decoded,
    /// wanted or failed twice.
    #[verifier::type_invariant]
    spec fn well_formed(self) -> bool {
        &&& self.selected@.len() == self.slots@.len()
        &&& held_distinct(self.cache@)
        &&& failures_distinct(self.failed@)
        &&& self.pending@.no_duplicates()
        &&& self.wanted@.no_duplicates()
    }

    /// Why the project's audio could not be set up, when it could not.
    pub closed spec fn spec_error(&self) -> Option<String> {
        self.configuration_error
    }

    /// The clips on the audio tracks.
    pub closed spec fn spec_slots(&self) -> Seq<AudioSlot> {
        self.slots@
    }

    /// The decoded windows held.
    pub closed spec fn spec_cache(&self) -> Seq<Held<P>> {
        self.cache@
    }

    /// The windows being decoded.
    pub closed spec fn spec_pending(&self) -> Seq<Window> {
        self.pending@
    }

    /// The windows wanted around the playhead.
    pub closed spec fn spec_wanted(&self) -> Seq<Window> {
        self.wanted@
    }

    /// The window each slot plays, if any.
    pub closed spec fn spec_selected(&self) -> Seq<Option<Window>> {
        self.selected@
    }

    /// The windows whose decode failed, and why.
    pub closed spec fn spec_failed(&self) -> Seq<Failure> {
        self.failed@
    }

    /// The epoch decodes are asked for in now.
    pub closed spec fn spec_epoch(&self) -> u64 {
        self.epoch
    }

    /// The output sample the playhead was last at.
    pub closed spec fn spec_position(&self) -> u64 {
        self.position
    }

    /// No clips, nothing decoded, the playhead at the start.
    pub fn new() -> (r: PlaybackAudio<P>)
        ensures
            r.spec_error() is None,
            r.spec_slots().len() == 0,
            r.spec_cache().len() == 0,
            r.spec_pending().len() == 0,
            r.spec_wanted().len() == 0,
            r.spec_selected().len() == 0,
            r.spec_failed().len() == 0,
            r.spec_epoch() == 0,
            r.spec_position() == 0,
    {
        PlaybackAudio {
            configuration_error: None,
            slots: Vec::new(),
            cache: Vec::new(),
            pending: Vec::new(),
            wanted: Vec::new(),
            selected: Vec::new(),
            failed: Vec::new(),
            epoch: 0,
            position: 0,
        }
    }
}

proof fn lemma_with_window_distinct(s: Seq<Window>, w: Window)
    requires
        s.no_duplicates(),
    ensures
        with_window(s, w).no_duplicates(),
{
    if !s.contains(w) {
        let t = s.push(w);
        assert forall|i: int, j: int| 0 <= i < t.len() && 0 <= j < t.len() && i != j implies t[i] != t[j] by {
            if i < s.len() && j < s.len() {
                assert(t[i] == s[i] && t[j] == s[j]);
            } else if i < s.len() {
                assert(t[i] == s[i]);
            } else {
                assert(t[j] == s[j]);
            }
        }
    }
}

/// The windows every slot wants at `frame`, slot by slot, and the same
/// windows each once.
fn collect_wants(slots: &[AudioSlot], live: &[SlotLive], frame: u64, rate: u64) -> (r: (Vec<Window>, Vec<Window>))
    requires
        0 < rate <= u32::MAX,
        live@.len() == slots@.len(),
        sources_fit(slots@, live@, frame, rate),
    ensures
        r.0@ == all_wants(slots@, live@, frame, rate),
        r.1@ == distinct_windows(r.0@),
        r.1@.no_duplicates(),
{
    let mut needed: Vec<Window> = Vec::new();
    let mut wanted: Vec<Window> = Vec::new();
    let mut i: usize = 0;
    assert(all_wants(slots@.subrange(0, 0), live@, frame, rate) =~= Seq::<Window>::empty());
    while i < slots.len()
        invariant
            i <= slots@.len(),
            live@.len() == slots@.len(),
            0 < rate <= u32::MAX,
            sources_fit(slots@, live@, frame, rate),
            needed@ == all_wants(slots@.subrange(0, i as int), live@, frame, rate),
            wanted@ == distinct_windows(needed@),
            wanted@.no_duplicates(),
        decreases slots@.len() - i,
    {
        assert(slots@.subrange(0, i + 1 as int).drop_last() =~= slots@.subrange(0, i as int));
        assert(slots@.subrange(0, i + 1 as int).last() == slots@[i as int]);
        let slot = slots[i];
        let l = live[i];
        let ghost before = needed@;
        if l.audible {
            match l.span {
                Some((start, length)) => {
                    if clip_is_near(frame, rate, start, length) {
                        let source = slot.source_start.saturating_add(frame.saturating_sub(start));
                        assert(grid_fits(source, rate)) by {
                            assert(live@[i as int].audible);
                        }
                        let (first, next) = window_starts(source, rate);
                        let a = Window { source: slot.source, start: first };
                        needed.push(a);
                        assert(needed@.drop_last() =~= before);
                        assert(distinct_windows(needed@) == with_window(distinct_windows(before), a));
                        proof {
                            lemma_with_window_distinct(wanted@, a);
                        }
                        add_window(&mut wanted, a);
                        match next {
                            Some(n) => {
                                let b = Window { source: slot.source, start: n };
                                let ghost mid = needed@;
                                needed.push(b);
                                assert(needed@.drop_last() =~= mid);
                                assert(distinct_windows(needed@) == with_window(distinct_windows(mid), b));
                                proof {
                                    lemma_with_window_distinct(wanted@, b);
                                }
                                add_window(&mut wanted, b);
                                assert(needed@ =~= before + seq![a, b]);
                            },
                            None => {
                                assert(needed@ =~= before + seq![a]);
                            },
                        }
                    } else {
                        assert(needed@ =~= before + Seq::<Window>::empty());
                    }
                },
                None => {
                    assert(needed@ =~= before + Seq::<Window>::empty());
                },
            }
        } else {
            assert(needed@ =~= before + Seq::<Window>::empty());
        }
        i = i + 1;
    }
    assert(slots@.subrange(0, slots@.len() as int) =~= slots@);
    (needed, wanted)
}

/// The cached window that plays for a slot of source `src` whose source is
/// at `source`.
fn best_held<P>(cache: &[Held<P>], src: u64, source: u64, rate: u64) -> (r: Option<Window>)
    requires
        rate <= u32::MAX,
    ensures
        r == best_window(cache@, src, source, rate),
{
    let mut best: Option<Window> = None;
    let mut i: usize = 0;
    while i < cache.len()
        invariant
            i <= cache@.len(),
            rate <= u32::MAX,
            best == best_window(cache@.subrange(0, i as int), src, source, rate),
        decreases cache@.len() - i,
    {
        assert(cache@.subrange(0, i + 1 as int).drop_last() =~= cache@.subrange(0, i as int));
        assert(cache@.subrange(0, i + 1 as int).last() == cache@[i as int]);
        let w = cache[i].window;
        if w.source == src && window_covers(w.start, source, rate) {
            best = match best {
                None => Some(w),
                Some(k) => if w.start >= k.start {
                    Some(w)
                } else {
                    Some(k)
                },
            };
        }
        i = i + 1;
    }
    assert(cache@.subrange(0, cache@.len() as int) =~= cache@);
    best
}

/// Whether two selections name the same window.
fn same_choice(a: Option<Window>, b: Option<Window>) -> (r: bool)
    ensures
        r == (a == b),
{
    match (a, b) {
        (Some(x), Some(y)) => x == y,
        (None, None) => true,
        _ => false,
    }
}

impl<P> PlaybackAudio<P> {
    /// Takes the clips of a newly set up sequence: no slot plays anything
    /// yet, decodes asked for before are abandoned, and no window is wanted
    /// or failed. What is decoded stays held for the next frame to reuse.
    pub fn configure(&mut self, slots: Vec<AudioSlot>)
        ensures
            final(self).spec_error() is None,
            final(self).spec_slots() == slots@,
            final(self).spec_selected() == Seq::new(slots@.len(), |i: int| None::<Window>),
            final(self).spec_epoch() == next_epoch(old(self).spec_epoch()),
            final(self).spec_pending().len() == 0,
            final(self).spec_wanted().len() == 0,
            final(self).spec_failed().len() == 0,
            final(self).spec_cache() == old(self).spec_cache(),
            final(self).spec_position() == old(self).spec_position(),
    {
        proof {
            use_type_invariant(&*self);
        }
        let mut selected: Vec<Option<Window>> = Vec::new();
        let mut i: usize = 0;
        while i < slots.len()
            invariant
                i <= slots@.len(),
                selected@ == Seq::new(i as nat, |k: int| None::<Window>),
            decreases slots@.len() - i,
        {
            selected.push(None);
            assert(selected@ =~= Seq::new((i + 1) as nat, |k: int| None::<Window>));
            i = i + 1;
        }
        let mut cache: Vec<Held<P>> = Vec::new();
        std::mem::swap(&mut cache, &mut self.cache);
        *self = PlaybackAudio {
            configuration_error: None,
            slots,
            cache,
            pending: Vec::new(),
            wanted: Vec::new(),
            selected,
            failed: Vec::new(),
            epoch: self.epoch.wrapping_add(1),
            position: self.position,
        };
    }

    /// Drops the project's audio when the new project's cannot be set up,
    /// and keeps why for the playback controls.
    pub fn clear_with_error(&mut self, message: String)
        ensures
            final(self).spec_error() == Some(message),
            final(self).spec_slots().len() == 0,
            final(self).spec_selected().len() == 0,
            final(self).spec_epoch() == next_epoch(old(self).spec_epoch()),
            final(self).spec_pending().len() == 0,
            final(self).spec_wanted().len() == 0,
            final(self).spec_failed().len() == 0,
            final(self).spec_cache().len() == 0,
            final(self).spec_position() == old(self).spec_position(),
    {
        *self = PlaybackAudio {
            configuration_error: Some(message),
            slots: Vec::new(),
            cache: Vec::new(),
            pending: Vec::new(),
            wanted: Vec::new(),
            selected: Vec::new(),
            failed: Vec::new(),
            epoch: self.epoch.wrapping_add(1),
            position: self.position,
        };
    }

    /// Takes the decodes the worker finished, in order.
    fn accept(&mut self, completed: Vec<Decoded<P>>)
        ensures
            final(self).spec_error() == old(self).spec_error(),
            final(self).spec_slots() == old(self).spec_slots(),
            final(self).spec_selected() == old(self).spec_selected(),
            final(self).spec_wanted() == old(self).spec_wanted(),
            final(self).spec_epoch() == old(self).spec_epoch(),
            final(self).spec_position() == old(self).spec_position(),
            (final(self).spec_cache(), final(self).spec_failed(), final(self).spec_pending())
                == accept_all(
                (old(self).spec_cache(), old(self).spec_failed(), old(self).spec_pending()),
                completed@,
                old(self).spec_epoch(),
                old(self).spec_wanted(),
            ),
    {
        proof {
            use_type_invariant(&*self);
        }
        let ghost all = completed@;
        let ghost start: Books<P> = (self.cache@, self.failed@, self.pending@);
        let mut cache: Vec<Held<P>> = Vec::new();
        let mut failed: Vec<Failure> = Vec::new();
        let mut pending: Vec<Window> = Vec::new();
        std::mem::swap(&mut cache, &mut self.cache);
        std::mem::swap(&mut failed, &mut self.failed);
        std::mem::swap(&mut pending, &mut self.pending);
        let mut rest = completed;
        let ghost mut k: int = 0;
        assert(all.subrange(0, 0) =~= Seq::<Decoded<P>>::empty());
        assert(all.subrange(0, all.len() as int) =~= all);
        while rest.len() > 0
            invariant
                0 <= k <= all.len(),
                rest@ == all.subrange(k, all.len() as int),
                (cache@, failed@, pending@) == accept_all(
                    start,
                    all.subrange(0, k),
                    self.epoch,
                    self.wanted@,
                ),
                self.configuration_error == old(self).configuration_error,
                self.slots@ == old(self).slots@,
                self.selected@ == old(self).selected@,
                self.wanted@ == old(self).wanted@,
                self.epoch == old(self).epoch,
                self.position == old(self).position,
                self.cache@.len() == 0,
                self.failed@.len() == 0,
                self.pending@.len() == 0,
                start == (old(self).cache@, old(self).failed@, old(self).pending@),
                held_distinct(cache@),
                failures_distinct(failed@),
                pending@.no_duplicates(),
            decreases rest@.len(),
        {
            let d = rest.remove(0);
            assert(all.subrange(0, k + 1).drop_last() =~= all.subrange(0, k));
            assert(d == all[k]);
            assert(rest@ =~= all.subrange(k + 1, all.len() as int));
            if d.epoch == self.epoch {
                drop_window(&mut pending, d.window);
                if window_in(self.wanted.as_slice(), d.window) {
                    match d.samples {
                        Ok((n, data)) => {
                            store_held(&mut cache, Held { window: d.window, samples: n, data });
                        },
                        Err(m) => {
                            store_failure(&mut failed, Failure { window: d.window, message: m });
                        },
                    }
                }
            }
            proof {
                k = k + 1;
            }
        }
        assert(k == all.len());
        assert(all.subrange(0, k) =~= all);
        self.cache = cache;
        self.failed = failed;
        self.pending = pending;
    }

    /// Chooses what every slot plays now, and says whether that differs
    /// from what the heard slots played.
    fn select(&mut self, live: &[SlotLive], frame: u64, rate: u64) -> (changed: bool)
        requires
            rate <= u32::MAX,
            live@.len() == old(self).spec_slots().len(),
        ensures
            final(self).spec_selected() == choices(
                old(self).spec_selected(),
                old(self).spec_slots(),
                live@,
                old(self).spec_cache(),
                frame,
                rate,
            ),
            changed == (final(self).spec_selected() != heard_selection(old(self).spec_selected(), live@)),
            final(self).spec_error() == old(self).spec_error(),
            final(self).spec_slots() == old(self).spec_slots(),
            final(self).spec_cache() == old(self).spec_cache(),
            final(self).spec_pending() == old(self).spec_pending(),
            final(self).spec_wanted() == old(self).spec_wanted(),
            final(self).spec_failed() == old(self).spec_failed(),
            final(self).spec_epoch() == old(self).spec_epoch(),
            final(self).spec_position() == old(self).spec_position(),
    {
        proof {
            use_type_invariant(&*self);
        }
        let ghost sel0 = self.selected@;
        let ghost heard = heard_selection(sel0, live@);
        let mut changed = false;
        let mut chosen: Vec<Option<Window>> = Vec::new();
        let mut i: usize = 0;
        while i < self.selected.len()
            invariant
                i <= self.selected@.len(),
                chosen@.len() == i,
                self.selected@ == sel0,
                sel0.len() == old(self).slots@.len(),
                live@.len() == sel0.len(),
                rate <= u32::MAX,
                heard == heard_selection(sel0, live@),
                self.configuration_error == old(self).configuration_error,
                self.slots@ == old(self).slots@,
                self.cache@ == old(self).cache@,
                self.pending@ == old(self).pending@,
                self.wanted@ == old(self).wanted@,
                self.failed@ == old(self).failed@,
                self.epoch == old(self).epoch,
                self.position == old(self).position,
                held_distinct(self.cache@),
                failures_distinct(self.failed@),
                self.pending@.no_duplicates(),
                self.wanted@.no_duplicates(),
                forall|j: int| 0 <= j < i ==> #[trigger] chosen@[j] == slot_choice(
                    sel0[j],
                    self.slots@[j],
                    live@[j],
                    self.cache@,
                    frame,
                    rate,
                ),
                changed == exists|j: int| 0 <= j < i && #[trigger] chosen@[j] != heard[j],
            decreases sel0.len() - i,
        {
            let l = live[i];
            let slot = self.slots[i];
            let current = self.selected[i];
            let choice: Option<Window> = if !l.audible {
                None
            } else {
                match l.span {
                    None => current,
                    Some((start, length)) => if clip_is_near(frame, rate, start, length) {
                        let source = slot.source_start.saturating_add(frame.saturating_sub(start));
                        best_held(self.cache.as_slice(), slot.source, source, rate)
                    } else {
                        None
                    },
                }
            };
            let before: Option<Window> = if l.audible {
                current
            } else {
                None
            };
            assert(before == heard[i as int]);
            let ghost was_changed = changed;
            let ghost old_chosen = chosen@;
            if !same_choice(choice, before) {
                changed = true;
            }
            chosen.push(choice);
            assert(chosen@[i as int] == choice);
            assert(forall|j: int| 0 <= j < i ==> #[trigger] chosen@[j] == old_chosen[j]);
            assert(changed == exists|j: int| 0 <= j < i + 1 && #[trigger] chosen@[j] != heard[j]) by {
                if was_changed {
                    let j = choose|j: int| 0 <= j < i && #[trigger] old_chosen[j] != heard[j];
                    assert(chosen@[j] == old_chosen[j]);
                    assert(0 <= j < i + 1 && chosen@[j] != heard[j]);
                }
                if choice != before {
                    assert(chosen@[i as int] != heard[i as int]);
                }
            }
            i = i + 1;
        }
        let ghost want = choices(sel0, old(self).slots@, live@, old(self).cache@, frame, rate);
        assert(chosen@ =~= want);
        proof {
            if !changed {
                assert(chosen@ =~= heard);
            } else {
                let j = choose|j: int| 0 <= j < sel0.len() && #[trigger] chosen@[j] != heard[j];
                assert(chosen@[j] != heard[j]);
            }
        }
        self.selected = chosen;
        changed
    }
}

/// Whether a slot is ready to sound at `position`: its clip is not under
/// the playhead, its track is not heard, or it has a window to play.
pub open spec fn slot_ready(selected: Option<Window>, live: SlotLive, position: u64) -> bool {
    match live.span {
        None => true,
        Some((start, length)) => !live.audible || position < start || position >= sat_add(start, length)
            || selected is Some,
    }
}

/// The first window of `wanted` whose decode failed.
pub open spec fn first_failed(wanted: Seq<Window>, failed: Seq<Failure>) -> Option<Window>
    decreases wanted.len(),
{
    if wanted.len() == 0 {
        None
    } else {
        match first_failed(wanted.drop_last(), failed) {
            Some(w) => Some(w),
            None => if fails_window(failed, wanted.last()) {
                Some(wanted.last())
            } else {
                None
            },
        }
    }
}

/// Why the decode of window `w` failed.
pub open spec fn failure_of(failed: Seq<Failure>, w: Window) -> Failure {
    failed[choose|i: int| 0 <= i < failed.len() && (#[trigger] failed[i]).window == w]
}

/// What the mixer is given for a slot: the window it plays, when that is
/// held.
pub open spec fn install_of<P>(selected: Option<Window>, cache: Seq<Held<P>>) -> Option<Window> {
    match selected {
        Some(k) => if holds_window(cache, k) {
            Some(k)
        } else {
            None
        },
        None => None,
    }
}

/// The message a window refused for the cache limit fails with.
pub open spec fn limit_message() -> Seq<char> {
    "preview audio cache limit reached"@
}

impl<P> PlaybackAudio<P> {
    /// The once-a-frame step, with the playhead at output sample `frame`:
    /// a seek of more than half a second abandons what was being decoded;
    /// the windows around the clips under and just ahead of the playhead
    /// become the wanted ones; the decodes the worker finished are taken;
    /// each slot chooses what it plays; and the cache and the failures keep
    /// only what is wanted or playing.
    ///
    /// Returns the windows wanted, slot by slot, for the caller to offer to
    /// [`PlaybackAudio::offer`], and whether what the heard slots play
    /// changed, in which case the mixer's slots are to be replaced.
    pub fn update(&mut self, frame: u64, rate: u64, live: &[SlotLive], completed: Vec<Decoded<P>>) -> (r: (
        Vec<Window>,
        bool,
    ))
        requires
            0 < rate <= u32::MAX,
            live@.len() == old(self).spec_slots().len(),
            sources_fit(old(self).spec_slots(), live@, frame, rate),
        ensures
            final(self).spec_error() == old(self).spec_error(),
            final(self).spec_slots() == old(self).spec_slots(),
            final(self).spec_position() == frame,
            final(self).spec_epoch() == if is_seek(old(self).spec_position(), frame, rate) {
                next_epoch(old(self).spec_epoch())
            } else {
                old(self).spec_epoch()
            },
            r.0@ == all_wants(old(self).spec_slots(), live@, frame, rate),
            final(self).spec_wanted() == distinct_windows(r.0@),
            ({
                let b = accept_all(
                    (
                        old(self).spec_cache(),
                        old(self).spec_failed(),
                        if is_seek(old(self).spec_position(), frame, rate) {
                            Seq::empty()
                        } else {
                            old(self).spec_pending()
                        },
                    ),
                    completed@,
                    final(self).spec_epoch(),
                    final(self).spec_wanted(),
                );
                &&& final(self).spec_pending() == b.2
                &&& final(self).spec_selected() == choices(
                    old(self).spec_selected(),
                    old(self).spec_slots(),
                    live@,
                    b.0,
                    frame,
                    rate,
                )
                &&& final(self).spec_cache() == kept_held(b.0, final(self).spec_wanted(), final(self).spec_selected())
                &&& final(self).spec_failed() == kept_failures(b.1, final(self).spec_wanted())
            }),
            r.1 == (final(self).spec_selected() != heard_selection(old(self).spec_selected(), live@)),
    {
        proof {
            use_type_invariant(&*self);
        }
        let moved = if self.position >= frame {
            self.position - frame
        } else {
            frame - self.position
        };
        if moved > rate / 2 {
            self.epoch = self.epoch.wrapping_add(1);
            self.pending = Vec::new();
        }
        self.position = frame;
        let (needed, wanted) = collect_wants(self.slots.as_slice(), live, frame, rate);
        self.wanted = wanted;
        self.accept(completed);
        let changed = self.select(live, frame, rate);
        proof {
            use_type_invariant(&*self);
        }
        let mut cache: Vec<Held<P>> = Vec::new();
        std::mem::swap(&mut cache, &mut self.cache);
        retain_held(&mut cache, self.wanted.as_slice(), self.selected.as_slice());
        self.cache = cache;
        let mut failed: Vec<Failure> = Vec::new();
        std::mem::swap(&mut failed, &mut self.failed);
        retain_failures(&mut failed, self.wanted.as_slice());
        self.failed = failed;
        (needed, changed)
    }

    /// Offers a wanted window for decoding: one held, being decoded or
    /// failed already is skipped; one that would take the cache past its
    /// limit fails with that reason; else it is to be decoded in the
    /// current epoch, and [`PlaybackAudio::sent`] is to be told once the
    /// worker has it.
    pub fn offer(&mut self, w: Window, rate: u64) -> (r: Admission)
        requires
            rate <= u32::MAX,
        ensures
            final(self).spec_error() == old(self).spec_error(),
            final(self).spec_slots() == old(self).spec_slots(),
            final(self).spec_cache() == old(self).spec_cache(),
            final(self).spec_pending() == old(self).spec_pending(),
            final(self).spec_wanted() == old(self).spec_wanted(),
            final(self).spec_selected() == old(self).spec_selected(),
            final(self).spec_epoch() == old(self).spec_epoch(),
            final(self).spec_position() == old(self).spec_position(),
            if holds_window(old(self).spec_cache(), w) || old(self).spec_pending().contains(w)
                || fails_window(old(self).spec_failed(), w) {
                r == Admission::Skip && final(self).spec_failed() == old(self).spec_failed()
            } else if past_limit(held_total(old(self).spec_cache()), old(self).spec_pending().len() as int, rate) {
                &&& r == Admission::LimitReached
                &&& exists|m: String|
                    m@ == limit_message() && final(self).spec_failed() == put_failure(
                        old(self).spec_failed(),
                        Failure { window: w, message: m },
                    )
            } else {
                r == Admission::Decode(old(self).spec_epoch()) && final(self).spec_failed() == old(
                    self,
                ).spec_failed()
            },
    {
        proof {
            use_type_invariant(&*self);
        }
        if find_held(self.cache.as_slice(), w).is_some() || window_in(self.pending.as_slice(), w)
            || find_failure(self.failed.as_slice(), w).is_some() {
            return Admission::Skip;
        }
        let held = held_sum(self.cache.as_slice());
        assert(2 * WINDOW_SECONDS * rate <= 0x8_0000_0000) by (nonlinear_arith)
            requires
                rate <= 0xffff_ffff,
        ;
        let window: u64 = 2 * WINDOW_SECONDS * rate;
        let full = if held > MAX_CACHE_SAMPLES as u128 {
            true
        } else {
            let pending = self.pending.len() as u128;
            assert(pending * (window as u128) <= 0xffff_ffff_ffff_ffff * 0x8_0000_0000) by (nonlinear_arith)
                requires
                    pending <= 0xffff_ffff_ffff_ffff,
                    window <= 0x8_0000_0000,
            ;
            held + pending * (window as u128) + (window as u128) > MAX_CACHE_SAMPLES as u128
        };
        if full {
            let message = "preview audio cache limit reached".to_string();
            proof {
                reveal_strlit("preview audio cache limit reached");
            }
            let ghost m = message;
            let mut failed: Vec<Failure> = Vec::new();
            std::mem::swap(&mut failed, &mut self.failed);
            store_failure(&mut failed, Failure { window: w, message });
            self.failed = failed;
            assert(m@ == limit_message());
            return Admission::LimitReached;
        }
        Admission::Decode(self.epoch)
    }

    /// Records that the worker took the decode of window `w`.
    pub fn sent(&mut self, w: Window)
        ensures
            final(self).spec_pending() == with_window(old(self).spec_pending(), w),
            final(self).spec_error() == old(self).spec_error(),
            final(self).spec_slots() == old(self).spec_slots(),
            final(self).spec_cache() == old(self).spec_cache(),
            final(self).spec_wanted() == old(self).spec_wanted(),
            final(self).spec_selected() == old(self).spec_selected(),
            final(self).spec_failed() == old(self).spec_failed(),
            final(self).spec_epoch() == old(self).spec_epoch(),
            final(self).spec_position() == old(self).spec_position(),
    {
        proof {
            use_type_invariant(&*self);
            lemma_with_window_distinct(self.pending@, w);
        }
        let mut pending: Vec<Window> = Vec::new();
        std::mem::swap(&mut pending, &mut self.pending);
        add_window(&mut pending, w);
        self.pending = pending;
    }

    /// Whether every heard clip under the playhead has a window to play,
    /// given what the mix graph says of each slot.
    pub fn ready(&self, live: &[SlotLive]) -> (r: bool)
        requires
            live@.len() == self.spec_slots().len(),
        ensures
            r == (self.spec_error() is None && forall|i: int|
                0 <= i < self.spec_selected().len() ==> slot_ready(
                    #[trigger] self.spec_selected()[i],
                    live@[i],
                    self.spec_position(),
                )),
    {
        proof {
            use_type_invariant(self);
        }
        if self.configuration_error.is_some() {
            return false;
        }
        let mut i: usize = 0;
        while i < self.selected.len()
            invariant
                i <= self.selected@.len(),
                live@.len() == self.selected@.len(),
                forall|j: int| 0 <= j < i ==> slot_ready(#[trigger] self.selected@[j], live@[j], self.position),
            decreases self.selected@.len() - i,
        {
            let l = live[i];
            let ok = match l.span {
                None => true,
                Some((start, length)) => !l.audible || self.position < start || self.position
                    >= start.saturating_add(length) || self.selected[i].is_some(),
            };
            if !ok {
                assert(!slot_ready(self.spec_selected()[i as int], live@[i as int], self.spec_position()));
                return false;
            }
            i = i + 1;
        }
        true
    }

    /// The samples the cache holds together.
    pub fn held_samples(&self) -> (r: u128)
        ensures
            r == held_total(self.spec_cache()),
    {
        held_sum(self.cache.as_slice())
    }

    /// How many windows are being decoded.
    pub fn pending_count(&self) -> (r: usize)
        ensures
            r == self.spec_pending().len(),
    {
        self.pending.len()
    }

    /// Whether windows near the playhead are still being decoded.
    pub fn loading(&self) -> (r: bool)
        ensures
            r == (self.spec_pending().len() > 0),
    {
        self.pending.len() > 0
    }

    /// What to show beside the playback controls: why the project's audio
    /// could not be set up, else why the first wanted window that failed
    /// did.
    pub fn error(&self) -> (r: Option<&str>)
        ensures
            match self.spec_error() {
                Some(e) => r matches Some(m) && m@ == e@,
                None => match first_failed(self.spec_wanted(), self.spec_failed()) {
                    Some(w) => r matches Some(m) && m@ == failure_of(self.spec_failed(), w).message@,
                    None => r is None,
                },
            },
    {
        proof {
            use_type_invariant(self);
        }
        match &self.configuration_error {
            Some(e) => {
                return Some(e.as_str());
            },
            None => {},
        }
        let mut i: usize = 0;
        while i < self.wanted.len()
            invariant
                i <= self.wanted@.len(),
                failures_distinct(self.failed@),
                self.configuration_error is None,
                first_failed(self.wanted@.subrange(0, i as int), self.failed@) is None,
            decreases self.wanted@.len() - i,
        {
            let w = self.wanted[i];
            assert(self.wanted@.subrange(0, i + 1 as int).drop_last() =~= self.wanted@.subrange(0, i as int));
            assert(self.wanted@.subrange(0, i + 1 as int).last() == w);
            match find_failure(self.failed.as_slice(), w) {
                Some(j) => {
                    proof {
                        assert(self.failed@[j as int].window == w);
                        assert(fails_window(self.failed@, w));
                        assert(first_failed(self.wanted@.subrange(0, i + 1 as int), self.failed@) == Some(w));
                        let c = choose|c: int| 0 <= c < self.failed@.len() && (#[trigger] self.failed@[c]).window == w;
                        assert(c == j);
                        assert(failure_of(self.failed@, w) == self.failed@[j as int]);
                        lemma_first_failed_prefix(self.wanted@, self.failed@, i as int + 1);
                    }
                    let m = self.failed[j].message.as_str();
                    return Some(m);
                },
                None => {},
            }
            i = i + 1;
        }
        assert(self.wanted@.subrange(0, self.wanted@.len() as int) =~= self.wanted@);
        None
    }

    /// For each slot, the window the mixer is to play from it: the one the
    /// slot plays, when it is held; else the slot is to be cleared.
    pub fn installs(&self) -> (r: Vec<Option<Window>>)
        ensures
            r@.len() == self.spec_selected().len(),
            forall|i: int| 0 <= i < r@.len() ==> #[trigger] r@[i] == install_of(self.spec_selected()[i], self.spec_cache()),
    {
        let mut out: Vec<Option<Window>> = Vec::new();
        let mut i: usize = 0;
        while i < self.selected.len()
            invariant
                i <= self.selected@.len(),
                out@.len() == i,
                forall|j: int| 0 <= j < i ==> #[trigger] out@[j] == install_of(self.selected@[j], self.cache@),
            decreases self.selected@.len() - i,
        {
            let choice = match self.selected[i] {
                Some(k) => match find_held(self.cache.as_slice(), k) {
                    Some(_) => Some(k),
                    None => None,
                },
                None => None,
            };
            out.push(choice);
            i = i + 1;
        }
        out
    }

    /// The samples of window `w`, when they are held.
    pub fn samples(&self, w: Window) -> (r: Option<&P>)
        ensures
            match r {
                Some(d) => exists|i: int|
                    0 <= i < self.spec_cache().len() && (#[trigger] self.spec_cache()[i]).window == w
                        && self.spec_cache()[i].data == *d,
                None => !holds_window(self.spec_cache(), w),
            },
    {
        match find_held(self.cache.as_slice(), w) {
            Some(i) => {
                assert(self.spec_cache()[i as int].window == w);
                Some(&self.cache[i].data)
            },
            None => None,
        }
    }
}

proof fn lemma_first_failed_prefix(wanted: Seq<Window>, failed: Seq<Failure>, n: int)
    requires
        0 <= n <= wanted.len(),
        first_failed(wanted.subrange(0, n), failed) is Some,
    ensures
        first_failed(wanted, failed) == first_failed(wanted.subrange(0, n), failed),
    decreases wanted.len() - n,
{
    if n < wanted.len() {
        lemma_first_failed_prefix_step(wanted, failed, n);
        lemma_first_failed_prefix(wanted, failed, n + 1);
    } else {
        assert(wanted.subrange(0, n) =~= wanted);
    }
}

proof fn lemma_first_failed_prefix_step(wanted: Seq<Window>, failed: Seq<Failure>, n: int)
    requires
        0 <= n < wanted.len(),
        first_failed(wanted.subrange(0, n), failed) is Some,
    ensures
        first_failed(wanted.subrange(0, n + 1), failed) == first_failed(wanted.subrange(0, n), failed),
{
    assert(wanted.subrange(0, n + 1).drop_last() =~= wanted.subrange(0, n));
}

/// A slot plays a held window whenever one of its source holds the sample
/// under the playhead: the latest-starting such window, so scrubbing back
/// over a window already decoded plays it again without a new decode.
pub proof fn law_a_held_window_is_played<P>(cache: Seq<Held<P>>, src: u64, source: u64, rate: u64)
    ensures
        match best_window(cache, src, source, rate) {
            Some(w) => {
                &&& holds_window(cache, w)
                &&& w.source == src
                &&& window_holds(w.start, source, rate)
                &&& forall|i: int|
                    0 <= i < cache.len() && (#[trigger] cache[i]).window.source == src && window_holds(
                        cache[i].window.start,
                        source,
                        rate,
                    ) ==> cache[i].window.start <= w.start
            },
            None => forall|i: int|
                0 <= i < cache.len() && (#[trigger] cache[i]).window.source == src ==> !window_holds(
                    cache[i].window.start,
                    source,
                    rate,
                ),
        },
    decreases cache.len(),
{
    if cache.len() > 0 {
        let init = cache.drop_last();
        law_a_held_window_is_played(init, src, source, rate);
        let last = cache.last();
        assert forall|i: int| 0 <= i < init.len() implies #[trigger] cache[i] == init[i] by {}
        match best_window(init, src, source, rate) {
            Some(k) => {
                let m = choose|m: int| 0 <= m < init.len() && (#[trigger] init[m]).window == k;
                assert(cache[m].window == k);
            },
            None => {},
        }
        assert(cache[cache.len() - 1] == last);
    }
}

/// After a frame the cache holds only windows that are wanted or that a
/// slot plays, and keeps every one of those it held.
pub proof fn law_the_cache_keeps_what_is_wanted_or_playing<P>(
    s: Seq<Held<P>>,
    wanted: Seq<Window>,
    selected: Seq<Option<Window>>,
)
    ensures
        forall|i: int|
            0 <= i < kept_held(s, wanted, selected).len() ==> keeps_window(
                wanted,
                selected,
                (#[trigger] kept_held(s, wanted, selected)[i]).window,
            ),
        forall|i: int|
            0 <= i < s.len() && keeps_window(wanted, selected, (#[trigger] s[i]).window) ==> kept_held(
                s,
                wanted,
                selected,
            ).contains(s[i]),
{
    broadcast use vstd::seq_lib::group_filter_ensures;
    let p = |h: Held<P>| keeps_window(wanted, selected, h.window);
    assert forall|i: int| 0 <= i < kept_held(s, wanted, selected).len() implies keeps_window(
        wanted,
        selected,
        (#[trigger] kept_held(s, wanted, selected)[i]).window,
    ) by {
        s.lemma_filter_pred(p, i);
    }
    assert forall|i: int| 0 <= i < s.len() && keeps_window(wanted, selected, (#[trigger] s[i]).window) implies kept_held(
        s,
        wanted,
        selected,
    ).contains(s[i]) by {
        s.lemma_filter_contains(p, i);
    }
}

/// A decode asked for before the last seek or reconfiguration is dropped
/// when it finishes: it neither fills the cache nor fails a window, so a
/// late load never plays in place of what the playhead wants now.
pub proof fn law_a_stale_decode_is_dropped<P>(b: Books<P>, d: Decoded<P>, epoch: u64, wanted: Seq<Window>)
    requires
        d.epoch != epoch,
    ensures
        accept_one(b, d, epoch, wanted) == b,
{
}

/// Every window a frame wants belongs to a heard slot whose clip is under
/// the playhead or about to be, is of that slot's source, and starts
/// within a grid step and a tenth of a second before the sample under the
/// playhead and no more than a second after it: decoding stays around the
/// playhead, however long the source.
pub proof fn law_decoding_stays_near_the_playhead(
    slots: Seq<AudioSlot>,
    live: Seq<SlotLive>,
    frame: u64,
    rate: u64,
    w: Window,
)
    requires
        0 < rate <= u32::MAX,
        live.len() == slots.len(),
        all_wants(slots, live, frame, rate).contains(w),
    ensures
        exists|i: int|
            0 <= i < slots.len() && (#[trigger] live[i]).audible && match live[i].span {
                Some((start, length)) => {
                    &&& slot_near(frame, rate, start, length)
                    &&& w.source == slots[i].source
                    &&& sat_sub(slot_source(slots[i], frame, start), (rate * STEP_SECONDS + rate / 10) as u64)
                        <= w.start
                    &&& w.start <= slot_source(slots[i], frame, start) + rate
                },
                None => false,
            },
    decreases slots.len(),
{
    let init = slots.drop_last();
    let n = slots.len() - 1;
    let head = all_wants(init, live, frame, rate);
    let tail = slot_wants(slots.last(), live[n], frame, rate);
    assert(all_wants(slots, live, frame, rate) == head + tail);
    if head.contains(w) {
        lemma_wants_ignore_later_live(init, live, n, frame, rate);
        law_decoding_stays_near_the_playhead(init, live.subrange(0, n), frame, rate, w);
        let i = choose|i: int|
            0 <= i < init.len() && (#[trigger] live.subrange(0, n)[i]).audible && match live.subrange(0, n)[i].span {
                Some((start, length)) => {
                    &&& slot_near(frame, rate, start, length)
                    &&& w.source == init[i].source
                    &&& sat_sub(slot_source(init[i], frame, start), (rate * STEP_SECONDS + rate / 10) as u64)
                        <= w.start
                    &&& w.start <= slot_source(init[i], frame, start) + rate
                },
                None => false,
            };
        assert(live.subrange(0, n)[i] == live[i]);
        assert(init[i] == slots[i]);
    } else {
        let j = choose|j: int| 0 <= j < (head + tail).len() && (head + tail)[j] == w;
        assert(j >= head.len()) by {
            if j < head.len() {
                assert(head[j] == w);
            }
        }
        assert(tail.contains(w)) by {
            assert(tail[j - head.len()] == w);
        }
        lemma_slot_wants_near(slots.last(), live[n], frame, rate, w);
        assert(slots[n] == slots.last());
    }
}

proof fn lemma_wants_ignore_later_live(slots: Seq<AudioSlot>, live: Seq<SlotLive>, n: int, frame: u64, rate: u64)
    requires
        0 <= slots.len() <= n <= live.len(),
    ensures
        all_wants(slots, live, frame, rate) == all_wants(slots, live.subrange(0, n), frame, rate),
    decreases slots.len(),
{
    if slots.len() > 0 {
        lemma_wants_ignore_later_live(slots.drop_last(), live, n, frame, rate);
        assert(live.subrange(0, n)[slots.len() - 1] == live[slots.len() - 1]);
    }
}

proof fn lemma_slot_wants_near(slot: AudioSlot, live: SlotLive, frame: u64, rate: u64, w: Window)
    requires
        0 < rate <= u32::MAX,
        slot_wants(slot, live, frame, rate).contains(w),
    ensures
        live.audible,
        match live.span {
            Some((start, length)) => {
                &&& slot_near(frame, rate, start, length)
                &&& w.source == slot.source
                &&& sat_sub(slot_source(slot, frame, start), (rate * STEP_SECONDS + rate / 10) as u64)
                    <= w.start
                &&& w.start <= slot_source(slot, frame, start) + rate
            },
            None => false,
        },
{
    let ws = slot_wants(slot, live, frame, rate);
    let k = choose|k: int| 0 <= k < ws.len() && ws[k] == w;
    match live.span {
        Some((start, length)) => {
            let source = slot_source(slot, frame, start);
            let step = (rate * STEP_SECONDS) as int;
            let q = source as int / step;
            let grid = q * step;
            vstd::arithmetic::div_mod::lemma_fundamental_div_mod(source as int, step);
            assert(grid <= source < grid + step) by (nonlinear_arith)
                requires
                    source as int == step * q + source as int % step,
                    0 <= source as int % step < step,
                    grid == q * step,
            ;
            assert(q >= 0) by (nonlinear_arith)
                requires
                    source >= 0,
                    step > 0,
                    q == source as int / step,
            ;
            assert(grid >= 0) by (nonlinear_arith)
                requires
                    q >= 0,
                    step > 0,
                    grid == q * step,
            ;
        },
        None => {},
    }
}

/// One clip of a track, as the sequence holds it: the media item it plays,
/// the audio stream of that item, and where in the item it begins.
#[derive(Debug, Clone, Copy)]
pub struct ClipSource {
    /// The media item's id.
    pub media: u128,
    /// Which audio stream of the item.
    pub stream: u16,
    /// Where the clip begins in the item.
    pub source_start: MediaTime,
}

/// One track of the sequence: whether it is an audio track, and its clips in
/// timeline order.
pub struct TrackSource {
    /// Whether the track carries sound.
    pub audio: bool,
    /// Its clips, in timeline order.
    pub clips: Vec<ClipSource>,
}

/// A clip the live mix plays: its lane among the audio tracks, its media
/// item's place in the project's list, its stream, and the output sample
/// its source begins at.
#[derive(Debug, Clone, Copy, PartialEq, Eq, Structural)]
pub struct PlannedSlot {
    /// The lane, counting audio tracks only.
    pub track: usize,
    /// The media item's place in the project's list.
    pub media: usize,
    /// Which audio stream of the item.
    pub stream: u16,
    /// The output sample the clip's source begins at.
    pub source_start: u64,
}

/// Why the live mix cannot be set up for a sequence.
#[derive(Debug, Clone, Copy, PartialEq, Eq, Structural)]
pub enum SlotError {
    /// The sequence's sample rate is zero.
    InvalidRate,
    /// A clip plays a media item the project does not have.
    MissingMedia,
    /// A clip begins where no output sample is: before the source, or past
    /// any sample position.
    StartNotRepresentable,
}

/// The first place of `id` in `media`.
pub open spec fn media_place(media: Seq<u128>, id: u128) -> Option<int>
    decreases media.len(),
{
    if media.len() == 0 {
        None
    } else {
        match media_place(media.drop_last(), id) {
            Some(i) => Some(i),
            None => if media.last() == id {
                Some(media.len() - 1)
            } else {
                None
            },
        }
    }
}

/// The output sample a clip that begins at `t` begins at, at `rate` samples
/// a second: `t` rescaled and rounded down.
pub open spec fn start_sample(t: MediaTime, rate: u32) -> int {
    (t.value * t.rate.denominator * rate) / (t.rate.numerator as int)
}

/// Whether that sample is a position at all: the clip's rate is a rate, and
/// the sample is neither before the source nor past the largest position.
pub open spec fn start_fits(t: MediaTime, rate: u32) -> bool {
    t.rate.numerator > 0 && t.value * t.rate.denominator * rate >= 0 && start_sample(t, rate) <= i64::MAX
}

/// The slot a clip on lane `lane` becomes, or why it cannot.
pub open spec fn clip_slot(c: ClipSource, lane: int, media: Seq<u128>, rate: u32) -> Result<PlannedSlot, SlotError> {
    match media_place(media, c.media) {
        None => Err(SlotError::MissingMedia),
        Some(i) => if !start_fits(c.source_start, rate) {
            Err(SlotError::StartNotRepresentable)
        } else {
            Ok(
                PlannedSlot {
                    track: lane as usize,
                    media: i as usize,
                    stream: c.stream,
                    source_start: start_sample(c.source_start, rate) as u64,
                },
            )
        },
    }
}

/// The slots the clips of one track on lane `lane` become, or the first
/// reason one cannot.
pub open spec fn track_slots(clips: Seq<ClipSource>, lane: int, media: Seq<u128>, rate: u32) -> Result<Seq<PlannedSlot>, SlotError>
    decreases clips.len(),
{
    if clips.len() == 0 {
        Ok(Seq::empty())
    } else {
        match track_slots(clips.drop_last(), lane, media, rate) {
            Err(e) => Err(e),
            Ok(s) => match clip_slot(clips.last(), lane, media, rate) {
                Err(e) => Err(e),
                Ok(x) => Ok(s.push(x)),
            },
        }
    }
}

/// How many of `tracks` carry sound.
pub open spec fn audio_lanes(tracks: Seq<TrackSource>) -> int
    decreases tracks.len(),
{
    if tracks.len() == 0 {
        0
    } else {
        audio_lanes(tracks.drop_last()) + if tracks.last().audio {
            1int
        } else {
            0
        }
    }
}

/// The slots of every audio track, lane by lane, or the first reason a
/// clip cannot become one.
pub open spec fn sequence_slots(tracks: Seq<TrackSource>, media: Seq<u128>, rate: u32) -> Result<Seq<PlannedSlot>, SlotError>
    decreases tracks.len(),
{
    if tracks.len() == 0 {
        Ok(Seq::empty())
    } else {
        match sequence_slots(tracks.drop_last(), media, rate) {
            Err(e) => Err(e),
            Ok(s) => if !tracks.last().audio {
                Ok(s)
            } else {
                match track_slots(tracks.last().clips@, audio_lanes(tracks.drop_last()), media, rate) {
                    Err(e) => Err(e),
                    Ok(t) => Ok(s + t),
                }
            },
        }
    }
}

/// Where `id` is in `media`.
fn find_media(media: &[u128], id: u128) -> (r: Option<usize>)
    ensures
        match media_place(media@, id) {
            Some(i) => r == Some(i as usize),
            None => r is None,
        },
{
    let mut i: usize = 0;
    while i < media.len()
        invariant
            i <= media@.len(),
            media_place(media@.subrange(0, i as int), id) is None,
        decreases media@.len() - i,
    {
        assert(media@.subrange(0, i + 1 as int).drop_last() =~= media@.subrange(0, i as int));
        if media[i] == id {
            assert(media_place(media@.subrange(0, i + 1 as int), id) == Some(i as int));
            proof {
                lemma_place_prefix(media@, id, i as int + 1);
            }
            return Some(i);
        }
        i = i + 1;
    }
    assert(media@.subrange(0, media@.len() as int) =~= media@);
    None
}

proof fn lemma_place_prefix(media: Seq<u128>, id: u128, n: int)
    requires
        0 <= n <= media.len(),
        media_place(media.subrange(0, n), id) is Some,
    ensures
        media_place(media, id) == media_place(media.subrange(0, n), id),
    decreases media.len() - n,
{
    if n < media.len() {
        assert(media.subrange(0, n + 1).drop_last() =~= media.subrange(0, n));
        lemma_place_prefix(media, id, n + 1);
    } else {
        assert(media.subrange(0, n) =~= media);
    }
}

/// The output sample a clip beginning at `t` begins at, when it is one.
fn start_of(t: MediaTime, rate: u32) -> (r: Option<u64>)
    ensures
        r is Some == start_fits(t, rate),
        r matches Some(v) ==> v == start_sample(t, rate),
{
    if t.rate.numerator == 0 {
        return None;
    }
    let v: i128 = t.value as i128;
    let den: i128 = t.rate.denominator as i128;
    let sr: i128 = rate as i128;
    assert(-0x8000_0000_0000_0000 * 0xffff_ffff <= v * den <= 0x7fff_ffff_ffff_ffff * 0xffff_ffff) by (nonlinear_arith)
        requires
            -0x8000_0000_0000_0000 <= v <= 0x7fff_ffff_ffff_ffff,
            0 <= den <= 0xffff_ffff,
    ;
    let a: i128 = v * den;
    assert(-0x8000_0000_0000_0000 * 0xffff_ffff * 0xffff_ffff <= a * sr <= 0x7fff_ffff_ffff_ffff * 0xffff_ffff * 0xffff_ffff) by (nonlinear_arith)
        requires
            -0x8000_0000_0000_0000 * 0xffff_ffff <= a <= 0x7fff_ffff_ffff_ffff * 0xffff_ffff,
            0 <= sr <= 0xffff_ffff,
    ;
    let n: i128 = a * sr;
    assert(n == t.value * t.rate.denominator * rate) by (nonlinear_arith)
        requires
            n == a * sr,
            a == v * den,
            v == t.value,
            den == t.rate.denominator,
            sr == rate,
    ;
    if n < 0 {
        return None;
    }
    let num: i128 = t.rate.numerator as i128;
    let q: i128 = n / num;
    assert(q == start_sample(t, rate));
    if q > i64::MAX as i128 {
        return None;
    }
    assert(q >= 0) by (nonlinear_arith)
        requires
            q == n / num,
            n >= 0,
            num > 0,
    ;
    Some(q as u64)
}

/// The slots the live mix plays for a sequence whose tracks are `tracks`,
/// in a project whose media items are `media`, at `sample_rate` samples a
/// second: one per clip of each audio track, lane by lane; or why the mix
/// cannot be set up: a zero sample rate, or the first clip whose media is
/// missing or whose start is no sample position.
pub fn audio_slots(tracks: &[TrackSource], media: &[u128], sample_rate: u32) -> (r: Result<
    Vec<PlannedSlot>,
    SlotError,
>)
    ensures
        sample_rate == 0 ==> r == Err::<Vec<PlannedSlot>, SlotError>(SlotError::InvalidRate),
        sample_rate > 0 ==> match sequence_slots(tracks@, media@, sample_rate) {
            Ok(s) => r matches Ok(v) && v@ == s,
            Err(e) => r == Err::<Vec<PlannedSlot>, SlotError>(e),
        },
{
    if sample_rate == 0 {
        return Err(SlotError::InvalidRate);
    }
    let mut slots: Vec<PlannedSlot> = Vec::new();
    let mut lane: usize = 0;
    let mut i: usize = 0;
    while i < tracks.len()
        invariant
            i <= tracks@.len(),
            sample_rate > 0,
            lane == audio_lanes(tracks@.subrange(0, i as int)),
            lane <= i,
            sequence_slots(tracks@.subrange(0, i as int), media@, sample_rate) == Ok::<Seq<PlannedSlot>, SlotError>(slots@),
        decreases tracks@.len() - i,
    {
        let ghost prefix = tracks@.subrange(0, i + 1 as int);
        assert(prefix.drop_last() =~= tracks@.subrange(0, i as int));
        assert(prefix.last() == tracks@[i as int]);
        let track = &tracks[i];
        if track.audio {
            let ghost before = slots@;
            let mut k: usize = 0;
            while k < track.clips.len()
                invariant
                    k <= track.clips@.len(),
                    lane <= i < tracks@.len(),
                    track == tracks@[i as int],
                    track.audio,
                    sample_rate > 0,
                    lane == audio_lanes(tracks@.subrange(0, i as int)),
                    sequence_slots(tracks@.subrange(0, i as int), media@, sample_rate) == Ok::<Seq<PlannedSlot>, SlotError>(before),
                    slots@ == before + track_slots(track.clips@.subrange(0, k as int), lane as int, media@, sample_rate)->Ok_0,
                    track_slots(track.clips@.subrange(0, k as int), lane as int, media@, sample_rate) is Ok,
                decreases track.clips@.len() - k,
            {
                let c = track.clips[k];
                let ghost part = track.clips@.subrange(0, k + 1 as int);
                assert(part.drop_last() =~= track.clips@.subrange(0, k as int));
                assert(part.last() == c);
                let place = match find_media(media, c.media) {
                    Some(p) => p,
                    None => {
                        proof {
                            lemma_track_error_sticks(track.clips@, lane as int, media@, sample_rate, k as int + 1);
                            let pre = tracks@.subrange(0, i + 1 as int);
                            assert(pre.drop_last() =~= tracks@.subrange(0, i as int));
                            assert(pre.last() == tracks@[i as int]);
                            lemma_sequence_error_sticks(tracks@, media@, sample_rate, i as int + 1);
                        }
                        return Err(SlotError::MissingMedia);
                    },
                };
                let start = match start_of(c.source_start, sample_rate) {
                    Some(v) => v,
                    None => {
                        proof {
                            lemma_track_error_sticks(track.clips@, lane as int, media@, sample_rate, k as int + 1);
                            let pre = tracks@.subrange(0, i + 1 as int);
                            assert(pre.drop_last() =~= tracks@.subrange(0, i as int));
                            assert(pre.last() == tracks@[i as int]);
                            lemma_sequence_error_sticks(tracks@, media@, sample_rate, i as int + 1);
                        }
                        return Err(SlotError::StartNotRepresentable);
                    },
                };
                slots.push(PlannedSlot { track: lane, media: place, stream: c.stream, source_start: start });
                k = k + 1;
            }
            assert(track.clips@.subrange(0, track.clips@.len() as int) =~= track.clips@);
            lane = lane + 1;
        }
        i = i + 1;
    }
    assert(tracks@.subrange(0, tracks@.len() as int) =~= tracks@);
    Ok(slots)
}

proof fn lemma_track_error_sticks(clips: Seq<ClipSource>, lane: int, media: Seq<u128>, rate: u32, n: int)
    requires
        0 <= n <= clips.len(),
        track_slots(clips.subrange(0, n), lane, media, rate) is Err,
    ensures
        track_slots(clips, lane, media, rate) == track_slots(clips.subrange(0, n), lane, media, rate),
    decreases clips.len() - n,
{
    if n < clips.len() {
        assert(clips.subrange(0, n + 1).drop_last() =~= clips.subrange(0, n));
        lemma_track_error_sticks(clips, lane, media, rate, n + 1);
    } else {
        assert(clips.subrange(0, n) =~= clips);
    }
}

proof fn lemma_sequence_error_sticks(tracks: Seq<TrackSource>, media: Seq<u128>, rate: u32, n: int)
    requires
        0 <= n <= tracks.len(),
        sequence_slots(tracks.subrange(0, n), media, rate) is Err,
    ensures
        sequence_slots(tracks, media, rate) == sequence_slots(tracks.subrange(0, n), media, rate),
    decreases tracks.len() - n,
{
    if n < tracks.len() {
        assert(tracks.subrange(0, n + 1).drop_last() =~= tracks.subrange(0, n));
        lemma_sequence_error_sticks(tracks, media, rate, n + 1);
    } else {
        assert(tracks.subrange(0, n) =~= tracks);
    }
}


/// A clip whose track is not heard never holds playback back: it asks for
/// no window, and needs none to be ready.
pub proof fn law_an_unheard_clip_needs_no_window(selected: Option<Window>, live: SlotLive, position: u64)
    requires
        !live.audible,
    ensures
        slot_ready(selected, live, position),
{
}

/// A heard clip under the playhead is ready only once it has a window to
/// play. (A clip whose end overflows is taken to end at the last sample
/// position, which it then does not cover.)
pub proof fn law_a_heard_clip_under_the_playhead_needs_a_window(live: SlotLive, position: u64)
    requires
        live.audible,
        live.span matches Some((start, length)) && start <= position && position < start + length
            && (start + length <= u64::MAX || position < u64::MAX),
    ensures
        !slot_ready(None, live, position),
{
}

/// Whether playback is ready does not depend on what the slots of unheard
/// tracks hold: two selections that agree on every heard slot are ready
/// together.
pub proof fn law_readiness_ignores_unheard_slots(
    a: Seq<Option<Window>>,
    b: Seq<Option<Window>>,
    live: Seq<SlotLive>,
    position: u64,
)
    requires
        a.len() == b.len(),
        live.len() == a.len(),
        forall|i: int| 0 <= i < a.len() && (#[trigger] live[i]).audible ==> a[i] == b[i],
    ensures
        (forall|i: int| 0 <= i < a.len() ==> slot_ready(#[trigger] a[i], live[i], position)) == (forall|i: int|
            0 <= i < b.len() ==> slot_ready(#[trigger] b[i], live[i], position)),
{
    assert forall|i: int| 0 <= i < a.len() implies slot_ready(#[trigger] a[i], live[i], position)
        == slot_ready(b[i], live[i], position) by {
        if live[i].audible {
            assert(a[i] == b[i]);
        }
    }
    if forall|i: int| 0 <= i < a.len() ==> slot_ready(#[trigger] a[i], live[i], position) {
        assert forall|i: int| 0 <= i < b.len() implies slot_ready(#[trigger] b[i], live[i], position) by {
            assert(slot_ready(a[i], live[i], position));
        }
    }
    if forall|i: int| 0 <= i < b.len() ==> slot_ready(#[trigger] b[i], live[i], position) {
        assert forall|i: int| 0 <= i < a.len() implies slot_ready(#[trigger] a[i], live[i], position) by {
            assert(slot_ready(b[i], live[i], position));
        }
    }
}

} // verus!
