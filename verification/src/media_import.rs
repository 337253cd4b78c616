//! The bookkeeping of imports: which Import gesture each file belongs to,
//! and when a gesture is whole.
//!
//! A gesture is one undo step, so nothing of it is applied until every file
//! it asked for has finished; the outcomes then come back in the order the
//! user chose the files, not the order the jobs happened to finish. The
//! hashing and probing themselves run as jobs the host owns.

use vstd::prelude::*;
use crate::media_bin::{MediaTime, Rational, VideoInfo};

verus! {

/// The rate a video stream that declares none is given: one frame a second,
/// so that a length in frames is never divided by zero.
pub open spec fn spec_unknown_frame_rate() -> Rational {
    Rational { numerator: 1, denominator: 1 }
}

/// The rate a video stream that declares none is given.
pub fn unknown_frame_rate() -> (r: Rational)
    ensures
        r == spec_unknown_frame_rate(),
{
    Rational { numerator: 1, denominator: 1 }
}

/// One video stream as the probe reports it.
#[derive(Debug, Clone, Copy, PartialEq, Eq, Structural)]
pub struct ProbedVideo {
    /// Width in pixels.
    pub width: u32,
    /// Height in pixels.
    pub height: u32,
    /// The rate the stream declares, if it declares one.
    pub frame_rate: Option<Rational>,
}

/// One audio stream, as the probe reports it and the project keeps it.
#[derive(Debug, Clone, Copy, PartialEq, Eq, Structural)]
pub struct AudioStream {
    /// Channels.
    pub channels: u32,
    /// Samples a second.
    pub sample_rate: u32,
}

/// What the probe found in a file.
pub struct ProbedMedia {
    /// Its length, when the container states one.
    pub duration: Option<MediaTime>,
    /// Its video streams, in container order.
    pub video: Vec<ProbedVideo>,
    /// Its audio streams, in container order.
    pub audio: Vec<AudioStream>,
}

/// What the project file keeps of a probe.
pub struct StreamInfo {
    /// The file's length.
    pub duration: Option<MediaTime>,
    /// Its video streams, each with a rate.
    pub video: Vec<VideoInfo>,
    /// Its audio streams.
    pub audio: Vec<AudioStream>,
}

/// The stream the project keeps for a probed video stream.
pub open spec fn kept_video(v: ProbedVideo) -> VideoInfo {
    VideoInfo {
        width: v.width,
        height: v.height,
        frame_rate: match v.frame_rate {
            Some(r) => r,
            None => spec_unknown_frame_rate(),
        },
    }
}

/// The probe result as the project file keeps it: every stream, in order,
/// a video stream that declares no rate given the stand-in rate.
pub fn stream_info(info: &ProbedMedia) -> (r: StreamInfo)
    ensures
        r.duration == info.duration,
        r.video@.len() == info.video@.len(),
        forall|i: int| 0 <= i < info.video@.len() ==> r.video@[i] == kept_video(#[trigger] info.video@[i]),
        r.audio@ == info.audio@,
{
    let mut video: Vec<VideoInfo> = Vec::new();
    let mut i: usize = 0;
    while i < info.video.len()
        invariant
            i <= info.video@.len(),
            video@.len() == i,
            forall|k: int| 0 <= k < i ==> video@[k] == kept_video(#[trigger] info.video@[k]),
        decreases info.video@.len() - i,
    {
        let v = info.video[i];
        let frame_rate = match v.frame_rate {
            Some(r) => r,
            None => unknown_frame_rate(),
        };
        video.push(VideoInfo { width: v.width, height: v.height, frame_rate });
        i = i + 1;
    }
    let mut audio: Vec<AudioStream> = Vec::new();
    let mut j: usize = 0;
    while j < info.audio.len()
        invariant
            j <= info.audio@.len(),
            audio@ == info.audio@.subrange(0, j as int),
        decreases info.audio@.len() - j,
    {
        audio.push(info.audio[j]);
        j = j + 1;
        assert(audio@ =~= info.audio@.subrange(0, j as int));
    }
    assert(info.audio@.subrange(0, info.audio@.len() as int) =~= info.audio@);
    StreamInfo { duration: info.duration, video, audio }
}

/// Whether a probed file has a length greater than nothing.
pub open spec fn has_length(info: StreamInfo) -> bool {
    match info.duration {
        Some(d) => d.value != 0,
        None => false,
    }
}

/// Which summaries a freshly imported item is worth generating: a
/// thumbnail strip when it has a length and a picture, a waveform when it
/// has a length and sound. An item with no probe result gets neither.
pub fn followups(info: Option<&StreamInfo>) -> (r: (bool, bool))
    ensures
        r.0 == (info matches Some(i) && has_length(*i) && i.video@.len() > 0),
        r.1 == (info matches Some(i) && has_length(*i) && i.audio@.len() > 0),
{
    match info {
        None => (false, false),
        Some(i) => {
            let long = match i.duration {
                Some(d) => d.value != 0,
                None => false,
            };
            (long && i.video.len() > 0, long && i.audio.len() > 0)
        },
    }
}

/// The job kind every import reports itself as.
pub const IMPORT_JOB_KIND: &'static str = "import";

/// One batch of imports: everything one Import gesture asked for.
#[derive(Debug, Clone, Copy, PartialEq, Eq, Structural, PartialOrd, Ord, Hash)]
pub struct ImportBatch(pub u64);

impl ImportBatch {
    /// The batch's number, in the order the queue handed them out.
    pub fn index(self) -> (r: u64)
        ensures
            r == self.0,
    {
        self.0
    }
}

/// A gesture still waiting for some of its files.
pub struct OpenBatch<O> {
    /// The gesture.
    pub batch: ImportBatch,
    /// The bin every file in it is filed in, or the root bin when absent.
    pub bin: Option<u64>,
    /// One entry per file asked for, in the order asked: its outcome once
    /// its job has finished.
    pub slots: Vec<Option<O>>,
}

/// Everything one Import gesture produced, once all of it has finished.
pub struct FinishedImport<O> {
    /// The gesture these outcomes belong to.
    pub batch: ImportBatch,
    /// The bin every file in the gesture was filed in.
    pub bin: Option<u64>,
    /// One outcome per file, in the order they were asked for.
    pub outcomes: Vec<O>,
}

/// The outcomes `slots` holds, in order.
pub open spec fn outcomes_of<O>(slots: Seq<Option<O>>) -> Seq<O>
    decreases slots.len(),
{
    if slots.len() == 0 {
        Seq::empty()
    } else {
        let before = outcomes_of(slots.drop_last());
        match slots.last() {
            Some(o) => before.push(o),
            None => before,
        }
    }
}

/// The open gestures of `open` that still have a file running.
pub open spec fn still_open<O>(open: Seq<OpenBatch<O>>, running: Seq<ImportBatch>) -> Seq<
    OpenBatch<O>,
>
    decreases open.len(),
{
    if open.len() == 0 {
        Seq::empty()
    } else {
        let before = still_open(open.drop_last(), running);
        if running.contains(open.last().batch) {
            before.push(open.last())
        } else {
            before
        }
    }
}

/// The open gestures of `open` with no file running, in order.
pub open spec fn now_whole<O>(open: Seq<OpenBatch<O>>, running: Seq<ImportBatch>) -> Seq<
    OpenBatch<O>,
>
    decreases open.len(),
{
    if open.len() == 0 {
        Seq::empty()
    } else {
        let before = now_whole(open.drop_last(), running);
        if running.contains(open.last().batch) {
            before
        } else {
            before.push(open.last())
        }
    }
}

/// The batch numbers of `open`, in order.
pub open spec fn batch_ids<O>(open: Seq<OpenBatch<O>>) -> Seq<ImportBatch> {
    open.map_values(|o: OpenBatch<O>| o.batch)
}

/// The gestures an import queue has asked for and not yet handed back.
pub struct ImportBook<O> {
    next_batch: u64,
    open: Vec<OpenBatch<O>>,
}

impl<O> ImportBook<O> {
    /// The number the next gesture gets.
    pub closed spec fn spec_next(&self) -> u64 {
        self.next_batch
    }

    /// The gestures not yet handed back, oldest first.
    pub closed spec fn spec_open(&self) -> Seq<OpenBatch<O>> {
        self.open@
    }

    /// The number the next gesture will get.
    pub fn next_batch(&self) -> (r: u64)
        ensures
            r == self.spec_next(),
    {
        self.next_batch
    }

    /// Open gestures are numbered in increasing order, below the next
    /// number to hand out.
    #[verifier::type_invariant]
    pub open spec fn wf(&self) -> bool {
        &&& forall|i: int, j: int|
            0 <= i < j < self.spec_open().len() ==> (#[trigger] self.spec_open()[i]).batch.0
                < (#[trigger] self.spec_open()[j]).batch.0
        &&& forall|i: int|
            0 <= i < self.spec_open().len() ==> (#[trigger] self.spec_open()[i]).batch.0
                < self.spec_next()
    }

    /// A book with nothing asked for.
    pub fn new() -> (r: ImportBook<O>)
        ensures
            r.wf(),
            r.spec_next() == 0,
            r.spec_open().len() == 0,
    {
        ImportBook { next_batch: 0, open: Vec::new() }
    }

    /// Opens a gesture of `files` files, filed in `bin`, and returns its
    /// number. A gesture of no files is whole at once and comes back out of
    /// the next collection with no outcomes.
    pub fn submit(&mut self, files: usize, bin: Option<u64>) -> (r: ImportBatch)
        requires
            old(self).spec_next() < u64::MAX,
        ensures
            final(self).wf(),
            r.0 == old(self).spec_next(),
            final(self).spec_next() == old(self).spec_next() + 1,
            final(self).spec_open().len() == old(self).spec_open().len() + 1,
            final(self).spec_open().drop_last() == old(self).spec_open(),
            final(self).spec_open().last().batch == r,
            final(self).spec_open().last().bin == bin,
            final(self).spec_open().last().slots@ == Seq::new(files as nat, |i: int| None::<O>),
            !batch_ids(old(self).spec_open()).contains(r),
    {
        proof {
            use_type_invariant(&*self);
        }
        let batch = ImportBatch(self.next_batch);
        let mut slots: Vec<Option<O>> = Vec::new();
        let mut i: usize = 0;
        while i < files
            invariant
                i <= files,
                slots@ == Seq::new(i as nat, |k: int| None::<O>),
            decreases files - i,
        {
            slots.push(None);
            i = i + 1;
            assert(slots@ =~= Seq::new(i as nat, |k: int| None::<O>));
        }
        let ghost before = self.open@;
        let mut open: Vec<OpenBatch<O>> = Vec::new();
        std::mem::swap(&mut open, &mut self.open);
        open.push(OpenBatch { batch, bin, slots });
        assert(open@.drop_last() =~= before);
        self.next_batch = self.next_batch + 1;
        self.open = open;
        proof {
            if batch_ids(before).contains(batch) {
                let k = choose|k: int| 0 <= k < batch_ids(before).len() && batch_ids(before)[k]
                    == batch;
                assert(before[k].batch == batch);
            }
        }
        batch
    }

    /// Records the outcome of the file at `slot` of gesture `batch`. An
    /// outcome for a gesture already handed back, or for a slot it does not
    /// have, is dropped.
    pub fn record(&mut self, batch: ImportBatch, slot: usize, outcome: O)
        ensures
            final(self).wf(),
            final(self).spec_next() == old(self).spec_next(),
            final(self).spec_open().len() == old(self).spec_open().len(),
            forall|i: int|
                0 <= i < old(self).spec_open().len() ==> {
                    let before = #[trigger] old(self).spec_open()[i];
                    let after = final(self).spec_open()[i];
                    &&& after.batch == before.batch
                    &&& after.bin == before.bin
                    &&& after.slots@ == if before.batch == batch && slot < before.slots@.len() {
                        before.slots@.update(slot as int, Some(outcome))
                    } else {
                        before.slots@
                    }
                },
    {
        proof {
            use_type_invariant(&*self);
        }
        let mut k: usize = 0;
        while k < self.open.len()
            invariant
                k <= self.open@.len(),
                self.open@ == old(self).open@,
                self.next_batch == old(self).next_batch,
                old(self).wf(),
                forall|j: int| 0 <= j < k ==> (#[trigger] self.open@[j]).batch != batch,
            decreases self.open@.len() - k,
        {
            if self.open[k].batch == batch {
                let mut taken: Vec<OpenBatch<O>> = Vec::new();
                std::mem::swap(&mut taken, &mut self.open);
                let ghost all = taken@;
                let mut ob = taken.remove(k);
                assert(ob == all[k as int]);
                let ghost before_slots = ob.slots@;
                if slot < ob.slots.len() {
                    ob.slots.set(slot, Some(outcome));
                }
                let ghost done = ob;
                assert(done.batch == all[k as int].batch && done.bin == all[k as int].bin);
                assert(done.slots@ == if slot < before_slots.len() {
                    before_slots.update(slot as int, Some(outcome))
                } else {
                    before_slots
                });
                taken.insert(k, ob);
                assert(taken@.len() == all.len());
                assert(taken@[k as int] == done);
                assert forall|i: int| 0 <= i < all.len() && i != k implies taken@[i] == all[i] by {}
                assert forall|i: int| 0 <= i < all.len() implies #[trigger] taken@[i].batch
                    == all[i].batch by {}
                self.open = taken;
                assert(self.open@ == taken@);
                return;
            }
            k = k + 1;
        }
    }

    /// Hands back every gesture with no file in `running`, oldest first,
    /// each with its outcomes in the order its files were asked for. A
    /// gesture handed back is no longer open, so it comes back once.
    pub fn collect(&mut self, running: &[ImportBatch]) -> (r: Vec<FinishedImport<O>>)
        ensures
            final(self).wf(),
            final(self).spec_next() == old(self).spec_next(),
            final(self).spec_open() == still_open(old(self).spec_open(), running@),
            r@.len() == now_whole(old(self).spec_open(), running@).len(),
            forall|i: int|
                0 <= i < r@.len() ==> {
                    let w = #[trigger] now_whole(old(self).spec_open(), running@)[i];
                    &&& r@[i].batch == w.batch
                    &&& r@[i].bin == w.bin
                    &&& r@[i].outcomes@ == outcomes_of(w.slots@)
                    &&& !running@.contains(w.batch)
                },
    {
        proof {
            use_type_invariant(&*self);
        }
        let mut rest: Vec<OpenBatch<O>> = Vec::new();
        std::mem::swap(&mut rest, &mut self.open);
        let ghost all = rest@;
        let total = rest.len();
        let mut kept: Vec<OpenBatch<O>> = Vec::new();
        let mut finished: Vec<FinishedImport<O>> = Vec::new();
        let mut k: usize = 0;
        while rest.len() > 0
            invariant
                k + rest@.len() == all.len(),
                all.len() == total,
                rest@ == all.subrange(k as int, all.len() as int),
                kept@ == still_open(all.subrange(0, k as int), running@),
                finished@.len() == now_whole(all.subrange(0, k as int), running@).len(),
                forall|i: int|
                    0 <= i < finished@.len() ==> {
                        let w = #[trigger] now_whole(all.subrange(0, k as int), running@)[i];
                        &&& finished@[i].batch == w.batch
                        &&& finished@[i].bin == w.bin
                        &&& finished@[i].outcomes@ == outcomes_of(w.slots@)
                        &&& !running@.contains(w.batch)
                    },
            decreases rest@.len(),
        {
            let ob = rest.remove(0);
            let ghost prefix = all.subrange(0, k + 1 as int);
            assert(prefix.drop_last() =~= all.subrange(0, k as int));
            assert(prefix.last() == ob);
            let mut is_running = false;
            let mut j: usize = 0;
            while j < running.len()
                invariant
                    j <= running@.len(),
                    is_running == running@.subrange(0, j as int).contains(ob.batch),
                decreases running@.len() - j,
            {
                proof {
                    lemma_push_contains_batch(running@.subrange(0, j as int), running@[j as int], ob.batch);
                }
                assert(running@.subrange(0, j + 1 as int) =~= running@.subrange(0, j as int).push(
                    running@[j as int],
                ));
                if running[j] == ob.batch {
                    is_running = true;
                }
                j = j + 1;
            }
            assert(running@.subrange(0, running@.len() as int) =~= running@);
            if is_running {
                kept.push(ob);
            } else {
                let ghost slots_view = ob.slots@;
                let outcomes = flatten_slots(ob.slots);
                let ghost old_finished = finished@;
                finished.push(FinishedImport { batch: ob.batch, bin: ob.bin, outcomes });
                assert forall|i: int| 0 <= i < old_finished.len() implies finished@[i]
                    == old_finished[i] by {}
            }
            k = k + 1;
        }
        assert(all.subrange(0, all.len() as int) =~= all);
        proof {
            lemma_still_open_sub(all, running@);
        }
        self.open = kept;
        finished
    }
}

/// The outcomes of `slots`, in order, moved out.
fn flatten_slots<O>(slots: Vec<Option<O>>) -> (r: Vec<O>)
    ensures
        r@ == outcomes_of(slots@),
{
    let ghost all = slots@;
    let total = slots.len();
    let mut rest = slots;
    let mut out: Vec<O> = Vec::new();
    let mut k: usize = 0;
    while rest.len() > 0
        invariant
            k + rest@.len() == all.len(),
            all.len() == total,
            rest@ == all.subrange(k as int, all.len() as int),
            out@ == outcomes_of(all.subrange(0, k as int)),
        decreases rest@.len(),
    {
        let s = rest.remove(0);
        let ghost prefix = all.subrange(0, k + 1 as int);
        assert(prefix.drop_last() =~= all.subrange(0, k as int));
        match s {
            Some(o) => out.push(o),
            None => {},
        }
        k = k + 1;
    }
    assert(all.subrange(0, all.len() as int) =~= all);
    out
}

proof fn lemma_push_contains_batch(s: Seq<ImportBatch>, x: ImportBatch, y: ImportBatch)
    ensures
        s.push(x).contains(y) <==> (s.contains(y) || x == y),
{
    let t = s.push(x);
    if t.contains(y) {
        let w = choose|w: int| 0 <= w < t.len() && t[w] == y;
        if w < s.len() {
            assert(s[w] == y);
        }
    }
    if s.contains(y) {
        let w = choose|w: int| 0 <= w < s.len() && s[w] == y;
        assert(t[w] == y);
    }
    if x == y {
        assert(t[s.len() as int] == y);
    }
}

/// The gestures still open are among those that were, in the same order,
/// so the book stays well numbered.
proof fn lemma_still_open_sub<O>(open: Seq<OpenBatch<O>>, running: Seq<ImportBatch>)
    ensures
        forall|i: int|
            0 <= i < still_open(open, running).len() ==> exists|j: int|
                0 <= j < open.len() && open[j] == #[trigger] still_open(open, running)[i],
        forall|a: int, b: int|
            0 <= a < b < still_open(open, running).len() ==> exists|x: int, y: int|
                0 <= x < y < open.len() && open[x] == #[trigger] still_open(open, running)[a]
                    && open[y] == #[trigger] still_open(open, running)[b],
    decreases open.len(),
{
    if open.len() > 0 {
        let init = open.drop_last();
        lemma_still_open_sub(init, running);
        let s0 = still_open(init, running);
        let s = still_open(open, running);
        assert forall|i: int| 0 <= i < s.len() implies exists|j: int|
            0 <= j < open.len() && open[j] == #[trigger] s[i] by {
            if i < s0.len() {
                let j = choose|j: int| 0 <= j < init.len() && init[j] == s0[i];
                assert(open[j] == init[j]);
            } else {
                assert(open[open.len() - 1] == s[i]);
            }
        }
        assert forall|a: int, b: int| 0 <= a < b < s.len() implies exists|x: int, y: int|
            0 <= x < y < open.len() && open[x] == #[trigger] s[a] && open[y] == #[trigger] s[b] by {
            if b < s0.len() {
                let (x, y) = choose|x: int, y: int|
                    0 <= x < y < init.len() && init[x] == s0[a] && init[y] == s0[b];
                assert(open[x] == init[x] && open[y] == init[y]);
            } else {
                let x = choose|x: int| 0 <= x < init.len() && init[x] == s0[a];
                assert(open[x] == init[x]);
                assert(open[open.len() - 1] == s[b]);
            }
        }
    }
}

/// A gesture comes back once: every gesture a collection hands back has
/// left the open list, and gestures are numbered apart, so no later
/// collection can hand it back again.
pub proof fn law_a_gesture_comes_back_once<O>(open: Seq<OpenBatch<O>>, running: Seq<ImportBatch>)
    requires
        forall|i: int, j: int| 0 <= i < j < open.len() ==> (#[trigger] open[i]).batch.0 < (#[trigger] open[j]).batch.0,
    ensures
        forall|i: int, k: int|
            0 <= i < now_whole(open, running).len() && 0 <= k < still_open(open, running).len()
                ==> (#[trigger] now_whole(open, running)[i]).batch != (#[trigger] still_open(open, running)[k]).batch,
    decreases open.len(),
{
    if open.len() > 0 {
        let init = open.drop_last();
        law_a_gesture_comes_back_once(init, running);
        lemma_members_of(init, running);
        let w0 = now_whole(init, running);
        let s0 = still_open(init, running);
        let w = now_whole(open, running);
        let s = still_open(open, running);
        let last = open.last();
        assert forall|i: int, k: int| 0 <= i < w.len() && 0 <= k < s.len() implies (#[trigger] w[i]).batch != (#[trigger] s[k]).batch by {
            if i < w0.len() && k < s0.len() {
                assert(w[i] == w0[i] && s[k] == s0[k]);
            } else if i >= w0.len() {
                assert(w[i] == last);
                if k < s0.len() {
                    assert(s[k] == s0[k]);
                    let j = choose|j: int| 0 <= j < init.len() && init[j] == s0[k];
                    assert(open[j] == init[j]);
                    assert(open[j].batch.0 < open[open.len() - 1].batch.0);
                }
            } else {
                assert(s[k] == last);
                assert(w[i] == w0[i]);
                let j = choose|j: int| 0 <= j < init.len() && init[j] == w0[i];
                assert(open[j] == init[j]);
                assert(open[j].batch.0 < open[open.len() - 1].batch.0);
            }
        }
    }
}

proof fn lemma_members_of<O>(open: Seq<OpenBatch<O>>, running: Seq<ImportBatch>)
    ensures
        forall|i: int| 0 <= i < now_whole(open, running).len() ==> exists|j: int|
            0 <= j < open.len() && open[j] == #[trigger] now_whole(open, running)[i],
        forall|i: int| 0 <= i < still_open(open, running).len() ==> exists|j: int|
            0 <= j < open.len() && open[j] == #[trigger] still_open(open, running)[i],
    decreases open.len(),
{
    if open.len() > 0 {
        let init = open.drop_last();
        lemma_members_of(init, running);
        let w0 = now_whole(init, running);
        let s0 = still_open(init, running);
        let w = now_whole(open, running);
        let s = still_open(open, running);
        assert forall|i: int| 0 <= i < w.len() implies exists|j: int| 0 <= j < open.len() && open[j] == #[trigger] w[i] by {
            if i < w0.len() {
                let j = choose|j: int| 0 <= j < init.len() && init[j] == w0[i];
                assert(open[j] == init[j]);
                assert(w[i] == w0[i]);
            } else {
                assert(open[open.len() - 1] == w[i]);
            }
        }
        assert forall|i: int| 0 <= i < s.len() implies exists|j: int| 0 <= j < open.len() && open[j] == #[trigger] s[i] by {
            if i < s0.len() {
                let j = choose|j: int| 0 <= j < init.len() && init[j] == s0[i];
                assert(open[j] == init[j]);
                assert(s[i] == s0[i]);
            } else {
                assert(open[open.len() - 1] == s[i]);
            }
        }
    }
}

} // verus!
