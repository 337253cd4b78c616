//! The export panel's state: the presets on offer, the sequence, range and
//! file chosen, the status of the running export and the recent exports.
//!
//! Nothing here performs work: a click becomes a request the host carries
//! out, and the export's events are folded into a status the panel paints.
//! Every time in a request is a frame number at the sequence's own rate, so
//! no float ever decides which frames are written.

use vstd::prelude::*;
use vstd::string::*;
use crate::media_bin::MediaTime;
use crate::problem::{concat, details_view, Problem, ProblemView, EXPORT_NOT_READY};
use crate::text::{decimal, decimal_text, str_eq, zero_padded, zero_padded_text};

verus! {

/// How many finished exports the recent list keeps.
pub const RECENT_LIMIT: usize = 8;

/// Shown instead of the preset list when there are no presets.
pub const NO_PRESETS_LABEL: &'static str = "No export presets";

/// The encoder choice that lets the pipeline pick.
pub const AUTOMATIC_ENCODER_LABEL: &'static str = "Automatic";

/// Shown instead of the recent list when nothing was exported yet.
pub const NO_RECENT_LABEL: &'static str = "Nothing exported yet";

/// The button that starts an export.
pub const START_LABEL: &'static str = "Export";

/// The button that cancels one.
pub const CANCEL_LABEL: &'static str = "Cancel";

/// The button that shows a finished export's folder.
pub const OPEN_FOLDER_LABEL: &'static str = "Open folder";

/// Where a preset in the list came from.
#[derive(Debug, Clone, PartialEq, Eq)]
pub enum PresetSource {
    /// The preset library shipped with the editor.
    Library,
    /// An exporter plugin, by its id.
    Plugin { plugin: String },
}

/// The word or phrase naming a preset's origin.
pub open spec fn source_label(s: PresetSource) -> Seq<char> {
    match s {
        PresetSource::Library => "built in"@,
        PresetSource::Plugin { plugin } => "plugin "@ + plugin@,
    }
}

impl PresetSource {
    /// "built in", or "plugin com.example.exporter".
    pub fn label(&self) -> (r: String)
        ensures
            r@ == source_label(*self),
    {
        match self {
            PresetSource::Library => "built in".to_string(),
            PresetSource::Plugin { plugin } => concat("plugin ", plugin.as_str()),
        }
    }
}

/// One entry of the preset list.
pub struct PresetEntry {
    /// The preset's id, unique in the list.
    pub id: String,
    /// Its display name.
    pub name: String,
    /// One line describing the file it writes.
    pub summary: String,
    /// The video codec it encodes with, when it has video.
    pub codec: Option<String>,
    /// Where it came from.
    pub source: PresetSource,
}

impl PresetEntry {
    /// "YouTube 1080p (built in)".
    pub fn list_label(&self) -> (r: String)
        ensures
            r@ == self.name@ + " ("@ + source_label(self.source) + ")"@,
    {
        let head = concat(self.name.as_str(), " (");
        let body = concat(head.as_str(), self.source.label().as_str());
        concat(body.as_str(), ")")
    }
}

/// What part of the sequence an export covers.
#[derive(Debug, Clone, Copy, PartialEq, Eq, Structural)]
pub enum ExportRange {
    /// Every frame of the longest track.
    WholeSequence,
    /// The frames between the in and out points.
    InToOut,
}

impl ExportRange {
    /// The button label.
    pub fn label(self) -> (r: &'static str)
        ensures
            r@ == match self {
                ExportRange::WholeSequence => "Whole sequence"@,
                ExportRange::InToOut => "In to out"@,
            },
    {
        match self {
            ExportRange::WholeSequence => "Whole sequence",
            ExportRange::InToOut => "In to out",
        }
    }
}

impl Default for ExportRange {
    /// The whole sequence.
    fn default() -> (r: Self)
        ensures
            r == ExportRange::WholeSequence,
    {
        ExportRange::WholeSequence
    }
}

/// A span in seconds as a clock: `m:ss`, or `h:mm:ss` from an hour on.
pub open spec fn clock_text(secs: nat) -> Seq<char> {
    let h = secs / 3600;
    let m = (secs % 3600) / 60;
    let s = secs % 60;
    if h > 0 {
        decimal(h) + seq![':'] + zero_padded(m, 2) + seq![':'] + zero_padded(s, 2)
    } else {
        decimal(m) + seq![':'] + zero_padded(s, 2)
    }
}

/// A span of whole seconds as a clock, as the ETA reads: `0:09`, `2:05`,
/// `1:02:05`.
pub fn duration_label(secs: u64) -> (r: String)
    ensures
        r@ == clock_text(secs as nat),
{
    let hours = secs / 3600;
    let minutes = (secs % 3600) / 60;
    let seconds = secs % 60;
    if hours > 0 {
        let mut out = decimal_text(hours);
        out.append(":");
        out.append(zero_padded_text(minutes, 2).as_str());
        out.append(":");
        out.append(zero_padded_text(seconds, 2).as_str());
        proof {
            reveal_strlit(":");
        }
        assert(out@ =~= clock_text(secs as nat));
        out
    } else {
        let mut out = decimal_text(minutes);
        out.append(":");
        out.append(zero_padded_text(seconds, 2).as_str());
        proof {
            reveal_strlit(":");
        }
        assert(out@ =~= clock_text(secs as nat));
        out
    }
}

/// A sequence as the panel sees it: its identity and how many frames its
/// longest track runs.
#[derive(Debug, Clone, Copy, PartialEq, Eq, Structural)]
pub struct SequenceSummary {
    /// The sequence's identity.
    pub id: u64,
    /// Frames in its longest track.
    pub frames: i64,
}

/// The longest of `lengths`, or zero when there are none.
pub open spec fn longest(lengths: Seq<i64>) -> i64
    decreases lengths.len(),
{
    if lengths.len() == 0 {
        0
    } else {
        let before = longest(lengths.drop_last());
        if lengths.len() == 1 || lengths.last() > before {
            lengths.last()
        } else {
            before
        }
    }
}

/// How many frames long a sequence is, given how many frames each of its
/// tracks runs: its longest track, or zero for a sequence with no tracks.
pub fn sequence_frames(track_frames: &[i64]) -> (r: i64)
    ensures
        r == longest(track_frames@),
{
    let mut best: i64 = 0;
    let mut i: usize = 0;
    while i < track_frames.len()
        invariant
            i <= track_frames@.len(),
            best == longest(track_frames@.subrange(0, i as int)),
        decreases track_frames@.len() - i,
    {
        assert(track_frames@.subrange(0, i + 1 as int).drop_last() =~= track_frames@.subrange(
            0,
            i as int,
        ));
        if i == 0 || track_frames[i] > best {
            best = track_frames[i];
        }
        i = i + 1;
    }
    assert(track_frames@.subrange(0, track_frames@.len() as int) =~= track_frames@);
    best
}

/// Everything an export needs, as the panel has it: what a click on Export
/// hands the host.
pub struct ExportRequest {
    /// The preset chosen.
    pub preset: PresetEntry,
    /// The sequence to render.
    pub sequence: u64,
    /// Which part of it was asked for.
    pub range: ExportRange,
    /// The first frame written.
    pub start: i64,
    /// The frame after the last one written.
    pub end: i64,
    /// The file to write.
    pub output: String,
    /// The encoder element pinned, or `None` for the plan's order.
    pub encoder_override: Option<String>,
}

impl ExportRequest {
    /// How many frames the request writes.
    pub fn frames_total(&self) -> (r: u64)
        ensures
            r == if self.end - self.start >= 0 { (self.end - self.start) as nat } else { 0 },
    {
        if self.end >= self.start {
            ((self.end as i128) - (self.start as i128)) as u64
        } else {
            0
        }
    }
}

/// How far a running export has got.
#[derive(Debug, Clone, Copy, PartialEq, Eq, Structural)]
pub struct Progress {
    /// Frames written so far.
    pub frames_done: u64,
    /// Frames the export writes in all.
    pub frames_total: u64,
    /// Progress in thousandths of a percent, when known.
    pub percent_milli: Option<u64>,
    /// Frames per second, in thousandths.
    pub frames_per_second_milli: u64,
    /// Whole seconds left, when known.
    pub eta_secs: Option<u64>,
}

/// What a finished export wrote.
pub struct ExportReport {
    /// The file written.
    pub path: String,
    /// Video frames written.
    pub video_frames: u64,
    /// The media duration written.
    pub duration: MediaTime,
    /// The video encoder element used.
    pub video_encoder: String,
}

/// An event from a running export.
pub enum ExportEvent {
    /// The export started, writing this many frames to this file.
    Started { path: String, frames_total: u64 },
    /// It moved on.
    Progress(Progress),
    /// It finished.
    Finished(ExportReport),
    /// It was cancelled after this many frames.
    Cancelled { frames_done: u64 },
    /// It failed with this error after this many frames.
    Failed { error: Problem, frames_done: u64 },
}

/// The export the panel is watching.
pub enum ExportStatus {
    /// Nothing has run.
    Idle,
    /// One is running.
    Running { path: String, frames_total: u64, progress: Option<Progress> },
    /// The last one finished.
    Finished(ExportReport),
    /// The last one was cancelled.
    Cancelled { frames_done: u64 },
    /// The last one failed.
    Failed { error: Problem, frames_done: u64 },
}

impl ExportStatus {
    /// Whether an export is running.
    pub fn is_running(&self) -> (r: bool)
        ensures
            r == (*self is Running),
    {
        match self {
            ExportStatus::Running { .. } => true,
            _ => false,
        }
    }

    /// The line under the progress bar.
    pub fn summary(&self) -> (r: String)
        ensures
            r@ == status_summary(*self),
    {
        match self {
            ExportStatus::Idle => "Idle".to_string(),
            ExportStatus::Running { frames_total, progress, .. } => match progress {
                None => {
                    let head = concat("Starting: 0 of ", decimal_text(*frames_total).as_str());
                    concat(head.as_str(), " frames")
                },
                Some(p) => progress_line(p),
            },
            ExportStatus::Finished(report) => {
                let mut out = concat("Wrote ", report.path.as_str());
                out.append(" (");
                out.append(decimal_text(report.video_frames).as_str());
                out.append(" frames, ");
                out.append(report.video_encoder.as_str());
                out.append(")");
                assert(out@ =~= status_summary(*self));
                out
            },
            ExportStatus::Cancelled { frames_done } => {
                let head = concat("Cancelled after ", decimal_text(*frames_done).as_str());
                concat(head.as_str(), " frames; the part file was removed")
            },
            ExportStatus::Failed { error, .. } => {
                let mut out = concat("Failed [", error.code.as_str());
                out.append("]: ");
                out.append(error.message.as_str());
                assert(out@ =~= status_summary(*self));
                out
            },
        }
    }
}

/// The progress line: the percentage when known, the frames, the rate and
/// the time left.
pub open spec fn progress_text(p: Progress) -> Seq<char> {
    (match p.percent_milli {
        Some(m) => decimal((m / 1000) as nat) + "% · "@,
        None => Seq::empty(),
    }) + decimal(p.frames_done as nat) + " of "@ + decimal(p.frames_total as nat) + " frames · "@
        + decimal((p.frames_per_second_milli / 1000) as nat) + " fps · "@ + (match p.eta_secs {
        Some(s) => clock_text(s as nat),
        None => "unknown"@,
    }) + " left"@
}

/// The line under the progress bar for a status.
pub open spec fn status_summary(s: ExportStatus) -> Seq<char> {
    match s {
        ExportStatus::Idle => "Idle"@,
        ExportStatus::Running { frames_total, progress, .. } => match progress {
            None => "Starting: 0 of "@ + decimal(frames_total as nat) + " frames"@,
            Some(p) => progress_text(p),
        },
        ExportStatus::Finished(report) => "Wrote "@ + report.path@ + " ("@ + decimal(
            report.video_frames as nat,
        ) + " frames, "@ + report.video_encoder@ + ")"@,
        ExportStatus::Cancelled { frames_done } => "Cancelled after "@ + decimal(frames_done as nat)
            + " frames; the part file was removed"@,
        ExportStatus::Failed { error, .. } => "Failed ["@ + error.code@ + "]: "@ + error.message@,
    }
}

/// The progress line of a running export.
pub fn progress_line(p: &Progress) -> (r: String)
    ensures
        r@ == progress_text(*p),
{
    let mut out = String::new();
    match p.percent_milli {
        Some(m) => {
            out.append(decimal_text(m / 1000).as_str());
            out.append("% · ");
        },
        None => {},
    }
    out.append(decimal_text(p.frames_done).as_str());
    out.append(" of ");
    out.append(decimal_text(p.frames_total).as_str());
    out.append(" frames · ");
    out.append(decimal_text(p.frames_per_second_milli / 1000).as_str());
    out.append(" fps · ");
    match p.eta_secs {
        Some(s) => {
            out.append(duration_label(s).as_str());
        },
        None => {
            out.append("unknown");
        },
    }
    out.append(" left");
    assert(out@ =~= progress_text(*p));
    out
}

/// A finished export, as the recent list shows it.
pub struct RecentExport {
    /// The file written.
    pub path: String,
    /// The preset it was written with.
    pub preset: String,
    /// Video frames written.
    pub frames: u64,
    /// The media duration written.
    pub duration: MediaTime,
    /// The video encoder used.
    pub encoder: String,
}

/// The recent list after an export to `path`: it goes first, any earlier
/// entry for the same file goes, and the list stays within its limit.
pub open spec fn remembered(old: Seq<RecentExport>, entry: RecentExport) -> Seq<RecentExport> {
    let kept = seq![entry] + without_path(old, entry.path@);
    if kept.len() > RECENT_LIMIT {
        kept.take(RECENT_LIMIT as int)
    } else {
        kept
    }
}

/// The selected preset and encoder override once the preset list is
/// `presets`: a choice still listed stays, with its override; otherwise the
/// first preset is selected, so the panel is usable without a click, or
/// none when there is none, and the override goes with the old choice.
pub open spec fn settled_choice(
    selected: Option<Seq<char>>,
    encoder: Option<Seq<char>>,
    presets: Seq<PresetEntry>,
) -> (Option<Seq<char>>, Option<Seq<char>>) {
    if selected is Some && preset_index(presets, selected->0) >= 0 {
        (selected, encoder)
    } else {
        (if presets.len() > 0 { Some(presets[0].id@) } else { None }, None)
    }
}

/// A recent export as its text and counts.
pub struct RecentView {
    /// The file written.
    pub path: Seq<char>,
    /// The preset it was written with.
    pub preset: Seq<char>,
    /// Video frames written.
    pub frames: u64,
    /// The media duration written.
    pub duration: MediaTime,
    /// The video encoder used.
    pub encoder: Seq<char>,
}

/// A recent export's text and counts.
pub open spec fn recent_view(e: RecentExport) -> RecentView {
    RecentView { path: e.path@, preset: e.preset@, frames: e.frames, duration: e.duration, encoder: e.encoder@ }
}

/// The recent list's text and counts, newest first.
pub open spec fn recent_views(s: Seq<RecentExport>) -> Seq<RecentView> {
    s.map_values(|e: RecentExport| recent_view(e))
}

/// `s` without the entries for `path`, as views.
pub open spec fn without_path_views(s: Seq<RecentView>, path: Seq<char>) -> Seq<RecentView>
    decreases s.len(),
{
    if s.len() == 0 {
        Seq::empty()
    } else {
        let before = without_path_views(s.drop_last(), path);
        if s.last().path == path {
            before
        } else {
            before.push(s.last())
        }
    }
}

/// The recent list after an export to `entry.path`, as views: it goes
/// first, any earlier entry for the same file goes, and the list stays within
/// its limit.
pub open spec fn remembered_views(old: Seq<RecentView>, entry: RecentView) -> Seq<RecentView> {
    let kept = seq![entry] + without_path_views(old, entry.path);
    if kept.len() > RECENT_LIMIT {
        kept.take(RECENT_LIMIT as int)
    } else {
        kept
    }
}

/// The name a finished export is remembered by: the preset it was started
/// with, else the one selected, else nothing.
pub open spec fn finished_name(running: Option<Seq<char>>, selected: Option<Seq<char>>) -> Seq<char> {
    match running {
        Some(p) => p,
        None => match selected {
            Some(n) => n,
            None => Seq::<char>::empty(),
        },
    }
}

/// The recent list and the running preset after one event, with `selected`
/// the name of the selected preset: a finished export goes to the top of the
/// list; a finished, cancelled or failed one forgets the running preset.
pub open spec fn recent_step(
    state: (Seq<RecentView>, Option<Seq<char>>),
    selected: Option<Seq<char>>,
    event: ExportEvent,
) -> (Seq<RecentView>, Option<Seq<char>>) {
    match event {
        ExportEvent::Finished(report) => (
            remembered_views(
                state.0,
                RecentView {
                    path: report.path@,
                    preset: finished_name(state.1, selected),
                    frames: report.video_frames,
                    duration: report.duration,
                    encoder: report.video_encoder@,
                },
            ),
            None,
        ),
        ExportEvent::Cancelled { .. } => (state.0, None),
        ExportEvent::Failed { .. } => (state.0, None),
        _ => state,
    }
}

/// The recent list and the running preset after `events`, in order.
pub open spec fn recent_after(
    state: (Seq<RecentView>, Option<Seq<char>>),
    selected: Option<Seq<char>>,
    events: Seq<ExportEvent>,
) -> (Seq<RecentView>, Option<Seq<char>>)
    decreases events.len(),
{
    if events.len() == 0 {
        state
    } else {
        recent_step(recent_after(state, selected, events.drop_last()), selected, events.last())
    }
}

proof fn lemma_without_path_views(s: Seq<RecentExport>, path: Seq<char>)
    ensures
        recent_views(without_path(s, path)) == without_path_views(recent_views(s), path),
    decreases s.len(),
{
    if s.len() > 0 {
        lemma_without_path_views(s.drop_last(), path);
        assert(recent_views(s).drop_last() =~= recent_views(s.drop_last()));
        assert(recent_views(without_path(s.drop_last(), path).push(s.last())) =~= recent_views(
            without_path(s.drop_last(), path),
        ).push(recent_view(s.last())));
    } else {
        assert(recent_views(s) =~= Seq::<RecentView>::empty());
        assert(recent_views(without_path(s, path)) =~= Seq::<RecentView>::empty());
    }
}

/// What remembering an export does to the list, seen as views.
pub proof fn lemma_remembered_views(s: Seq<RecentExport>, e: RecentExport)
    ensures
        recent_views(remembered(s, e)) == remembered_views(recent_views(s), recent_view(e)),
{
    lemma_without_path_views(s, e.path@);
    let kept = seq![e] + without_path(s, e.path@);
    assert(recent_views(kept) =~= seq![recent_view(e)] + without_path_views(recent_views(s), e.path@));
    if kept.len() > RECENT_LIMIT {
        assert(recent_views(kept.take(RECENT_LIMIT as int)) =~= recent_views(kept).take(RECENT_LIMIT as int));
    }
}

/// `s` without the entries for `path`.
pub open spec fn without_path(s: Seq<RecentExport>, path: Seq<char>) -> Seq<RecentExport>
    decreases s.len(),
{
    if s.len() == 0 {
        Seq::empty()
    } else {
        let before = without_path(s.drop_last(), path);
        if s.last().path@ == path {
            before
        } else {
            before.push(s.last())
        }
    }
}

/// Whether `s` names no file twice.
pub open spec fn distinct_paths(s: Seq<RecentExport>) -> bool {
    forall|i: int, j: int| 0 <= i < j < s.len() ==> s[i].path@ != s[j].path@
}

/// `s` without plugin-contributed... the library entries of `s`.
pub open spec fn non_library(s: Seq<PresetEntry>) -> Seq<PresetEntry>
    decreases s.len(),
{
    if s.len() == 0 {
        Seq::empty()
    } else {
        let before = non_library(s.drop_last());
        if s.last().source == PresetSource::Library {
            before
        } else {
            before.push(s.last())
        }
    }
}

/// `s` without the entries `plugin` contributed.
pub open spec fn not_from_plugin(s: Seq<PresetEntry>, plugin: Seq<char>) -> Seq<PresetEntry>
    decreases s.len(),
{
    if s.len() == 0 {
        Seq::empty()
    } else {
        let before = not_from_plugin(s.drop_last(), plugin);
        match s.last().source {
            PresetSource::Plugin { plugin: owner } => if owner@ == plugin {
                before
            } else {
                before.push(s.last())
            },
            PresetSource::Library => before.push(s.last()),
        }
    }
}

/// Whether some entry of `s` has the id `id`.
pub open spec fn has_preset(s: Seq<PresetEntry>, id: Seq<char>) -> bool {
    exists|i: int| 0 <= i < s.len() && #[trigger] s[i].id@ == id
}

/// The index of the first entry of `s` with the id `id`, or -1.
pub open spec fn preset_index(s: Seq<PresetEntry>, id: Seq<char>) -> int
    decreases s.len(),
{
    if s.len() == 0 {
        -1
    } else if s[0].id@ == id {
        0
    } else {
        let k = preset_index(s.drop_first(), id);
        if k < 0 {
            -1
        } else {
            k + 1
        }
    }
}

/// The problem "the panel cannot build a request yet", naming `field`.
pub open spec fn not_ready_view(field: Seq<char>, message: Seq<char>) -> ProblemView {
    ProblemView { code: EXPORT_NOT_READY@, message, details: seq![("field"@, field)] }
}

/// A "the panel cannot build a request yet" problem naming `field`.
fn not_ready(field: &str, message: &str) -> (r: Problem)
    ensures
        r.view_problem() == not_ready_view(field@, message@),
{
    let p = Problem::new(EXPORT_NOT_READY, message.to_string()).with_detail("field", field);
    assert(details_view(p.details@) =~= seq![("field"@, field@)]);
    p
}

/// The export panel's state.
pub struct ExportPanel {
    presets: Vec<PresetEntry>,
    selected: Option<String>,
    sequence: Option<u64>,
    range: ExportRange,
    in_frame: i64,
    out_frame: i64,
    output: String,
    encoder_override: Option<String>,
    status: ExportStatus,
    running_preset: Option<String>,
    recent: Vec<RecentExport>,
    problems: Vec<Problem>,
    unavailable: Option<String>,
}

/// The view of an optional string.
pub open spec fn opt_chars(o: Option<String>) -> Option<Seq<char>> {
    match o {
        Some(s) => Some(s@),
        None => None,
    }
}

impl ExportPanel {
    /// The presets on offer, in list order.
    pub closed spec fn spec_presets(&self) -> Seq<PresetEntry> {
        self.presets@
    }

    /// The chosen preset's id.
    pub closed spec fn spec_selected(&self) -> Option<Seq<char>> {
        opt_chars(self.selected)
    }

    /// The chosen sequence.
    pub closed spec fn spec_sequence(&self) -> Option<u64> {
        self.sequence
    }

    /// The chosen range.
    pub closed spec fn spec_range(&self) -> ExportRange {
        self.range
    }

    /// The in and out points.
    pub closed spec fn spec_in_out(&self) -> (int, int) {
        (self.in_frame as int, self.out_frame as int)
    }

    /// The chosen file.
    pub closed spec fn spec_output(&self) -> Seq<char> {
        self.output@
    }

    /// The pinned encoder.
    pub closed spec fn spec_encoder_override(&self) -> Option<Seq<char>> {
        opt_chars(self.encoder_override)
    }

    /// The name of the preset the running export was started with.
    pub closed spec fn spec_running_preset(&self) -> Option<Seq<char>> {
        opt_chars(self.running_preset)
    }

    /// The recent exports, newest first.
    pub closed spec fn spec_recent(&self) -> Seq<RecentExport> {
        self.recent@
    }

    /// The status of the export the panel is watching.
    pub closed spec fn spec_status(&self) -> ExportStatus {
        self.status
    }

    /// Why exporting is held closed, when it is.
    pub closed spec fn spec_unavailable(&self) -> Option<Seq<char>> {
        opt_chars(self.unavailable)
    }

    /// The problems recorded, oldest first.
    pub closed spec fn spec_problems(&self) -> Seq<Problem> {
        self.problems@
    }

    /// The in point never passes the out point, and neither is negative;
    /// the recent list names no file twice and stays within its limit.
    #[verifier::type_invariant]
    pub open spec fn wf(&self) -> bool {
        &&& 0 <= self.spec_in_out().0 <= self.spec_in_out().1
        &&& distinct_paths(self.spec_recent())
        &&& self.spec_recent().len() <= RECENT_LIMIT
    }

    /// An empty panel: no presets, nothing chosen, nothing exported.
    pub fn new() -> (r: ExportPanel)
        ensures
            r.wf(),
            r.spec_presets().len() == 0,
            r.spec_selected() is None,
            r.spec_sequence() is None,
            r.spec_range() == ExportRange::WholeSequence,
            r.spec_in_out() == (0int, 0int),
            r.spec_output().len() == 0,
            r.spec_encoder_override() is None,
            r.spec_running_preset() is None,
            r.spec_recent().len() == 0,
            r.spec_status() is Idle,
            r.spec_unavailable() is None,
            r.spec_problems().len() == 0,
    {
        ExportPanel {
            presets: Vec::new(),
            selected: None,
            sequence: None,
            range: ExportRange::WholeSequence,
            in_frame: 0,
            out_frame: 0,
            output: String::new(),
            encoder_override: None,
            status: ExportStatus::Idle,
            running_preset: None,
            recent: Vec::new(),
            problems: Vec::new(),
            unavailable: None,
        }
    }

    /// Says why exporting is held closed, or clears the reason.
    pub fn set_unavailable(&mut self, reason: Option<String>)
        ensures
            final(self).spec_unavailable() == opt_chars(reason),
            final(self).spec_presets() == old(self).spec_presets(),
            final(self).spec_recent() == old(self).spec_recent(),
            final(self).spec_in_out() == old(self).spec_in_out(),
            final(self).spec_selected() == old(self).spec_selected(),
            final(self).spec_sequence() == old(self).spec_sequence(),
            final(self).spec_range() == old(self).spec_range(),
            final(self).spec_output() == old(self).spec_output(),
            final(self).spec_encoder_override() == old(self).spec_encoder_override(),
            final(self).spec_running_preset() == old(self).spec_running_preset(),
            final(self).spec_status() == old(self).spec_status(),
            final(self).spec_problems() == old(self).spec_problems(),
    {
        proof {
            use_type_invariant(&*self);
        }
        self.unavailable = reason;
    }

    /// Why exporting is held closed, when it is.
    pub fn unavailable(&self) -> (r: Option<&str>)
        ensures
            match r {
                Some(s) => self.spec_unavailable() == Some(s@),
                None => self.spec_unavailable() is None,
            },
    {
        match &self.unavailable {
            Some(s) => Some(s.as_str()),
            None => None,
        }
    }

    /// Records a problem the host met acting on the panel's behalf.
    pub fn add_problem(&mut self, problem: Problem)
        ensures
            final(self).spec_problems() == old(self).spec_problems().push(problem),
            final(self).spec_presets() == old(self).spec_presets(),
            final(self).spec_recent() == old(self).spec_recent(),
            final(self).spec_in_out() == old(self).spec_in_out(),
            final(self).spec_selected() == old(self).spec_selected(),
            final(self).spec_sequence() == old(self).spec_sequence(),
            final(self).spec_range() == old(self).spec_range(),
            final(self).spec_output() == old(self).spec_output(),
            final(self).spec_encoder_override() == old(self).spec_encoder_override(),
            final(self).spec_running_preset() == old(self).spec_running_preset(),
            final(self).spec_status() == old(self).spec_status(),
            final(self).spec_unavailable() == old(self).spec_unavailable(),
    {
        proof {
            use_type_invariant(&*self);
        }
        let mut problems: Vec<Problem> = Vec::new();
        std::mem::swap(&mut problems, &mut self.problems);
        problems.push(problem);
        self.problems = problems;
    }

    /// The problems recorded, oldest first.
    pub fn problems(&self) -> (r: &[Problem])
        ensures
            r@ == self.spec_problems(),
    {
        self.problems.as_slice()
    }

    /// The presets on offer.
    pub fn presets(&self) -> (r: &[PresetEntry])
        ensures
            r@ == self.spec_presets(),
    {
        self.presets.as_slice()
    }

    /// The selected preset, when one is selected and still listed.
    pub fn selected_preset(&self) -> (r: Option<&PresetEntry>)
        ensures
            match r {
                Some(e) => self.spec_selected() is Some && preset_index(
                    self.spec_presets(),
                    self.spec_selected()->0,
                ) >= 0 && *e == self.spec_presets()[preset_index(
                    self.spec_presets(),
                    self.spec_selected()->0,
                )],
                None => self.spec_selected() is None || preset_index(
                    self.spec_presets(),
                    self.spec_selected()->0,
                ) < 0,
            },
    {
        match &self.selected {
            Some(id) => match find_preset(&self.presets, id.as_str()) {
                Some(k) => Some(&self.presets[k]),
                None => None,
            },
            None => None,
        }
    }

    /// Keeps the selection pointing at a preset that still exists: when it
    /// does not, the first preset is chosen and the encoder pin dropped.
    fn settle_selection(&mut self)
        ensures
            final(self).spec_presets() == old(self).spec_presets(),
            final(self).spec_recent() == old(self).spec_recent(),
            final(self).spec_in_out() == old(self).spec_in_out(),
            final(self).spec_sequence() == old(self).spec_sequence(),
            final(self).spec_range() == old(self).spec_range(),
            final(self).spec_output() == old(self).spec_output(),
            final(self).spec_running_preset() == old(self).spec_running_preset(),
            (final(self).spec_selected(), final(self).spec_encoder_override()) == settled_choice(
                old(self).spec_selected(),
                old(self).spec_encoder_override(),
                old(self).spec_presets(),
            ),
            final(self).spec_status() == old(self).spec_status(),
            final(self).spec_unavailable() == old(self).spec_unavailable(),
            final(self).spec_problems() == old(self).spec_problems(),
    {
        proof {
            use_type_invariant(&*self);
        }
        let still_there = match &self.selected {
            Some(id) => find_preset(&self.presets, id.as_str()).is_some(),
            None => false,
        };
        if !still_there {
            self.selected = if self.presets.len() > 0 {
                Some(self.presets[0].id.clone())
            } else {
                None
            };
            self.encoder_override = None;
        }
    }

    /// Replaces the library presets with `library`, which go first: they are
    /// what most exports use. Presets plugins contributed are kept after
    /// them.
    pub fn set_library(&mut self, library: Vec<PresetEntry>)
        ensures
            final(self).spec_presets() == library@ + non_library(old(self).spec_presets()),
            final(self).spec_recent() == old(self).spec_recent(),
            final(self).spec_in_out() == old(self).spec_in_out(),
            final(self).spec_sequence() == old(self).spec_sequence(),
            final(self).spec_range() == old(self).spec_range(),
            final(self).spec_output() == old(self).spec_output(),
            final(self).spec_running_preset() == old(self).spec_running_preset(),
            final(self).spec_status() == old(self).spec_status(),
            final(self).spec_unavailable() == old(self).spec_unavailable(),
            final(self).spec_problems() == old(self).spec_problems(),
            (final(self).spec_selected(), final(self).spec_encoder_override()) == settled_choice(
                old(self).spec_selected(),
                old(self).spec_encoder_override(),
                final(self).spec_presets(),
            ),
    {
        proof {
            use_type_invariant(&*self);
        }
        let mut presets = library;
        let ghost lib = presets@;
        let mut old_presets: Vec<PresetEntry> = Vec::new();
        std::mem::swap(&mut old_presets, &mut self.presets);
        let ghost before = old_presets@;
        let mut i: usize = 0;
        while i < old_presets.len()
            invariant
                i <= old_presets@.len(),
                old_presets@ == before,
                presets@ == lib + non_library(before.subrange(0, i as int)),
            decreases old_presets@.len() - i,
        {
            assert(before.subrange(0, i + 1 as int).drop_last() =~= before.subrange(0, i as int));
            let keep = match &old_presets[i].source {
                PresetSource::Library => false,
                PresetSource::Plugin { .. } => true,
            };
            if keep {
                let e = clone_entry(&old_presets[i]);
                presets.push(e);
            }
            assert(presets@ =~= lib + non_library(before.subrange(0, i + 1 as int)));
            i = i + 1;
        }
        assert(before.subrange(0, before.len() as int) =~= before);
        self.presets = presets;
        self.settle_selection();
    }

    /// Replaces what `plugin` contributed with `entries`, after the rest of
    /// the list, so loading a plugin twice lists its presets once.
    pub fn set_plugin_presets(&mut self, plugin: &str, entries: Vec<PresetEntry>)
        ensures
            final(self).spec_presets() == not_from_plugin(old(self).spec_presets(), plugin@)
                + entries@,
            final(self).spec_recent() == old(self).spec_recent(),
            final(self).spec_in_out() == old(self).spec_in_out(),
            final(self).spec_sequence() == old(self).spec_sequence(),
            final(self).spec_range() == old(self).spec_range(),
            final(self).spec_output() == old(self).spec_output(),
            final(self).spec_running_preset() == old(self).spec_running_preset(),
            final(self).spec_status() == old(self).spec_status(),
            final(self).spec_unavailable() == old(self).spec_unavailable(),
            final(self).spec_problems() == old(self).spec_problems(),
            (final(self).spec_selected(), final(self).spec_encoder_override()) == settled_choice(
                old(self).spec_selected(),
                old(self).spec_encoder_override(),
                final(self).spec_presets(),
            ),
    {
        proof {
            use_type_invariant(&*self);
        }
        let mut old_presets: Vec<PresetEntry> = Vec::new();
        std::mem::swap(&mut old_presets, &mut self.presets);
        let ghost before = old_presets@;
        let mut presets: Vec<PresetEntry> = Vec::new();
        let mut i: usize = 0;
        assert(presets@ =~= not_from_plugin(before.subrange(0, 0), plugin@));
        while i < old_presets.len()
            invariant
                i <= old_presets@.len(),
                old_presets@ == before,
                presets@ == not_from_plugin(before.subrange(0, i as int), plugin@),
            decreases old_presets@.len() - i,
        {
            assert(before.subrange(0, i + 1 as int).drop_last() =~= before.subrange(0, i as int));
            let keep = match &old_presets[i].source {
                PresetSource::Library => true,
                PresetSource::Plugin { plugin: owner } => !str_eq(owner.as_str(), plugin),
            };
            if keep {
                let e = clone_entry(&old_presets[i]);
                presets.push(e);
            }
            assert(presets@ =~= not_from_plugin(before.subrange(0, i + 1 as int), plugin@));
            i = i + 1;
        }
        assert(before.subrange(0, before.len() as int) =~= before);
        let mut entries = entries;
        let ghost added = entries@;
        presets.append(&mut entries);
        assert(presets@ =~= not_from_plugin(before, plugin@) + added);
        self.presets = presets;
        self.settle_selection();
    }

    /// Chooses the preset `id`.
    ///
    /// The encoder pin belongs to the codec of the preset it was chosen for,
    /// so it does not survive a change of preset.
    pub fn select_preset(&mut self, id: &str) -> (r: Result<(), Problem>)
        ensures
            r is Ok <==> has_preset(old(self).spec_presets(), id@),
            match r {
                Ok(()) => final(self).spec_selected() == Some(id@) && (if old(self).spec_selected()
                    == Some(id@) {
                    final(self).spec_encoder_override() == old(self).spec_encoder_override()
                } else {
                    final(self).spec_encoder_override() is None
                }),
                Err(p) => p.view_problem().code == EXPORT_NOT_READY@ && p.view_problem().details
                    == seq![("field"@, "preset"@)] && final(self).spec_selected() == old(
                    self,
                ).spec_selected() && final(self).spec_encoder_override() == old(
                    self,
                ).spec_encoder_override(),
            },
            final(self).spec_presets() == old(self).spec_presets(),
            final(self).spec_recent() == old(self).spec_recent(),
            final(self).spec_in_out() == old(self).spec_in_out(),
            final(self).spec_sequence() == old(self).spec_sequence(),
            final(self).spec_range() == old(self).spec_range(),
            final(self).spec_output() == old(self).spec_output(),
            final(self).spec_running_preset() == old(self).spec_running_preset(),
            final(self).spec_status() == old(self).spec_status(),
            final(self).spec_unavailable() == old(self).spec_unavailable(),
            final(self).spec_problems() == old(self).spec_problems(),
    {
        proof {
            use_type_invariant(&*self);
        }
        if find_preset(&self.presets, id).is_none() {
            proof {
                lemma_preset_index_has(self.presets@, id@);
            }
            let message = concat(concat("no export preset '", id).as_str(), "'");
            let p = not_ready("preset", message.as_str());
            return Err(p);
        }
        proof {
            lemma_preset_index_has(self.presets@, id@);
        }
        let same = match &self.selected {
            Some(current) => str_eq(current.as_str(), id),
            None => false,
        };
        if !same {
            self.encoder_override = None;
        }
        self.selected = Some(id.to_string());
        Ok(())
    }

    /// The chosen sequence.
    pub fn sequence(&self) -> (r: Option<u64>)
        ensures
            r == self.spec_sequence(),
    {
        self.sequence
    }

    /// Chooses sequence `id`, with the in and out points spanning all of it.
    /// An id the project does not hold is ignored.
    pub fn select_sequence(&mut self, sequences: &[SequenceSummary], id: u64)
        requires
            forall|i: int| 0 <= i < sequences@.len() ==> #[trigger] sequences@[i].frames >= 0,
        ensures
            final(self).wf(),
            match sequence_lookup(sequences@, id) {
                Some(s) => final(self).spec_sequence() == Some(id) && final(self).spec_in_out() == (
                    0int,
                    s.frames as int,
                ),
                None => final(self).spec_sequence() == old(self).spec_sequence()
                    && final(self).spec_in_out() == old(self).spec_in_out(),
            },
            final(self).spec_presets() == old(self).spec_presets(),
            final(self).spec_recent() == old(self).spec_recent(),
            final(self).spec_selected() == old(self).spec_selected(),
            final(self).spec_range() == old(self).spec_range(),
            final(self).spec_output() == old(self).spec_output(),
            final(self).spec_encoder_override() == old(self).spec_encoder_override(),
            final(self).spec_running_preset() == old(self).spec_running_preset(),
            final(self).spec_status() == old(self).spec_status(),
            final(self).spec_unavailable() == old(self).spec_unavailable(),
            final(self).spec_problems() == old(self).spec_problems(),
    {
        proof {
            use_type_invariant(&*self);
        }
        match find_sequence(sequences, id) {
            Some(s) => {
                self.sequence = Some(id);
                self.in_frame = 0;
                self.out_frame = s.frames;
            },
            None => {},
        }
    }

    /// The chosen range.
    pub fn range(&self) -> (r: ExportRange)
        ensures
            r == self.spec_range(),
    {
        self.range
    }

    /// Chooses the range.
    pub fn set_range(&mut self, range: ExportRange)
        ensures
            final(self).wf(),
            final(self).spec_range() == range,
            final(self).spec_in_out() == old(self).spec_in_out(),
            final(self).spec_presets() == old(self).spec_presets(),
            final(self).spec_selected() == old(self).spec_selected(),
            final(self).spec_sequence() == old(self).spec_sequence(),
            final(self).spec_output() == old(self).spec_output(),
            final(self).spec_recent() == old(self).spec_recent(),
            final(self).spec_encoder_override() == old(self).spec_encoder_override(),
            final(self).spec_running_preset() == old(self).spec_running_preset(),
            final(self).spec_status() == old(self).spec_status(),
            final(self).spec_unavailable() == old(self).spec_unavailable(),
            final(self).spec_problems() == old(self).spec_problems(),
    {
        proof {
            use_type_invariant(&*self);
        }
        self.range = range;
    }

    /// The in and out points, as frame numbers.
    pub fn in_out(&self) -> (r: (i64, i64))
        ensures
            (r.0 as int, r.1 as int) == self.spec_in_out(),
    {
        (self.in_frame, self.out_frame)
    }

    /// Sets the in and out points, keeping them ordered and non-negative: an
    /// in point cannot precede zero, and an out point cannot precede the in.
    pub fn set_in_out(&mut self, in_frame: i64, out_frame: i64)
        ensures
            final(self).wf(),
            final(self).spec_in_out().0 == if in_frame < 0 { 0 } else { in_frame as int },
            final(self).spec_in_out().1 == if out_frame < final(self).spec_in_out().0 {
                final(self).spec_in_out().0
            } else {
                out_frame as int
            },
            final(self).spec_presets() == old(self).spec_presets(),
            final(self).spec_selected() == old(self).spec_selected(),
            final(self).spec_sequence() == old(self).spec_sequence(),
            final(self).spec_range() == old(self).spec_range(),
            final(self).spec_output() == old(self).spec_output(),
            final(self).spec_recent() == old(self).spec_recent(),
            final(self).spec_encoder_override() == old(self).spec_encoder_override(),
            final(self).spec_running_preset() == old(self).spec_running_preset(),
            final(self).spec_status() == old(self).spec_status(),
            final(self).spec_unavailable() == old(self).spec_unavailable(),
            final(self).spec_problems() == old(self).spec_problems(),
    {
        proof {
            use_type_invariant(&*self);
        }
        let start = if in_frame < 0 { 0 } else { in_frame };
        let end = if out_frame < start { start } else { out_frame };
        if start <= self.out_frame {
            self.in_frame = start;
            self.out_frame = end;
        } else {
            self.out_frame = end;
            self.in_frame = start;
        }
    }

    /// The file the export writes.
    pub fn output(&self) -> (r: &str)
        ensures
            r@ == self.spec_output(),
    {
        self.output.as_str()
    }

    /// Chooses the file the export writes.
    pub fn set_output(&mut self, path: String)
        ensures
            final(self).wf(),
            final(self).spec_output() == path@,
            final(self).spec_presets() == old(self).spec_presets(),
            final(self).spec_selected() == old(self).spec_selected(),
            final(self).spec_sequence() == old(self).spec_sequence(),
            final(self).spec_range() == old(self).spec_range(),
            final(self).spec_in_out() == old(self).spec_in_out(),
            final(self).spec_recent() == old(self).spec_recent(),
            final(self).spec_encoder_override() == old(self).spec_encoder_override(),
            final(self).spec_running_preset() == old(self).spec_running_preset(),
            final(self).spec_status() == old(self).spec_status(),
            final(self).spec_unavailable() == old(self).spec_unavailable(),
            final(self).spec_problems() == old(self).spec_problems(),
    {
        proof {
            use_type_invariant(&*self);
        }
        self.output = path;
    }

    /// The encoder element pinned for the selected preset, if any.
    pub fn encoder_override(&self) -> (r: Option<&str>)
        ensures
            match r {
                Some(s) => self.spec_encoder_override() == Some(s@),
                None => self.spec_encoder_override() is None,
            },
    {
        match &self.encoder_override {
            Some(s) => Some(s.as_str()),
            None => None,
        }
    }

    /// Pins an encoder element, or goes back to automatic with `None`.
    ///
    /// `choices` are the elements the selected preset's codec can use; an
    /// element outside them is refused and the pin left alone.
    pub fn set_encoder_override(&mut self, element: Option<&str>, choices: &[String]) -> (r: Result<
        (),
        Problem,
    >)
        ensures
            match element {
                None => r is Ok && final(self).spec_encoder_override() is None,
                Some(e) => if exists|i: int| 0 <= i < choices@.len() && #[trigger] choices@[i]@
                    == e@ {
                    r is Ok && final(self).spec_encoder_override() == Some(e@)
                } else {
                    r is Err && final(self).spec_encoder_override() == old(
                        self,
                    ).spec_encoder_override() && r->Err_0.view_problem().details == seq![
                        ("field"@, "encoder"@),
                    ]
                },
            },
            final(self).spec_presets() == old(self).spec_presets(),
            final(self).spec_selected() == old(self).spec_selected(),
            final(self).spec_recent() == old(self).spec_recent(),
            final(self).spec_in_out() == old(self).spec_in_out(),
            final(self).spec_sequence() == old(self).spec_sequence(),
            final(self).spec_range() == old(self).spec_range(),
            final(self).spec_output() == old(self).spec_output(),
            final(self).spec_running_preset() == old(self).spec_running_preset(),
            final(self).spec_status() == old(self).spec_status(),
            final(self).spec_unavailable() == old(self).spec_unavailable(),
            final(self).spec_problems() == old(self).spec_problems(),
    {
        proof {
            use_type_invariant(&*self);
        }
        let wanted = match element {
            None => {
                self.encoder_override = None;
                return Ok(());
            },
            Some(e) => e,
        };
        let mut i: usize = 0;
        while i < choices.len()
            invariant
                i <= choices@.len(),
                element == Some(wanted),
                *self == *old(self),
                old(self).wf(),
                forall|k: int| 0 <= k < i ==> #[trigger] choices@[k]@ != wanted@,
            decreases choices@.len() - i,
        {
            if str_eq(choices[i].as_str(), wanted) {
                self.encoder_override = Some(wanted.to_string());
                return Ok(());
            }
            i = i + 1;
        }
        let message = concat(wanted, " is not an encoder the selected preset can use");
        Err(not_ready("encoder", message.as_str()))
    }

    /// The status of the export the panel is watching.
    pub fn status(&self) -> (r: &ExportStatus)
        ensures
            *r == self.spec_status(),
    {
        &self.status
    }

    /// The recent exports, newest first.
    pub fn recent(&self) -> (r: &[RecentExport])
        ensures
            r@ == self.spec_recent(),
    {
        self.recent.as_slice()
    }

    /// Puts a finished export at the top of the recent list.
    fn remember(&mut self, report: &ExportReport)
        ensures
            final(self).wf(),
            final(self).spec_recent() == remembered(
                old(self).spec_recent(),
                RecentExport {
                    path: report.path,
                    preset: final(self).spec_recent()[0].preset,
                    frames: report.video_frames,
                    duration: report.duration,
                    encoder: report.video_encoder,
                },
            ),
            final(self).spec_recent()[0].preset@ == match old(self).spec_running_preset() {
                Some(p) => p,
                None => match old(self).selected_name() {
                    Some(n) => n,
                    None => Seq::<char>::empty(),
                },
            },
            final(self).spec_running_preset() is None,
            final(self).spec_problems() == old(self).spec_problems(),
            final(self).spec_unavailable() == old(self).spec_unavailable(),
            final(self).spec_presets() == old(self).spec_presets(),
            final(self).spec_selected() == old(self).spec_selected(),
            final(self).spec_in_out() == old(self).spec_in_out(),
            final(self).spec_sequence() == old(self).spec_sequence(),
            final(self).spec_range() == old(self).spec_range(),
            final(self).spec_output() == old(self).spec_output(),
            final(self).spec_encoder_override() == old(self).spec_encoder_override(),
    {
        proof {
            use_type_invariant(&*self);
        }
        let preset = match &self.running_preset {
            Some(p) => p.clone(),
            None => match self.selected_preset() {
                Some(e) => e.name.clone(),
                None => String::new(),
            },
        };
        self.running_preset = None;
        let entry = RecentExport {
            path: report.path.clone(),
            preset,
            frames: report.video_frames,
            duration: report.duration,
            encoder: report.video_encoder.clone(),
        };
        let ghost entry_v = entry;
        let mut old_recent: Vec<RecentExport> = Vec::new();
        std::mem::swap(&mut old_recent, &mut self.recent);
        let ghost before = old_recent@;
        let mut kept: Vec<RecentExport> = Vec::new();
        kept.push(entry);
        let mut i: usize = 0;
        assert(kept@ =~= seq![entry_v] + without_path(before.subrange(0, 0), entry_v.path@));
        while i < old_recent.len()
            invariant
                i <= old_recent@.len(),
                old_recent@ == before,
                kept@ == seq![entry_v] + without_path(before.subrange(0, i as int), entry_v.path@),
                entry_v.path@ == report.path@,
            decreases old_recent@.len() - i,
        {
            assert(before.subrange(0, i + 1 as int).drop_last() =~= before.subrange(0, i as int));
            if !str_eq(old_recent[i].path.as_str(), report.path.as_str()) {
                let e = clone_recent(&old_recent[i]);
                kept.push(e);
            }
            assert(kept@ =~= seq![entry_v] + without_path(
                before.subrange(0, i + 1 as int),
                entry_v.path@,
            ));
            i = i + 1;
        }
        assert(before.subrange(0, before.len() as int) =~= before);
        kept.truncate(RECENT_LIMIT);
        proof {
            lemma_without_path_distinct(before, entry_v.path@);
            let full = seq![entry_v] + without_path(before, entry_v.path@);
            assert(distinct_paths(full)) by {
                assert forall|a: int, b: int| 0 <= a < b < full.len() implies full[a].path@
                    != full[b].path@ by {
                    if a == 0 {
                        lemma_without_path_excludes(before, entry_v.path@, b - 1);
                    }
                }
            }
        }
        self.recent = kept;
    }

    /// The name a finished export is remembered by: the preset it was
    /// started with, else the selected one, else nothing.
    pub open spec fn finished_preset(&self) -> Seq<char> {
        match self.spec_running_preset() {
            Some(p) => p,
            None => match self.selected_name() {
                Some(n) => n,
                None => Seq::<char>::empty(),
            },
        }
    }

    /// Folds one event of the running export into the panel.
    pub fn apply_event(&mut self, event: ExportEvent)
        ensures
            final(self).wf(),
            final(self).spec_status() == next_status(old(self).spec_status(), event),
            match event {
                ExportEvent::Finished(report) => {
                    &&& final(self).spec_recent() == remembered(
                        old(self).spec_recent(),
                        RecentExport {
                            path: report.path,
                            preset: final(self).spec_recent()[0].preset,
                            frames: report.video_frames,
                            duration: report.duration,
                            encoder: report.video_encoder,
                        },
                    )
                    &&& final(self).spec_recent()[0].preset@ == old(self).finished_preset()
                    &&& final(self).spec_running_preset() is None
                },
                ExportEvent::Cancelled { .. } | ExportEvent::Failed { .. } => {
                    &&& final(self).spec_recent() == old(self).spec_recent()
                    &&& final(self).spec_running_preset() is None
                },
                _ => {
                    &&& final(self).spec_recent() == old(self).spec_recent()
                    &&& final(self).spec_running_preset() == old(self).spec_running_preset()
                },
            },
            (recent_views(final(self).spec_recent()), final(self).spec_running_preset()) == recent_step(
                (recent_views(old(self).spec_recent()), old(self).spec_running_preset()),
                old(self).selected_name(),
                event,
            ),
            final(self).spec_problems() == old(self).spec_problems(),
            final(self).spec_unavailable() == old(self).spec_unavailable(),
            final(self).spec_presets() == old(self).spec_presets(),
            final(self).spec_selected() == old(self).spec_selected(),
            final(self).spec_sequence() == old(self).spec_sequence(),
            final(self).spec_range() == old(self).spec_range(),
            final(self).spec_in_out() == old(self).spec_in_out(),
            final(self).spec_output() == old(self).spec_output(),
            final(self).spec_encoder_override() == old(self).spec_encoder_override(),
    {
        proof {
            use_type_invariant(&*self);
        }
        let ghost before = *self;
        match event {
            ExportEvent::Started { path, frames_total } => {
                self.status = ExportStatus::Running { path, frames_total, progress: None };
            },
            ExportEvent::Progress(progress) => {
                let path = match &self.status {
                    ExportStatus::Running { path, .. } => Some(path.clone()),
                    _ => None,
                };
                match path {
                    Some(path) => {
                        self.status = ExportStatus::Running {
                            path,
                            frames_total: progress.frames_total,
                            progress: Some(progress),
                        };
                    },
                    None => {},
                }
            },
            ExportEvent::Finished(report) => {
                self.remember(&report);
                proof {
                    lemma_remembered_views(
                        before.spec_recent(),
                        RecentExport {
                            path: report.path,
                            preset: self.spec_recent()[0].preset,
                            frames: report.video_frames,
                            duration: report.duration,
                            encoder: report.video_encoder,
                        },
                    );
                }
                self.status = ExportStatus::Finished(report);
            },
            ExportEvent::Cancelled { frames_done } => {
                self.running_preset = None;
                self.status = ExportStatus::Cancelled { frames_done };
            },
            ExportEvent::Failed { error, frames_done } => {
                self.running_preset = None;
                self.status = ExportStatus::Failed { error, frames_done };
            },
        }
    }

    /// The frames the current range covers in the sequence `s`: all of it,
    /// or the in and out points.
    pub open spec fn range_span(&self, s: SequenceSummary) -> (int, int) {
        match self.spec_range() {
            ExportRange::WholeSequence => (0, s.frames as int),
            ExportRange::InToOut => self.spec_in_out(),
        }
    }

    /// What stops the panel building a request, as the field at fault and
    /// the sentence shown, in the order the panel checks: the preset, the
    /// sequence, the file, then the range.
    pub open spec fn request_fault(&self, sequences: Seq<SequenceSummary>) -> Option<
        (Seq<char>, Seq<char>),
    > {
        if self.selected_name() is None {
            Some(("preset"@, "choose an export preset"@))
        } else if self.spec_sequence() is None {
            Some(("sequence"@, "choose a sequence to export"@))
        } else if sequence_lookup(sequences, self.spec_sequence()->0) is None {
            Some(("sequence"@, "the chosen sequence is no longer open"@))
        } else if self.spec_output().len() == 0 {
            Some(("output"@, "choose a file to write"@))
        } else {
            let span = self.range_span(sequence_lookup(sequences, self.spec_sequence()->0)->0);
            if span.1 < span.0 {
                Some(("range"@, "the out point must not precede the in point"@))
            } else if span.1 == span.0 {
                Some(("range"@, "the range has no frames in it"@))
            } else {
                None
            }
        }
    }

    /// The request the panel's choices describe, given the project's
    /// sequences.
    pub fn request(&self, sequences: &[SequenceSummary]) -> (r: Result<ExportRequest, Problem>)
        ensures
            match r {
                Ok(req) => {
                    &&& self.request_fault(sequences@) is None
                    &&& req.preset == self.spec_presets()[preset_index(
                        self.spec_presets(),
                        self.spec_selected()->0,
                    )]
                    &&& req.sequence == self.spec_sequence()->0
                    &&& req.range == self.spec_range()
                    &&& (req.start as int, req.end as int) == self.range_span(
                        sequence_lookup(sequences@, req.sequence)->0,
                    )
                    &&& req.output@ == self.spec_output()
                    &&& opt_chars(req.encoder_override) == self.spec_encoder_override()
                },
                Err(p) => self.request_fault(sequences@) matches Some(f) && p.view_problem()
                    == not_ready_view(f.0, f.1),
            },
    {
        let preset = match self.selected_preset() {
            Some(e) => clone_entry(e),
            None => {
                return Err(not_ready("preset", "choose an export preset"));
            },
        };
        let id = match self.sequence {
            Some(id) => id,
            None => {
                return Err(not_ready("sequence", "choose a sequence to export"));
            },
        };
        let sequence = match find_sequence(sequences, id) {
            Some(s) => s,
            None => {
                return Err(not_ready("sequence", "the chosen sequence is no longer open"));
            },
        };
        if self.output.as_str().unicode_len() == 0 {
            return Err(not_ready("output", "choose a file to write"));
        }
        let (start, end) = match self.range {
            ExportRange::WholeSequence => (0i64, sequence.frames),
            ExportRange::InToOut => (self.in_frame, self.out_frame),
        };
        if end < start {
            return Err(not_ready("range", "the out point must not precede the in point"));
        }
        if end == start {
            return Err(not_ready("range", "the range has no frames in it"));
        }
        Ok(ExportRequest {
            preset,
            sequence: id,
            range: self.range,
            start,
            end,
            output: self.output.clone(),
            encoder_override: match &self.encoder_override {
                Some(e) => Some(e.clone()),
                None => None,
            },
        })
    }

    /// An Export click: builds the request and remembers the preset it
    /// starts with, so the finished export is listed under that name.
    pub fn start(&mut self, sequences: &[SequenceSummary]) -> (r: Result<ExportRequest, Problem>)
        ensures
            match r {
                Ok(req) => final(self).spec_running_preset() == Some(req.preset.name@),
                Err(_) => final(self).spec_running_preset() == old(self).spec_running_preset(),
            },
            match r {
                Ok(req) => old(self).request_fault(sequences@) is None && req.preset == old(
                    self,
                ).spec_presets()[preset_index(old(self).spec_presets(), old(self).spec_selected()->0)],
                Err(p) => old(self).request_fault(sequences@) matches Some(f) && p.view_problem()
                    == not_ready_view(f.0, f.1),
            },
            final(self).spec_presets() == old(self).spec_presets(),
            final(self).spec_selected() == old(self).spec_selected(),
            final(self).spec_sequence() == old(self).spec_sequence(),
            final(self).spec_range() == old(self).spec_range(),
            final(self).spec_in_out() == old(self).spec_in_out(),
            final(self).spec_output() == old(self).spec_output(),
            final(self).spec_encoder_override() == old(self).spec_encoder_override(),
            final(self).spec_recent() == old(self).spec_recent(),
            final(self).spec_status() == old(self).spec_status(),
            final(self).spec_unavailable() == old(self).spec_unavailable(),
            final(self).spec_problems() == old(self).spec_problems(),
    {
        proof {
            use_type_invariant(&*self);
        }
        let r = self.request(sequences);
        match &r {
            Ok(req) => {
                self.running_preset = Some(req.preset.name.clone());
            },
            Err(_) => {},
        }
        r
    }

    /// The name of the selected preset, when it is listed.
    pub open spec fn selected_name(&self) -> Option<Seq<char>> {
        match self.spec_selected() {
            Some(id) => if preset_index(self.spec_presets(), id) >= 0 {
                Some(self.spec_presets()[preset_index(self.spec_presets(), id)].name@)
            } else {
                None
            },
            None => None,
        }
    }
}

/// The status after `event`: a progress event only moves a running export.
pub open spec fn next_status(status: ExportStatus, event: ExportEvent) -> ExportStatus {
    match event {
        ExportEvent::Started { path, frames_total } => ExportStatus::Running {
            path,
            frames_total,
            progress: None,
        },
        ExportEvent::Progress(p) => match status {
            ExportStatus::Running { path, .. } => ExportStatus::Running {
                path,
                frames_total: p.frames_total,
                progress: Some(p),
            },
            other => other,
        },
        ExportEvent::Finished(report) => ExportStatus::Finished(report),
        ExportEvent::Cancelled { frames_done } => ExportStatus::Cancelled { frames_done },
        ExportEvent::Failed { error, frames_done } => ExportStatus::Failed { error, frames_done },
    }
}

/// The first sequence of `s` with the id `id`.
pub open spec fn sequence_lookup(s: Seq<SequenceSummary>, id: u64) -> Option<SequenceSummary>
    decreases s.len(),
{
    if s.len() == 0 {
        None
    } else if s[0].id == id {
        Some(s[0])
    } else {
        sequence_lookup(s.drop_first(), id)
    }
}

fn find_sequence(s: &[SequenceSummary], id: u64) -> (r: Option<SequenceSummary>)
    ensures
        r == sequence_lookup(s@, id),
        r matches Some(x) ==> exists|k: int| 0 <= k < s@.len() && s@[k] == x,
{
    let mut i: usize = 0;
    assert(s@.subrange(0, s@.len() as int) =~= s@);
    while i < s.len()
        invariant
            i <= s@.len(),
            sequence_lookup(s@, id) == sequence_lookup(s@.subrange(i as int, s@.len() as int), id),
        decreases s@.len() - i,
    {
        assert(s@.subrange(i as int, s@.len() as int).drop_first() =~= s@.subrange(
            i + 1 as int,
            s@.len() as int,
        ));
        if s[i].id == id {
            assert(s@[i as int] == s[i as int]);
            return Some(s[i]);
        }
        i = i + 1;
    }
    None
}

fn find_preset(s: &Vec<PresetEntry>, id: &str) -> (r: Option<usize>)
    ensures
        match r {
            Some(k) => k < s@.len() && preset_index(s@, id@) == k,
            None => preset_index(s@, id@) == -1,
        },
{
    let mut i: usize = 0;
    while i < s.len()
        invariant
            i <= s@.len(),
            forall|j: int| 0 <= j < i ==> #[trigger] s@[j].id@ != id@,
        decreases s@.len() - i,
    {
        if str_eq(s[i].id.as_str(), id) {
            proof {
                lemma_preset_index_at(s@, id@, i as int);
            }
            return Some(i);
        }
        i = i + 1;
    }
    proof {
        lemma_preset_index_absent(s@, id@);
    }
    None
}

proof fn lemma_preset_index_at(s: Seq<PresetEntry>, id: Seq<char>, i: int)
    requires
        0 <= i < s.len(),
        s[i].id@ == id,
        forall|j: int| 0 <= j < i ==> #[trigger] s[j].id@ != id,
    ensures
        preset_index(s, id) == i,
    decreases i,
{
    if i > 0 {
        let rest = s.drop_first();
        assert forall|j: int| 0 <= j < i - 1 implies #[trigger] rest[j].id@ != id by {
            assert(rest[j] == s[j + 1]);
        }
        lemma_preset_index_at(rest, id, i - 1);
    }
}

proof fn lemma_preset_index_absent(s: Seq<PresetEntry>, id: Seq<char>)
    requires
        forall|j: int| 0 <= j < s.len() ==> #[trigger] s[j].id@ != id,
    ensures
        preset_index(s, id) == -1,
    decreases s.len(),
{
    if s.len() > 0 {
        let rest = s.drop_first();
        assert forall|j: int| 0 <= j < rest.len() implies #[trigger] rest[j].id@ != id by {
            assert(rest[j] == s[j + 1]);
        }
        lemma_preset_index_absent(rest, id);
    }
}

proof fn lemma_preset_index_has(s: Seq<PresetEntry>, id: Seq<char>)
    ensures
        (preset_index(s, id) >= 0) <==> has_preset(s, id),
        preset_index(s, id) >= 0 ==> preset_index(s, id) < s.len() && s[preset_index(s, id)].id@
            == id,
    decreases s.len(),
{
    if s.len() > 0 {
        let rest = s.drop_first();
        lemma_preset_index_has(rest, id);
        if s[0].id@ != id {
            if has_preset(s, id) {
                let i = choose|i: int| 0 <= i < s.len() && #[trigger] s[i].id@ == id;
                assert(rest[i - 1] == s[i]);
            }
            if has_preset(rest, id) {
                let i = choose|i: int| 0 <= i < rest.len() && #[trigger] rest[i].id@ == id;
                assert(s[i + 1] == rest[i]);
            }
        }
    }
}

proof fn lemma_without_path_excludes(s: Seq<RecentExport>, path: Seq<char>, k: int)
    requires
        0 <= k < without_path(s, path).len(),
    ensures
        without_path(s, path)[k].path@ != path,
    decreases s.len(),
{
    if s.len() > 0 {
        let before = without_path(s.drop_last(), path);
        if k < before.len() {
            lemma_without_path_excludes(s.drop_last(), path, k);
        }
    }
}

proof fn lemma_without_path_members(s: Seq<RecentExport>, path: Seq<char>, k: int)
    requires
        0 <= k < without_path(s, path).len(),
    ensures
        exists|j: int| 0 <= j < s.len() && s[j] == #[trigger] without_path(s, path)[k],
    decreases s.len(),
{
    if s.len() > 0 {
        let before = without_path(s.drop_last(), path);
        if k < before.len() {
            lemma_without_path_members(s.drop_last(), path, k);
            let j = choose|j: int|
                0 <= j < s.drop_last().len() && s.drop_last()[j] == #[trigger] without_path(
                    s.drop_last(),
                    path,
                )[k];
            assert(s[j] == s.drop_last()[j]);
        } else {
            assert(s[s.len() - 1] == without_path(s, path)[k]);
        }
    }
}

proof fn lemma_without_path_distinct(s: Seq<RecentExport>, path: Seq<char>)
    requires
        distinct_paths(s),
    ensures
        distinct_paths(without_path(s, path)),
    decreases s.len(),
{
    if s.len() > 0 {
        let init = s.drop_last();
        assert(distinct_paths(init));
        lemma_without_path_distinct(init, path);
        let before = without_path(init, path);
        if s.last().path@ != path {
            let w = before.push(s.last());
            assert forall|a: int, b: int| 0 <= a < b < w.len() implies w[a].path@
                != w[b].path@ by {
                if b == w.len() - 1 {
                    lemma_without_path_members(init, path, a);
                    let j = choose|j: int|
                        0 <= j < init.len() && init[j] == #[trigger] without_path(init, path)[a];
                    assert(s[j] == init[j]);
                    assert(s[j].path@ != s[s.len() - 1].path@);
                }
            }
        }
    }
}

/// A copy of a preset entry.
fn clone_entry(e: &PresetEntry) -> (r: PresetEntry)
    ensures
        r == *e,
{
    PresetEntry {
        id: e.id.clone(),
        name: e.name.clone(),
        summary: e.summary.clone(),
        codec: match &e.codec {
            Some(c) => Some(c.clone()),
            None => None,
        },
        source: match &e.source {
            PresetSource::Library => PresetSource::Library,
            PresetSource::Plugin { plugin } => PresetSource::Plugin { plugin: plugin.clone() },
        },
    }
}

/// A copy of a recent entry.
fn clone_recent(e: &RecentExport) -> (r: RecentExport)
    ensures
        r == *e,
{
    RecentExport {
        path: e.path.clone(),
        preset: e.preset.clone(),
        frames: e.frames,
        duration: e.duration,
        encoder: e.encoder.clone(),
    }
}

proof fn lemma_non_library_concat(a: Seq<PresetEntry>, b: Seq<PresetEntry>)
    ensures
        non_library(a + b) == non_library(a) + non_library(b),
    decreases b.len(),
{
    if b.len() == 0 {
        assert(a + b =~= a);
        assert(non_library(a) + non_library(b) =~= non_library(a));
    } else {
        lemma_non_library_concat(a, b.drop_last());
        assert((a + b).drop_last() =~= a + b.drop_last());
        assert((a + b).last() == b.last());
        if b.last().source != PresetSource::Library {
            assert(non_library(a) + non_library(b.drop_last()).push(b.last()) =~= (non_library(a)
                + non_library(b.drop_last())).push(b.last()));
        }
    }
}

proof fn lemma_non_library_idempotent(a: Seq<PresetEntry>)
    ensures
        non_library(non_library(a)) == non_library(a),
    decreases a.len(),
{
    if a.len() > 0 {
        lemma_non_library_idempotent(a.drop_last());
        if a.last().source != PresetSource::Library {
            let n = non_library(a.drop_last());
            assert(n.push(a.last()).drop_last() =~= n);
        }
    }
}

proof fn lemma_non_library_of_library(a: Seq<PresetEntry>)
    requires
        forall|i: int| 0 <= i < a.len() ==> (#[trigger] a[i]).source == PresetSource::Library,
    ensures
        non_library(a) == Seq::<PresetEntry>::empty(),
    decreases a.len(),
{
    if a.len() > 0 {
        assert(a.last() == a[a.len() - 1]);
        lemma_non_library_of_library(a.drop_last());
    }
}

/// Reloading the preset library keeps the presets plugins contributed: after
/// `set_library`, the entries that are not the library's are exactly those
/// that were there before, in order, whatever library is loaded.
pub proof fn law_library_reload_keeps_plugin_presets(library: Seq<PresetEntry>, before: Seq<PresetEntry>)
    requires
        forall|i: int| 0 <= i < library.len() ==> (#[trigger] library[i]).source == PresetSource::Library,
    ensures
        non_library(library + non_library(before)) == non_library(before),
{
    lemma_non_library_concat(library, non_library(before));
    lemma_non_library_of_library(library);
    lemma_non_library_idempotent(before);
    assert(Seq::<PresetEntry>::empty() + non_library(before) =~= non_library(before));
}

proof fn lemma_not_from_plugin_concat(a: Seq<PresetEntry>, b: Seq<PresetEntry>, plugin: Seq<char>)
    ensures
        not_from_plugin(a + b, plugin) == not_from_plugin(a, plugin) + not_from_plugin(b, plugin),
    decreases b.len(),
{
    if b.len() == 0 {
        assert(a + b =~= a);
        assert(not_from_plugin(a, plugin) + not_from_plugin(b, plugin) =~= not_from_plugin(a, plugin));
    } else {
        lemma_not_from_plugin_concat(a, b.drop_last(), plugin);
        assert((a + b).drop_last() =~= a + b.drop_last());
        assert((a + b).last() == b.last());
        let x = not_from_plugin(a, plugin);
        let y = not_from_plugin(b.drop_last(), plugin);
        assert(x + y.push(b.last()) =~= (x + y).push(b.last()));
    }
}

proof fn lemma_not_from_plugin_idempotent(a: Seq<PresetEntry>, plugin: Seq<char>)
    ensures
        not_from_plugin(not_from_plugin(a, plugin), plugin) == not_from_plugin(a, plugin),
    decreases a.len(),
{
    if a.len() > 0 {
        lemma_not_from_plugin_idempotent(a.drop_last(), plugin);
        let n = not_from_plugin(a.drop_last(), plugin);
        assert(n.push(a.last()).drop_last() =~= n);
    }
}

proof fn lemma_not_from_plugin_own(a: Seq<PresetEntry>, plugin: Seq<char>)
    requires
        forall|i: int| 0 <= i < a.len() ==> ((#[trigger] a[i]).source matches PresetSource::Plugin { plugin: owner } && owner@ == plugin),
    ensures
        not_from_plugin(a, plugin) == Seq::<PresetEntry>::empty(),
    decreases a.len(),
{
    if a.len() > 0 {
        assert(a.last() == a[a.len() - 1]);
        lemma_not_from_plugin_own(a.drop_last(), plugin);
    }
}

/// Loading a plugin's presets twice lists them once: the second set
/// replaces the first, and everything else stays as it was.
pub proof fn law_plugin_presets_replace_their_own(
    before: Seq<PresetEntry>,
    plugin: Seq<char>,
    first: Seq<PresetEntry>,
    second: Seq<PresetEntry>,
)
    requires
        forall|i: int| 0 <= i < first.len() ==> ((#[trigger] first[i]).source matches PresetSource::Plugin { plugin: owner } && owner@ == plugin),
    ensures
        not_from_plugin(not_from_plugin(before, plugin) + first, plugin) + second
            == not_from_plugin(before, plugin) + second,
{
    lemma_not_from_plugin_concat(not_from_plugin(before, plugin), first, plugin);
    lemma_not_from_plugin_idempotent(before, plugin);
    lemma_not_from_plugin_own(first, plugin);
    assert(not_from_plugin(before, plugin) + Seq::<PresetEntry>::empty() =~= not_from_plugin(before, plugin));
}

} // verus!
