//! The editor window's own rules: the words its File menu and ready line
//! use, how it reads a yes from the environment, and which actions become
//! an edit from the bin.

use vstd::prelude::*;
use crate::keymap::Action;
use crate::problem::{concat, Problem};
use crate::text::{ascii_lower, ascii_lower_seq, chars_of, decimal, decimal_text, lower_char, range_eq_str, trim, trimmed};

verus! {

/// The File menu's open entry.
pub const OPEN_LABEL: &'static str = "Open project...";

/// The File menu's save entry.
pub const SAVE_LABEL: &'static str = "Save project";

/// The File menu's save-as entry.
pub const SAVE_AS_LABEL: &'static str = "Save project as...";

/// The extension a project file has.
pub const PROJECT_EXTENSION: &'static str = "sub";

/// The undo entry one Import gesture leaves behind, however many files it
/// carried.
pub const IMPORT_GROUP_LABEL: &'static str = "Import media";

/// Why an import into a project that has never been saved is refused.
pub const NO_IMPORT_REASON: &'static str =
    "Save the project to a file before importing: its media is named relative to it";

/// The environment variable naming the Command API instance this editor
/// serves.
pub const INSTANCE_ENV: &'static str = "SUBORDINATE_INSTANCE";

/// The environment variable overriding where this editor's socket and lock
/// file live.
pub const ENDPOINT_DIR_ENV: &'static str = "SUBORDINATE_ENDPOINT_DIR";

/// The environment variable that stops the editor serving the Command API.
pub const NO_COMMAND_API_ENV: &'static str = "SUBORDINATE_NO_COMMAND_API";

/// The line the window smoke run prints once every window has a picture.
pub const UI_SMOKE_READY: &'static str = "ui-smoke ready";

/// Why the Export button is held closed for an unsaved project.
pub const NO_RENDERER_REASON: &'static str =
    "Save the project to a file before exporting: its media is named relative to it";

/// Whether a trimmed, lower-cased value spells yes.
pub open spec fn spells_yes(t: Seq<char>) -> bool {
    t == "1"@ || t == "true"@ || t == "yes"@ || t == "on"@
}

/// Whether an environment variable's value spells "yes": `1`, `true`,
/// `yes` or `on`, ignoring case and surrounding whitespace.
pub fn is_yes(value: &str) -> (r: bool)
    ensures
        r == spells_yes(ascii_lower_seq(trim(value@))),
{
    let t = trimmed(value);
    let cs = chars_of(t.as_str());
    let mut low: Vec<char> = Vec::new();
    let mut i: usize = 0;
    while i < cs.len()
        invariant
            i <= cs@.len(),
            low@ == ascii_lower_seq(cs@.subrange(0, i as int)),
        decreases cs@.len() - i,
    {
        low.push(lower_char(cs[i]));
        i = i + 1;
        assert(low@ =~= ascii_lower_seq(cs@.subrange(0, i as int)));
    }
    assert(cs@.subrange(0, cs@.len() as int) =~= cs@);
    let n = low.len();
    assert(low@.subrange(0, n as int) =~= low@);
    range_eq_str(low.as_slice(), 0, n, "1") || range_eq_str(low.as_slice(), 0, n, "true")
        || range_eq_str(low.as_slice(), 0, n, "yes") || range_eq_str(low.as_slice(), 0, n, "on")
}

/// The value of the decimal digits `d`.
pub open spec fn digits_value(d: Seq<char>) -> nat
    decreases d.len(),
{
    if d.len() == 0 {
        0
    } else {
        digits_value(d.drop_last()) * 10 + ((d.last() as u32 - '0' as u32) as nat)
    }
}

/// Whether every character of `d` is an ASCII digit.
pub open spec fn all_digits(d: Seq<char>) -> bool {
    forall|i: int| 0 <= i < d.len() ==> '0' <= #[trigger] d[i] <= '9'
}

/// What `u32`'s `FromStr` reads `s` as: an optional `+`, then one or more
/// ASCII digits, whose value fits in 32 bits.
pub open spec fn count_of(s: Seq<char>) -> Option<u32> {
    let d = if s.len() > 0 && s[0] == '+' { s.drop_first() } else { s };
    if d.len() == 0 || !all_digits(d) || digits_value(d) > u32::MAX {
        None
    } else {
        Some(digits_value(d) as u32)
    }
}

proof fn lemma_digits_value_grows(d: Seq<char>, c: char)
    requires
        '0' <= c <= '9',
    ensures
        digits_value(d.push(c)) >= digits_value(d),
        digits_value(d.push(c)) == digits_value(d) * 10 + ((c as u32 - '0' as u32) as nat),
{
    assert(d.push(c).drop_last() =~= d);
}

proof fn lemma_digits_value_monotone(d: Seq<char>, n: int)
    requires
        0 <= n <= d.len(),
        all_digits(d),
    ensures
        digits_value(d) >= digits_value(d.subrange(0, n)),
    decreases d.len() - n,
{
    if n < d.len() {
        lemma_digits_value_monotone(d, n + 1);
        assert(d.subrange(0, n + 1) =~= d.subrange(0, n).push(d[n]));
        lemma_digits_value_grows(d.subrange(0, n), d[n]);
    } else {
        assert(d.subrange(0, n) =~= d);
    }
}

/// A count of frames as written in an environment variable, read the way
/// `str::parse::<u32>` reads the trimmed value: `None` when it is not one.
pub fn parse_count(value: &str) -> (r: Option<u32>)
    ensures
        r == count_of(trim(value@)),
{
    let t = trimmed(value);
    let cs = chars_of(t.as_str());
    let start: usize = if cs.len() > 0 && cs[0] == '+' { 1 } else { 0 };
    let ghost d = if cs@.len() > 0 && cs@[0] == '+' { cs@.drop_first() } else { cs@ };
    assert(d =~= cs@.subrange(start as int, cs@.len() as int));
    assert(cs@ == trim(value@));
    if start == cs.len() {
        assert(d.len() == 0);
        return None;
    }
    let mut total: u64 = 0;
    let mut i: usize = start;
    while i < cs.len()
        invariant
            start <= i <= cs@.len(),
            d == cs@.subrange(start as int, cs@.len() as int),
            cs@ == trim(value@),
            d == (if cs@.len() > 0 && cs@[0] == '+' { cs@.drop_first() } else { cs@ }),
            d.len() > 0,
            all_digits(cs@.subrange(start as int, i as int)),
            total as nat == digits_value(cs@.subrange(start as int, i as int)),
            total <= u32::MAX,
        decreases cs@.len() - i,
    {
        let c = cs[i];
        assert(cs@.subrange(start as int, i + 1 as int) =~= cs@.subrange(start as int, i as int).push(c));
        if !('0' <= c && c <= '9') {
            proof {
                assert(d[i - start] == c);
                assert(!all_digits(d));
            }
            return None;
        }
        proof {
            lemma_digits_value_grows(cs@.subrange(start as int, i as int), c);
        }
        let digit = (c as u32 - '0' as u32) as u64;
        total = total * 10 + digit;
        if total > u32::MAX as u64 {
            proof {
                let head = cs@.subrange(start as int, i + 1 as int);
                if all_digits(d) {
                    assert(head =~= d.subrange(0, (i + 1 - start) as int));
                    lemma_digits_value_monotone(d, (i + 1 - start) as int);
                }
            }
            return None;
        }
        i = i + 1;
    }
    assert(cs@.subrange(start as int, cs@.len() as int) =~= d);
    Some(total as u32)
}

/// What the environment asks of a launch, read from the variables that
/// name it.
pub struct LaunchSettings {
    /// Close the window after this many painted frames, for the smoke run.
    pub smoke_frames: Option<u32>,
    /// Whether the window serves the Command API.
    pub serve_command_api: bool,
    /// The Command API instance to serve, when one is named.
    pub instance: Option<String>,
    /// Where the socket and lock file live, when overridden.
    pub endpoint_dir: Option<String>,
}

/// A value that is set and not empty.
pub open spec fn non_empty(v: Option<Seq<char>>) -> Option<Seq<char>> {
    match v {
        Some(s) => if s.len() > 0 { Some(s) } else { None },
        None => None,
    }
}

/// The view of an optional borrowed string.
pub open spec fn opt_str(v: Option<&str>) -> Option<Seq<char>> {
    match v {
        Some(s) => Some(s@),
        None => None,
    }
}

/// The view of an optional string.
pub open spec fn opt_string(v: Option<String>) -> Option<Seq<char>> {
    match v {
        Some(s) => Some(s@),
        None => None,
    }
}

/// A value kept when it is set and not empty.
fn kept_value(v: Option<&str>) -> (r: Option<String>)
    ensures
        opt_string(r) == non_empty(opt_str(v)),
{
    match v {
        Some(s) => if s.unicode_len() > 0 {
            Some(s.to_string())
        } else {
            None
        },
        None => None,
    }
}

impl LaunchSettings {
    /// The launch the variables ask for, given the values of
    /// `SUB_SMOKE_FRAMES`, `SUBORDINATE_NO_COMMAND_API`,
    /// `SUBORDINATE_INSTANCE` and `SUBORDINATE_ENDPOINT_DIR`: an unset or
    /// unreadable frame count runs normally, the Command API is served
    /// unless told otherwise with a yes, and an empty name is no name.
    pub fn from_vars(
        smoke_frames: Option<&str>,
        no_command_api: Option<&str>,
        instance: Option<&str>,
        endpoint_dir: Option<&str>,
    ) -> (r: LaunchSettings)
        ensures
            r.smoke_frames == match smoke_frames {
                Some(v) => count_of(trim(v@)),
                None => None::<u32>,
            },
            r.serve_command_api == !(no_command_api matches Some(v) && spells_yes(
                ascii_lower_seq(trim(v@)),
            )),
            opt_string(r.instance) == non_empty(opt_str(instance)),
            opt_string(r.endpoint_dir) == non_empty(opt_str(endpoint_dir)),
    {
        let smoke = match smoke_frames {
            Some(v) => parse_count(v),
            None => None,
        };
        let refused = match no_command_api {
            Some(v) => is_yes(v),
            None => false,
        };
        LaunchSettings {
            smoke_frames: smoke,
            serve_command_api: !refused,
            instance: kept_value(instance),
            endpoint_dir: kept_value(endpoint_dir),
        }
    }
}

/// What became of the project named on the command line.
#[derive(Debug, Clone, Copy, PartialEq, Eq, Structural)]
pub enum ProjectState {
    /// No project was asked for.
    Unrequested,
    /// The project opened.
    Loaded,
    /// The project was asked for and would not open.
    Failed,
}

/// The word the ready line reports for a project state.
pub open spec fn project_state_label(s: ProjectState) -> Seq<char> {
    match s {
        ProjectState::Unrequested => "none"@,
        ProjectState::Loaded => "loaded"@,
        ProjectState::Failed => "failed"@,
    }
}

impl ProjectState {
    /// The word the ready line reports.
    pub fn label(self) -> (r: &'static str)
        ensures
            r@ == project_state_label(self),
    {
        match self {
            ProjectState::Unrequested => "none",
            ProjectState::Loaded => "loaded",
            ProjectState::Failed => "failed",
        }
    }
}

/// How a clip from the bin enters the timeline.
#[derive(Debug, Clone, Copy, PartialEq, Eq, Structural)]
pub enum EditMode {
    /// Push what follows the playhead later.
    Insert,
    /// Write over what is at the playhead.
    Overwrite,
}

/// The edit an action asks the bin's selection for, when it asks for one.
pub fn edit_mode_for(action: Action) -> (r: Option<EditMode>)
    ensures
        r == match action {
            Action::InsertAtPlayhead => Some(EditMode::Insert),
            Action::OverwriteAtPlayhead => Some(EditMode::Overwrite),
            _ => None::<EditMode>,
        },
{
    match action {
        Action::InsertAtPlayhead => Some(EditMode::Insert),
        Action::OverwriteAtPlayhead => Some(EditMode::Overwrite),
        _ => None,
    }
}

/// A scrub grain of `numerator / denominator` seconds in nanoseconds: none
/// for a grain that is not positive, and the product saturating rather than
/// wrapping for an absurdly long one.
pub open spec fn grain_nanos_of(numerator: i64, denominator: i64) -> int {
    if denominator <= 0 || numerator <= 0 {
        0
    } else {
        let product = if numerator * 1_000_000_000 > i64::MAX {
            i64::MAX as int
        } else {
            numerator * 1_000_000_000
        };
        product / (denominator as int)
    }
}

/// How long one scrub grain lasts, in nanoseconds.
pub fn grain_nanos(numerator: i64, denominator: i64) -> (r: u64)
    ensures
        r == grain_nanos_of(numerator, denominator),
{
    if denominator <= 0 || numerator <= 0 {
        return 0;
    }
    let product: i64 = match numerator.checked_mul(1_000_000_000) {
        Some(p) => p,
        None => i64::MAX,
    };
    let nanos = product / denominator;
    assert(0 <= nanos <= product);
    nanos as u64
}

/// Where the Command API stands, as the ready line reports it.
#[derive(Debug, Clone, PartialEq, Eq)]
pub enum CommandApiState {
    /// The editor does not serve it.
    Off,
    /// It is still binding.
    Starting,
    /// It listens at this address, in its wire form.
    Listening(String),
    /// It was refused, with this error code and message.
    Refused { code: String, message: String },
}

/// What the ready line says about the agent surface.
pub open spec fn command_api_label_of(s: CommandApiState) -> Seq<char> {
    match s {
        CommandApiState::Off => "off"@,
        CommandApiState::Starting => "starting"@,
        CommandApiState::Listening(address) => address@,
        CommandApiState::Refused { code, .. } => "refused:"@ + code@,
    }
}

/// The status bar's line about the agent surface.
pub open spec fn command_api_status_of(s: CommandApiState) -> Seq<char> {
    match s {
        CommandApiState::Listening(address) => "Command API listening on "@ + address@,
        CommandApiState::Refused { message, .. } => "Command API not served: "@ + message@,
        CommandApiState::Starting => "Command API starting"@,
        CommandApiState::Off => "Command API not served"@,
    }
}

impl CommandApiState {
    /// The address it listens on, the code that refused it, or `off`.
    pub fn label(&self) -> (r: String)
        ensures
            r@ == command_api_label_of(*self),
    {
        match self {
            CommandApiState::Off => "off".to_string(),
            CommandApiState::Starting => "starting".to_string(),
            CommandApiState::Listening(address) => address.clone(),
            CommandApiState::Refused { code, .. } => concat("refused:", code.as_str()),
        }
    }

    /// One line for the status bar and the log: what the agent surface is
    /// doing.
    pub fn status_line(&self) -> (r: String)
        ensures
            r@ == command_api_status_of(*self),
    {
        match self {
            CommandApiState::Listening(address) => concat("Command API listening on ", address.as_str()),
            CommandApiState::Refused { message, .. } => concat("Command API not served: ", message.as_str()),
            CommandApiState::Starting => "Command API starting".to_string(),
            CommandApiState::Off => "Command API not served".to_string(),
        }
    }

    /// Whether it has finished starting, one way or the other: the ready
    /// line waits for that, so a client connecting on it does not race the
    /// bind.
    pub fn settled(&self) -> (r: bool)
        ensures
            r == !(*self is Starting),
    {
        match self {
            CommandApiState::Starting => false,
            _ => true,
        }
    }
}

/// How many failures the media bin keeps on screen at once: enough that
/// dropping a folder of mixed files shows what was refused, few enough that
/// the panel is still a bin rather than a log.
pub const MAX_BIN_PROBLEMS: usize = 8;

/// What the last imports and relinks got wrong, newest last, for the media
/// bin to show.
pub struct BinProblems {
    problems: Vec<Problem>,
}

/// The list `shown` becomes when `p` goes wrong: `p` joins at the end, and
/// the oldest goes when the list is full.
pub open spec fn with_problem(shown: Seq<Problem>, p: Problem) -> Seq<Problem> {
    if shown.len() >= MAX_BIN_PROBLEMS {
        shown.drop_first().push(p)
    } else {
        shown.push(p)
    }
}

impl BinProblems {
    /// The problems shown, oldest first.
    pub closed spec fn spec_shown(&self) -> Seq<Problem> {
        self.problems@
    }

    /// The bin never shows more than its limit.
    #[verifier::type_invariant]
    spec fn bounded(self) -> bool {
        self.problems@.len() <= MAX_BIN_PROBLEMS
    }

    /// Nothing wrong yet.
    pub fn new() -> (r: BinProblems)
        ensures
            r.spec_shown().len() == 0,
    {
        BinProblems { problems: Vec::new() }
    }

    /// Records `p` for the bin to show, dropping the oldest when the list is
    /// full.
    pub fn push(&mut self, p: Problem)
        ensures
            final(self).spec_shown() == with_problem(old(self).spec_shown(), p),
    {
        proof {
            use_type_invariant(&*self);
        }
        let mut shown: Vec<Problem> = Vec::new();
        std::mem::swap(&mut shown, &mut self.problems);
        if shown.len() >= MAX_BIN_PROBLEMS {
            shown.remove(0);
        }
        shown.push(p);
        self.problems = shown;
    }

    /// The problems shown, oldest first.
    pub fn shown(&self) -> (r: &[Problem])
        ensures
            r@ == self.spec_shown(),
    {
        self.problems.as_slice()
    }
}

/// However many problems arrive, the bin shows at most its limit of them,
/// and always the newest.
pub proof fn law_the_bin_shows_the_newest_problems(shown: Seq<Problem>, p: Problem)
    requires
        shown.len() <= MAX_BIN_PROBLEMS,
    ensures
        with_problem(shown, p).len() <= MAX_BIN_PROBLEMS,
        with_problem(shown, p).last() == p,
        with_problem(shown, p).drop_last() == if shown.len() < MAX_BIN_PROBLEMS {
            shown
        } else {
            shown.drop_first()
        },
{
    assert(with_problem(shown, p).drop_last() =~= if shown.len() < MAX_BIN_PROBLEMS {
        shown
    } else {
        shown.drop_first()
    });
}

/// Why an unattended run ends.
#[derive(Debug, Clone, Copy, PartialEq, Eq, Structural)]
pub enum CloseReason {
    /// The smoke test painted the frames it was asked for; this many.
    Painted(u32),
    /// The window was held up for as long as it was asked to be.
    Held,
}

/// The limits an unattended run paints under: a count of frames for the
/// smoke test, a span to hold the window up for, or both.
#[derive(Debug, Clone, Copy, PartialEq, Eq, Structural)]
pub struct RunLimits {
    /// Close the window after this many painted frames.
    pub smoke_frames: Option<u32>,
    /// Close the window once it has been up this many nanoseconds.
    pub hold_nanos: Option<u128>,
}

impl Default for RunLimits {
    /// A normal run: no limit, so it waits for the user.
    fn default() -> (r: Self)
        ensures
            r.smoke_frames is None,
            r.hold_nanos is None,
    {
        RunLimits { smoke_frames: None, hold_nanos: None }
    }
}

impl RunLimits {
    /// Whether this run paints on its own rather than waiting for input:
    /// both CI runs do, one counting frames and the other holding the window
    /// up for a span.
    pub fn is_unattended(&self) -> (r: bool)
        ensures
            r == (self.smoke_frames is Some || self.hold_nanos is Some),
    {
        self.smoke_frames.is_some() || self.hold_nanos.is_some()
    }

    /// Whether the run ends after `frames_painted` frames and
    /// `elapsed_nanos` nanoseconds, and why.
    pub fn close_reason(&self, frames_painted: u32, elapsed_nanos: u128) -> (r: Option<CloseReason>)
        ensures
            r == if self.smoke_frames matches Some(t) && frames_painted >= t {
                Some(CloseReason::Painted(frames_painted))
            } else if self.hold_nanos matches Some(h) && elapsed_nanos >= h {
                Some(CloseReason::Held)
            } else {
                None
            },
    {
        unattended_close_reason(self.smoke_frames, frames_painted, self.hold_nanos, elapsed_nanos)
    }
}

/// Whether an unattended run ends now, and why: a smoke test ends once it
/// has painted its frames, a held window once its time is up, and a run
/// given both ends on whichever comes first.
pub fn unattended_close_reason(
    smoke_frames: Option<u32>,
    frames_painted: u32,
    hold_nanos: Option<u128>,
    elapsed_nanos: u128,
) -> (r: Option<CloseReason>)
    ensures
        r == if smoke_frames matches Some(t) && frames_painted >= t {
            Some(CloseReason::Painted(frames_painted))
        } else if hold_nanos matches Some(h) && elapsed_nanos >= h {
            Some(CloseReason::Held)
        } else {
            None
        },
{
    match smoke_frames {
        Some(t) => if frames_painted >= t {
            return Some(CloseReason::Painted(frames_painted));
        },
        None => {},
    }
    match hold_nanos {
        Some(h) => if elapsed_nanos >= h {
            Some(CloseReason::Held)
        } else {
            None
        },
        None => None,
    }
}

/// What a smoke test that has painted `frames` frames says as it closes.
pub fn painted_message(frames: u32) -> (r: String)
    ensures
        r@ == "smoke test painted "@ + decimal(frames as nat) + " frames"@,
{
    let digits = decimal_text(frames as u64);
    let head = concat("smoke test painted ", digits.as_str());
    concat(head.as_str(), " frames")
}

/// Whether pixel `p` of an RGBA canvas is not black.
pub open spec fn pixel_lit(rgba: Seq<u8>, p: int) -> bool {
    rgba[4 * p] != 0 || rgba[4 * p + 1] != 0 || rgba[4 * p + 2] != 0
}

/// Whether the pixels of an RGBA canvas hold one that is not black.
pub open spec fn lit_pixel(rgba: Seq<u8>) -> bool {
    exists|p: int| 0 <= p < rgba.len() / 4 && #[trigger] pixel_lit(rgba, p)
}

/// What the ready line says of the canvas: `unread` on a run that is not
/// photographed, else `lit` when a pixel is not black and `black` when none
/// is.
pub open spec fn canvas_label_of(photographed: bool, rgba: Seq<u8>) -> Seq<char> {
    if !photographed {
        "unread"@
    } else if lit_pixel(rgba) {
        "lit"@
    } else {
        "black"@
    }
}

/// What the canvas holds, for the ready line. `rgba` is the canvas read
/// back, four bytes a pixel; a trailing partial pixel is no pixel.
pub fn canvas_label(photographed: bool, rgba: &[u8]) -> (r: &'static str)
    ensures
        r@ == canvas_label_of(photographed, rgba@),
{
    if !photographed {
        return "unread";
    }
    let mut p: usize = 0;
    let mut at: usize = 0;
    while at < rgba.len() && rgba.len() - at >= 4
        invariant
            photographed,
            at == 4 * p,
            at <= rgba@.len(),
            forall|q: int| 0 <= q < p ==> !#[trigger] pixel_lit(rgba@, q),
        decreases rgba@.len() - at,
    {
        if rgba[at] != 0 || rgba[at + 1] != 0 || rgba[at + 2] != 0 {
            assert(p < rgba@.len() / 4) by (nonlinear_arith)
                requires
                    at == 4 * p,
                    at + 4 <= rgba@.len(),
            ;
            assert(pixel_lit(rgba@, p as int));
            return "lit";
        }
        p = p + 1;
        at = at + 4;
    }
    assert(p >= rgba@.len() / 4) by (nonlinear_arith)
        requires
            at == 4 * p,
            at + 4 > rgba@.len(),
    ;
    "black"
}

/// Whether every window of the run has painted a picture: the editor's,
/// the pop-out's when it is open, and the previews have caught up with the
/// playhead.
pub fn windows_are_up(frames_painted: u32, popout_open: bool, popout_frames: u32, previews_settled: bool) -> (r:
    bool)
    ensures
        r == (frames_painted > 0 && (!popout_open || popout_frames > 0) && previews_settled),
{
    frames_painted > 0 && (!popout_open || popout_frames > 0) && previews_settled
}

/// What the ready line reports.
pub struct ReadyReport {
    /// Frames the editor window has painted.
    pub frames: u32,
    /// Whether the pop-out viewer is open.
    pub popout: bool,
    /// Frames the pop-out has painted.
    pub popout_frames: u32,
    /// How the project named on the command line loaded.
    pub project: ProjectState,
    /// Sequences in the project.
    pub sequences: u64,
    /// Tracks in the open sequence.
    pub tracks: u64,
    /// The session's revision.
    pub revision: u64,
    /// The agent surface, as [`CommandApiState::label`] says it.
    pub command_api: String,
    /// Clips showing a picture.
    pub picture: u64,
    /// The canvas, as [`canvas_label`] says it.
    pub canvas: String,
}

/// `true` or `false`.
pub open spec fn bool_text(b: bool) -> Seq<char> {
    if b {
        "true"@
    } else {
        "false"@
    }
}

/// The ready line an unattended run prints once every window has a
/// picture; a script waits for it, so its wording and fields are fixed.
pub open spec fn ready_line_of(r: ReadyReport) -> Seq<char> {
    UI_SMOKE_READY@ + ": frames="@ + decimal(r.frames as nat) + " popout="@ + bool_text(r.popout)
        + " popout_frames="@ + decimal(r.popout_frames as nat) + " project="@ + project_state_label(
        r.project,
    ) + " sequences="@ + decimal(r.sequences as nat) + " tracks="@ + decimal(r.tracks as nat)
        + " revision="@ + decimal(r.revision as nat) + " command_api="@ + r.command_api@
        + " picture="@ + decimal(r.picture as nat) + " canvas="@ + r.canvas@
}

/// The ready line for `r`.
pub fn ready_line(r: &ReadyReport) -> (line: String)
    ensures
        line@ == ready_line_of(*r),
{
    let s = concat(UI_SMOKE_READY, ": frames=");
    let s = concat(s.as_str(), decimal_text(r.frames as u64).as_str());
    let s = concat(s.as_str(), " popout=");
    let s = concat(s.as_str(), if r.popout { "true" } else { "false" });
    let s = concat(s.as_str(), " popout_frames=");
    let s = concat(s.as_str(), decimal_text(r.popout_frames as u64).as_str());
    let s = concat(s.as_str(), " project=");
    let s = concat(s.as_str(), r.project.label());
    let s = concat(s.as_str(), " sequences=");
    let s = concat(s.as_str(), decimal_text(r.sequences).as_str());
    let s = concat(s.as_str(), " tracks=");
    let s = concat(s.as_str(), decimal_text(r.tracks).as_str());
    let s = concat(s.as_str(), " revision=");
    let s = concat(s.as_str(), decimal_text(r.revision).as_str());
    let s = concat(s.as_str(), " command_api=");
    let s = concat(s.as_str(), r.command_api.as_str());
    let s = concat(s.as_str(), " picture=");
    let s = concat(s.as_str(), decimal_text(r.picture).as_str());
    let s = concat(s.as_str(), " canvas=");
    let s = concat(s.as_str(), r.canvas.as_str());
    s
}

} // verus!
