//! What the panels report when something the user gave them cannot be
//! used: a stable code, a sentence, and named details.

use vstd::prelude::*;
use vstd::string::*;

verus! {

/// A keymap file is not valid TOML, or an entry has the wrong shape.
pub const KEYMAP_PARSE: &'static str = "ui.keymap_parse";

/// A keymap entry names an action this editor does not have.
pub const KEYMAP_UNKNOWN_ACTION: &'static str = "ui.keymap_unknown_action";

/// A keymap entry's value is not a keyboard chord.
pub const KEYMAP_INVALID_CHORD: &'static str = "ui.keymap_invalid_chord";

/// A keymap file exists but could not be read.
pub const KEYMAP_UNREADABLE: &'static str = "ui.keymap_unreadable";

/// A plugin asked for a shortcut that is not a keyboard chord.
pub const PLUGIN_INVALID_CHORD: &'static str = "ui.plugin_invalid_chord";

/// A plugin asked for a chord the editor or an earlier plugin already holds.
pub const PLUGIN_SHORTCUT_CONFLICT: &'static str = "ui.plugin_shortcut_conflict";

/// A `layout.json` is not valid JSON, names a panel this build does not
/// have, or was written by a different schema version.
pub const LAYOUT_PARSE: &'static str = "ui.layout_parse";

/// A `fullscreen.json` is not valid JSON, or was written by a different
/// schema version.
pub const FULLSCREEN_PARSE: &'static str = "ui.fullscreen_parse";

/// A fade handle drag cannot become an edit.
pub const CLIP_FADE_REFUSED: &'static str = "ui.clip_fade_refused";

/// The export panel cannot build a request yet; the `field` detail names
/// what is missing.
pub const EXPORT_NOT_READY: &'static str = "ui.export_not_ready";

/// A `layout.json` exists but could not be read.
pub const LAYOUT_UNREADABLE: &'static str = "ui.layout_unreadable";

/// The panel layout could not be written to the config directory.
pub const LAYOUT_UNWRITABLE: &'static str = "ui.layout_unwritable";

/// A `fullscreen.json` exists but could not be read.
pub const FULLSCREEN_UNREADABLE: &'static str = "ui.fullscreen_unreadable";

/// The fullscreen display choice could not be written.
pub const FULLSCREEN_UNWRITABLE: &'static str = "ui.fullscreen_unwritable";

/// A second export was asked for while one was already running.
pub const EXPORT_BUSY: &'static str = "ui.export_busy";

/// The chosen preset came from an exporter plugin, which the host cannot
/// resolve to export settings yet.
pub const EXPORT_PRESET_UNSUPPORTED: &'static str = "ui.export_preset_unsupported";

/// A finished export's directory could not be handed to the file manager.
pub const EXPORT_FOLDER_UNOPENABLE: &'static str = "ui.export_folder_unopenable";

/// A plugin's install directory could not be handed to the file manager.
pub const PLUGIN_FOLDER_UNOPENABLE: &'static str = "ui.plugin_folder_unopenable";

/// A project file exists but could not be read or parsed.
pub const PROJECT_UNREADABLE: &'static str = "ui.project_unreadable";

/// The project could not be written.
pub const PROJECT_UNSAVED: &'static str = "ui.project_unsaved";

/// Media was asked to be imported into a project that has never been saved.
pub const IMPORT_NOT_READY: &'static str = "ui.import_not_ready";

/// One problem: a stable code, a sentence, and named details.
pub struct Problem {
    /// The stable code, e.g. `ui.keymap_parse`.
    pub code: String,
    /// One sentence saying what is wrong.
    pub message: String,
    /// Named values that locate the problem, in the order they were added.
    pub details: Vec<(String, String)>,
}

/// A problem as character sequences.
pub struct ProblemView {
    /// The code.
    pub code: Seq<char>,
    /// The sentence.
    pub message: Seq<char>,
    /// The details.
    pub details: Seq<(Seq<char>, Seq<char>)>,
}

/// The views of a list of details.
pub open spec fn details_view(d: Seq<(String, String)>) -> Seq<(Seq<char>, Seq<char>)> {
    d.map_values(|p: (String, String)| (p.0@, p.1@))
}

impl Problem {
    /// The problem as character sequences.
    pub open spec fn view_problem(&self) -> ProblemView {
        ProblemView {
            code: self.code@,
            message: self.message@,
            details: details_view(self.details@),
        }
    }

    /// A problem with no details yet.
    pub fn new(code: &str, message: String) -> (r: Problem)
        ensures
            r.code@ == code@,
            r.message@ == message@,
            r.details@.len() == 0,
    {
        Problem { code: code.to_string(), message, details: Vec::new() }
    }

    /// This problem with one more detail.
    pub fn with_detail(self, name: &str, value: &str) -> (r: Problem)
        ensures
            r.code@ == self.code@,
            r.message@ == self.message@,
            details_view(r.details@) == details_view(self.details@).push((name@, value@)),
    {
        let mut details = self.details;
        let ghost before = details@;
        details.push((name.to_string(), value.to_string()));
        assert(details_view(details@) =~= details_view(before).push((name@, value@)));
        Problem { code: self.code, message: self.message, details }
    }
}

/// The views of a list of problems.
pub open spec fn problems_view(p: Seq<Problem>) -> Seq<ProblemView> {
    p.map_values(|x: Problem| x.view_problem())
}

/// How Rust's `Debug` writes the string `s`: quoted, with escapes.
pub uninterp spec fn debug_quoted(s: Seq<char>) -> Seq<char>;

/// `s` written with `{:?}`, as the messages quote what the user typed.
///
/// Trusted: the result is `<str as Debug>::fmt` of `s`, which depends on `s`
/// alone.
#[verifier::external_body]
pub(crate) fn debug_text(s: &str) -> (r: String)
    ensures
        r@ == debug_quoted(s@),
{
    format!("{s:?}")
}

/// `a` followed by `b`.
pub fn concat(a: &str, b: &str) -> (r: String)
    ensures
        r@ == a@ + b@,
{
    let mut out = a.to_string();
    out.append(b);
    out
}

/// What reading a configuration file gave.
pub enum FileRead {
    /// There is no file: the ordinary case of a user who never wrote one.
    Missing,
    /// The file is there but could not be read, for this reason.
    Unreadable(String),
    /// The file's text.
    Text(String),
}

/// What reading and parsing a configuration file came to.
pub enum FileOutcome<L> {
    /// There is no file.
    Missing,
    /// The file is there but could not be read, for this reason.
    Unreadable(String),
    /// The file was read and gave this.
    Parsed(L),
    /// The file was read and refused with this problem.
    Refused(Problem),
}

/// What a configuration file contributes: the value it gave, when it gave
/// one (else the default is in force), whether there was a file to name as
/// the source, and what was wrong with it.
pub struct Loaded<L> {
    /// The value the file gave, or none for the default.
    pub value: Option<L>,
    /// Whether a file was there.
    pub read: bool,
    /// Everything wrong with the file.
    pub problems: Vec<Problem>,
}

/// The problem a file shown as `shown` that could not be read, for `why`,
/// is reported with, under `code`.
pub open spec fn unreadable_problem(code: Seq<char>, shown: Seq<char>, why: Seq<char>) -> ProblemView {
    ProblemView {
        code: code,
        message: shown + " could not be read: "@ + why,
        details: seq![("path"@, shown)],
    }
}

/// `p` with the file it is about named.
pub open spec fn about_file(p: ProblemView, shown: Seq<char>) -> ProblemView {
    ProblemView { code: p.code, message: p.message, details: p.details.push(("path"@, shown)) }
}

/// The problem a file that could not be read is reported with.
pub fn unreadable(code: &str, shown: &str, why: &str) -> (r: Problem)
    ensures
        r.view_problem() == unreadable_problem(code@, shown@, why@),
{
    let head = concat(shown, " could not be read: ");
    let message = concat(head.as_str(), why);
    let r = Problem::new(code, message).with_detail("path", shown);
    assert(details_view(r.details@) =~= seq![("path"@, shown@)]);
    r
}

/// What a configuration file shown as `shown` contributes, given what
/// reading and parsing it came to: no file is no problem; a file that
/// cannot be read, or is refused, leaves the default in force with one
/// problem naming it; a parsed file gives its value.
pub fn settle_file<L>(code: &str, shown: &str, outcome: FileOutcome<L>) -> (r: Loaded<L>)
    ensures
        match outcome {
            FileOutcome::Missing => r.value is None && !r.read && r.problems@.len() == 0,
            FileOutcome::Unreadable(why) => {
                &&& r.value is None
                &&& r.read
                &&& problems_view(r.problems@) == seq![unreadable_problem(code@, shown@, why@)]
            },
            FileOutcome::Parsed(v) => r.value == Some(v) && r.read && r.problems@.len() == 0,
            FileOutcome::Refused(p) => {
                &&& r.value is None
                &&& r.read
                &&& problems_view(r.problems@) == seq![about_file(p.view_problem(), shown@)]
            },
        },
{
    match outcome {
        FileOutcome::Missing => Loaded { value: None, read: false, problems: Vec::new() },
        FileOutcome::Unreadable(why) => {
            let p = unreadable(code, shown, why.as_str());
            let problems = vec![p];
            assert(problems_view(problems@) =~= seq![unreadable_problem(code@, shown@, why@)]);
            Loaded { value: None, read: true, problems }
        },
        FileOutcome::Parsed(v) => Loaded { value: Some(v), read: true, problems: Vec::new() },
        FileOutcome::Refused(p) => {
            let ghost before = p.view_problem();
            let q = p.with_detail("path", shown);
            let problems = vec![q];
            assert(problems_view(problems@) =~= seq![about_file(before, shown@)]);
            Loaded { value: None, read: true, problems }
        },
    }
}

} // verus!
