//! The user's `keymap.toml`: a small overlay on top of the shipped
//! shortcut map.
//!
//! A file in the config directory names actions by their stable id and
//! gives each one a chord:
//!
//! ```toml
//! [bindings]
//! "editing.split_at_playhead" = "Ctrl+K"
//! "view.toggle_snapping" = "S"
//! "marking.add_marker" = "none"   # unbound
//! ```
//!
//! A keymap is configuration, never a reason to refuse to start: a missing
//! file leaves the defaults alone, and a file that is malformed or names an
//! action that does not exist loads as far as it can and reports the rest,
//! one [`Problem`] per rejected entry.

use vstd::prelude::*;
use vstd::string::*;
use crate::chords::{chord_of_spec, parse_chord, Chord, ChordFault, ChordFaultView, Mods, mods_match_exact};
use crate::problem::{
    concat, debug_quoted, debug_text, details_view, problems_view, unreadable, unreadable_problem,
    FileRead, Problem, ProblemView, KEYMAP_INVALID_CHORD, KEYMAP_PARSE, KEYMAP_UNKNOWN_ACTION,
    KEYMAP_UNREADABLE,
};
use crate::text::{ascii_lower_seq, chars_of, is_blank, lower_char, range_eq_str, str_eq, trim, trim_range};

verus! {

/// The name of the keymap file inside the config directory.
pub const KEYMAP_FILE_NAME: &'static str = "keymap.toml";

/// The environment variable that overrides where the config directory is.
pub const CONFIG_DIR_ENV: &'static str = "SUBORDINATE_CONFIG_DIR";

/// The name of the editor's own folder inside the platform's config root.
pub const APP_DIR_NAME: &'static str = "subordinate";

/// The table a keymap file puts its bindings in.
pub const BINDINGS_TABLE: &'static str = "bindings";

/// The chord value that means "this action has no chord".
pub const UNBOUND: &'static str = "none";

/// An editor action a shortcut can fire.
#[derive(Debug, Clone, Copy, PartialEq, Eq, Structural)]
pub enum Action {
    /// Undo the last edit.
    Undo,
    /// Redo the last undone edit.
    Redo,
    /// Cut the clips under the playhead.
    SplitAtPlayhead,
    /// Play forward.
    PlayForward,
    /// Turn snapping on or off.
    ToggleSnapping,
    /// Drop a marker at the playhead.
    AddMarker,
    /// Insert the bin's selection at the playhead.
    InsertAtPlayhead,
    /// Overwrite with the bin's selection at the playhead.
    OverwriteAtPlayhead,
}

/// How many actions there are.
pub const ACTION_COUNT: usize = 8;

/// An action's stable id, the name a keymap file uses.
pub open spec fn action_id(a: Action) -> Seq<char> {
    match a {
        Action::Undo => "editing.undo"@,
        Action::Redo => "editing.redo"@,
        Action::SplitAtPlayhead => "editing.split_at_playhead"@,
        Action::PlayForward => "transport.play_forward"@,
        Action::ToggleSnapping => "view.toggle_snapping"@,
        Action::AddMarker => "marking.add_marker"@,
        Action::InsertAtPlayhead => "editing.insert_at_playhead"@,
        Action::OverwriteAtPlayhead => "editing.overwrite_at_playhead"@,
    }
}

/// An action's place in [`Action::all`].
pub open spec fn action_index(a: Action) -> int {
    match a {
        Action::Undo => 0,
        Action::Redo => 1,
        Action::SplitAtPlayhead => 2,
        Action::PlayForward => 3,
        Action::ToggleSnapping => 4,
        Action::AddMarker => 5,
        Action::InsertAtPlayhead => 6,
        Action::OverwriteAtPlayhead => 7,
    }
}

/// The action at place `i` of [`Action::all`].
pub open spec fn action_at(i: int) -> Action {
    if i == 0 {
        Action::Undo
    } else if i == 1 {
        Action::Redo
    } else if i == 2 {
        Action::SplitAtPlayhead
    } else if i == 3 {
        Action::PlayForward
    } else if i == 4 {
        Action::ToggleSnapping
    } else if i == 5 {
        Action::AddMarker
    } else if i == 6 {
        Action::InsertAtPlayhead
    } else {
        Action::OverwriteAtPlayhead
    }
}

/// The first action, in [`Action::all`] order, whose id is `id`.
pub open spec fn spec_action_by_id(id: Seq<char>) -> Option<Action> {
    if id == action_id(Action::Undo) {
        Some(Action::Undo)
    } else if id == action_id(Action::Redo) {
        Some(Action::Redo)
    } else if id == action_id(Action::SplitAtPlayhead) {
        Some(Action::SplitAtPlayhead)
    } else if id == action_id(Action::PlayForward) {
        Some(Action::PlayForward)
    } else if id == action_id(Action::ToggleSnapping) {
        Some(Action::ToggleSnapping)
    } else if id == action_id(Action::AddMarker) {
        Some(Action::AddMarker)
    } else if id == action_id(Action::InsertAtPlayhead) {
        Some(Action::InsertAtPlayhead)
    } else if id == action_id(Action::OverwriteAtPlayhead) {
        Some(Action::OverwriteAtPlayhead)
    } else {
        None
    }
}

impl Action {
    /// The action's stable id.
    pub fn id(self) -> (r: &'static str)
        ensures
            r@ == action_id(self),
    {
        match self {
            Action::Undo => "editing.undo",
            Action::Redo => "editing.redo",
            Action::SplitAtPlayhead => "editing.split_at_playhead",
            Action::PlayForward => "transport.play_forward",
            Action::ToggleSnapping => "view.toggle_snapping",
            Action::AddMarker => "marking.add_marker",
            Action::InsertAtPlayhead => "editing.insert_at_playhead",
            Action::OverwriteAtPlayhead => "editing.overwrite_at_playhead",
        }
    }

    /// The action's place in [`Action::all`].
    pub fn index(self) -> (r: usize)
        ensures
            r == action_index(self),
            r < ACTION_COUNT,
    {
        match self {
            Action::Undo => 0,
            Action::Redo => 1,
            Action::SplitAtPlayhead => 2,
            Action::PlayForward => 3,
            Action::ToggleSnapping => 4,
            Action::AddMarker => 5,
            Action::InsertAtPlayhead => 6,
            Action::OverwriteAtPlayhead => 7,
        }
    }

    /// Every action, each once.
    pub fn all() -> (r: Vec<Action>)
        ensures
            r@.len() == ACTION_COUNT,
            forall|i: int| 0 <= i < ACTION_COUNT ==> #[trigger] r@[i] == action_at(i),
    {
        let r = vec![
            Action::Undo,
            Action::Redo,
            Action::SplitAtPlayhead,
            Action::PlayForward,
            Action::ToggleSnapping,
            Action::AddMarker,
            Action::InsertAtPlayhead,
            Action::OverwriteAtPlayhead,
        ];
        r
    }
}

/// Every action is at its own place in the list.
pub proof fn lemma_action_places(a: Action)
    ensures
        0 <= action_index(a) < ACTION_COUNT,
        action_at(action_index(a)) == a,
{
}

/// The action whose id is `id`, if any.
pub fn action_by_id(id: &str) -> (r: Option<Action>)
    ensures
        r == spec_action_by_id(id@),
{
    if str_eq(id, Action::Undo.id()) {
        Some(Action::Undo)
    } else if str_eq(id, Action::Redo.id()) {
        Some(Action::Redo)
    } else if str_eq(id, Action::SplitAtPlayhead.id()) {
        Some(Action::SplitAtPlayhead)
    } else if str_eq(id, Action::PlayForward.id()) {
        Some(Action::PlayForward)
    } else if str_eq(id, Action::ToggleSnapping.id()) {
        Some(Action::ToggleSnapping)
    } else if str_eq(id, Action::AddMarker.id()) {
        Some(Action::AddMarker)
    } else if str_eq(id, Action::InsertAtPlayhead.id()) {
        Some(Action::InsertAtPlayhead)
    } else if str_eq(id, Action::OverwriteAtPlayhead.id()) {
        Some(Action::OverwriteAtPlayhead)
    } else {
        None
    }
}

/// Every action's id resolves back to that action.
pub proof fn law_action_ids_resolve(a: Action)
    ensures
        spec_action_by_id(action_id(a)) == Some(a),
{
    reveal_strlit("editing.undo");
    reveal_strlit("editing.redo");
    reveal_strlit("editing.split_at_playhead");
    reveal_strlit("transport.play_forward");
    reveal_strlit("view.toggle_snapping");
    reveal_strlit("marking.add_marker");
    reveal_strlit("editing.insert_at_playhead");
    reveal_strlit("editing.overwrite_at_playhead");
    let u = "editing.undo"@;
    let r = "editing.redo"@;
    let s = "editing.split_at_playhead"@;
    let p = "transport.play_forward"@;
    let t = "view.toggle_snapping"@;
    let m = "marking.add_marker"@;
    let i = "editing.insert_at_playhead"@;
    let o = "editing.overwrite_at_playhead"@;
    assert(r != u) by {
        assert(r[8] != u[8]);
    }
    assert(s.len() == 25 && u.len() == 12 && p.len() == 22 && i.len() == 26 && o.len() == 29);
    assert(m.len() == 18 && t.len() == 20 && r.len() == 12);
    assert(s != u && s != r);
    assert(p != u && p != r && p != s);
    assert(t != u && t != r && t != s && t != p) by {
        assert(t[0] != s[0]);
    }
    assert(m != u && m != r && m != s && m != p && m != t);
    assert(i != u && i != r && i != p && i != t && i != m);
    assert(i != s) by {
        assert(i[8] != s[8]);
    }
    assert(o != u && o != r && o != s && o != p && o != t && o != m && o != i);
}

/// Which kind of system the editor runs on, as far as the config directory
/// is concerned.
#[derive(Debug, Clone, Copy, PartialEq, Eq, Structural)]
pub enum Platform {
    /// Windows: `%APPDATA%`.
    Windows,
    /// macOS: `~/Library/Application Support`.
    MacOs,
    /// Any other Unix: `$XDG_CONFIG_HOME`, or `~/.config`.
    Unix,
}

/// The environment the config directory is worked out from.
pub struct ConfigEnv {
    /// The system the editor runs on.
    pub platform: Platform,
    /// `SUBORDINATE_CONFIG_DIR`, when set.
    pub config_override: Option<String>,
    /// `APPDATA`, when set.
    pub appdata: Option<String>,
    /// `HOME`, when set.
    pub home: Option<String>,
    /// `XDG_CONFIG_HOME`, when set.
    pub xdg_config_home: Option<String>,
}

/// A variable's value, when it is set and not blank.
pub open spec fn present(v: Option<String>) -> Option<Seq<char>> {
    match v {
        Some(s) => if trim(s@).len() == 0 { None } else { Some(s@) },
        None => None,
    }
}

/// Whether `c` separates path components on the platform.
pub open spec fn is_separator(c: char, platform: Platform) -> bool {
    c == '/' || (platform == Platform::Windows && c == '\\')
}

/// The separator a path join writes on the platform.
pub open spec fn separator(platform: Platform) -> char {
    if platform == Platform::Windows {
        '\\'
    } else {
        '/'
    }
}

/// Whether `c` is an ASCII letter, as a drive letter is.
pub open spec fn is_drive_letter(c: char) -> bool {
    ('a' <= c && c <= 'z') || ('A' <= c && c <= 'Z')
}

/// Whether `base` is nothing but a Windows drive, such as `C:` or
/// `\\?\C:`: a path relative to that drive's current directory, onto which
/// a join writes no separator.
pub open spec fn drive_only(base: Seq<char>) -> bool {
    ||| (base.len() == 2 && is_drive_letter(base[0]) && base[1] == ':')
    ||| (base.len() == 6 && base[0] == '\\' && base[1] == '\\' && base[2] == '?' && base[3] == '\\'
        && is_drive_letter(base[4]) && base[5] == ':')
}

/// `base` with the relative path `part` joined on, as `PathBuf::join` does:
/// a separator goes between them unless `base` is empty, already ends with
/// one, or is a bare Windows drive.
pub open spec fn join_path(base: Seq<char>, part: Seq<char>, platform: Platform) -> Seq<char> {
    if base.len() == 0 || is_separator(base.last(), platform) || (platform == Platform::Windows
        && drive_only(base)) {
        base + part
    } else {
        base + seq![separator(platform)] + part
    }
}

/// Whether `base` is nothing but a Windows drive.
fn is_drive_only(base: &str) -> (r: bool)
    ensures
        r == drive_only(base@),
{
    let n = base.unicode_len();
    if n == 2 {
        let d = base.get_char(0);
        let colon = base.get_char(1);
        (('a' <= d && d <= 'z') || ('A' <= d && d <= 'Z')) && colon == ':'
    } else if n == 6 {
        let a = base.get_char(0);
        let b = base.get_char(1);
        let q = base.get_char(2);
        let c = base.get_char(3);
        let d = base.get_char(4);
        let colon = base.get_char(5);
        a == '\\' && b == '\\' && q == '?' && c == '\\' && (('a' <= d && d <= 'z') || ('A' <= d
            && d <= 'Z')) && colon == ':'
    } else {
        false
    }
}

/// The platform's per-user configuration root, before the app name is
/// joined.
pub open spec fn spec_platform_config_dir(env: ConfigEnv) -> Option<Seq<char>> {
    match env.platform {
        Platform::Windows => present(env.appdata),
        Platform::MacOs => match present(env.home) {
            Some(h) => Some(join_path(h, "Library/Application Support"@, env.platform)),
            None => None,
        },
        Platform::Unix => match present(env.xdg_config_home) {
            Some(x) => Some(x),
            None => match present(env.home) {
                Some(h) => Some(join_path(h, ".config"@, env.platform)),
                None => None,
            },
        },
    }
}

/// The editor's config directory: the override when it is set, otherwise
/// the platform root with the app name joined on.
pub open spec fn spec_config_dir(env: ConfigEnv) -> Option<Seq<char>> {
    match present(env.config_override) {
        Some(d) => Some(d),
        None => match spec_platform_config_dir(env) {
            Some(root) => Some(join_path(root, APP_DIR_NAME@, env.platform)),
            None => None,
        },
    }
}

/// A variable's value, when it is set and not blank.
fn present_value(v: &Option<String>) -> (r: Option<String>)
    ensures
        match r {
            Some(s) => present(*v) == Some(s@),
            None => present(*v) is None,
        },
{
    match v {
        Some(s) => if is_blank(s.as_str()) {
            None
        } else {
            Some(s.clone())
        },
        None => None,
    }
}

/// `base` with `part` joined on.
pub fn join(base: &str, part: &str, platform: Platform) -> (r: String)
    ensures
        r@ == join_path(base@, part@, platform),
{
    let n = base.unicode_len();
    let needs = if n == 0 {
        false
    } else {
        let last = base.get_char(n - 1);
        !(last == '/' || (platform == Platform::Windows && last == '\\')) && !(platform
            == Platform::Windows && is_drive_only(base))
    };
    let mut out = base.to_string();
    if needs {
        let sep = if platform == Platform::Windows { "\\" } else { "/" };
        proof {
            reveal_strlit("\\");
            reveal_strlit("/");
        }
        out.append(sep);
    }
    out.append(part);
    out
}

/// The platform's per-user configuration root.
fn platform_config_dir(env: &ConfigEnv) -> (r: Option<String>)
    ensures
        match r {
            Some(s) => spec_platform_config_dir(*env) == Some(s@),
            None => spec_platform_config_dir(*env) is None,
        },
{
    match env.platform {
        Platform::Windows => present_value(&env.appdata),
        Platform::MacOs => match present_value(&env.home) {
            Some(h) => Some(join(h.as_str(), "Library/Application Support", env.platform)),
            None => None,
        },
        Platform::Unix => match present_value(&env.xdg_config_home) {
            Some(x) => Some(x),
            None => match present_value(&env.home) {
                Some(h) => Some(join(h.as_str(), ".config", env.platform)),
                None => None,
            },
        },
    }
}

/// The editor's config directory against a given environment, or `None`
/// when the platform gives no home.
///
/// A blank variable counts as unset.
fn config_dir_from(env: &ConfigEnv) -> (r: Option<String>)
    ensures
        match r {
            Some(s) => spec_config_dir(*env) == Some(s@),
            None => spec_config_dir(*env) is None,
        },
{
    match present_value(&env.config_override) {
        Some(d) => Some(d),
        None => match platform_config_dir(env) {
            Some(root) => Some(join(root.as_str(), APP_DIR_NAME, env.platform)),
            None => None,
        },
    }
}

/// The editor's config directory, or `None` when the platform gives no home.
///
/// `SUBORDINATE_CONFIG_DIR` wins when it is set to a non-blank value.
/// Otherwise it is `$XDG_CONFIG_HOME/subordinate` (falling back to
/// `~/.config`) on Unix, `%APPDATA%\subordinate` on Windows, and
/// `~/Library/Application Support/subordinate` on macOS.
pub fn config_dir(env: &ConfigEnv) -> (r: Option<String>)
    ensures
        match r {
            Some(s) => spec_config_dir(*env) == Some(s@),
            None => spec_config_dir(*env) is None,
        },
{
    config_dir_from(env)
}

/// The path `keymap.toml` is read from, if there is a config directory.
pub fn keymap_path(env: &ConfigEnv) -> (r: Option<String>)
    ensures
        match r {
            Some(s) => match spec_config_dir(*env) {
                Some(d) => s@ == join_path(d, KEYMAP_FILE_NAME@, env.platform),
                None => false,
            },
            None => spec_config_dir(*env) is None,
        },
{
    match config_dir(env) {
        Some(dir) => Some(join(dir.as_str(), KEYMAP_FILE_NAME, env.platform)),
        None => None,
    }
}

/// The chords of a map built from `b`, in order: every action unbound, then
/// each binding given in turn.
pub open spec fn bound_by(b: Seq<(Action, Chord)>) -> Seq<Option<Chord>>
    decreases b.len(),
{
    if b.len() == 0 {
        Seq::new(ACTION_COUNT as nat, |i: int| None::<Chord>)
    } else {
        bound_by(b.drop_last()).update(action_index(b.last().0), Some(b.last().1))
    }
}

/// The bindings in force: at most one chord per action.
pub struct ShortcutMap {
    chords: Vec<Option<Chord>>,
}

impl ShortcutMap {
    /// The chord of each action, by its place in [`Action::all`].
    pub closed spec fn spec_chords(&self) -> Seq<Option<Chord>> {
        self.chords@
    }

    /// A map holds one slot for every action.
    #[verifier::type_invariant]
    pub open spec fn has_every_action(&self) -> bool {
        self.spec_chords().len() == ACTION_COUNT
    }

    /// A map with every action unbound.
    pub fn unbound() -> (r: ShortcutMap)
        ensures
            r.spec_chords().len() == ACTION_COUNT,
            forall|i: int| 0 <= i < ACTION_COUNT ==> #[trigger] r.spec_chords()[i] is None,
    {
        let mut chords: Vec<Option<Chord>> = Vec::new();
        let mut i: usize = 0;
        while i < ACTION_COUNT
            invariant
                i <= ACTION_COUNT,
                chords@.len() == i,
                forall|k: int| 0 <= k < i ==> #[trigger] chords@[k] is None,
            decreases ACTION_COUNT - i,
        {
            chords.push(None);
            i = i + 1;
        }
        ShortcutMap { chords }
    }

    /// A map holding `bindings`, a later binding of an action winning.
    pub fn from_bindings(bindings: &[(Action, Chord)]) -> (r: ShortcutMap)
        ensures
            r.spec_chords() == bound_by(bindings@),
            r.spec_chords().len() == ACTION_COUNT,
    {
        let mut map = ShortcutMap::unbound();
        assert(map.spec_chords() =~= bound_by(bindings@.subrange(0, 0)));
        let mut i: usize = 0;
        while i < bindings.len()
            invariant
                i <= bindings@.len(),
                map.spec_chords().len() == ACTION_COUNT,
                map.spec_chords() == bound_by(bindings@.subrange(0, i as int)),
            decreases bindings@.len() - i,
        {
            assert(bindings@.subrange(0, i + 1 as int).drop_last() =~= bindings@.subrange(
                0,
                i as int,
            ));
            let (action, chord) = bindings[i];
            map.rebind(action, chord);
            i = i + 1;
        }
        assert(bindings@.subrange(0, bindings@.len() as int) =~= bindings@);
        map
    }

    /// Gives `action` the chord `chord`.
    pub fn rebind(&mut self, action: Action, chord: Chord)
        ensures
            final(self).spec_chords() == old(self).spec_chords().update(
                action_index(action),
                Some(chord),
            ),
            final(self).spec_chords().len() == ACTION_COUNT,
    {
        self.put(action, Some(chord));
    }

    /// Takes `action`'s chord away.
    pub fn unbind(&mut self, action: Action)
        ensures
            final(self).spec_chords() == old(self).spec_chords().update(action_index(action), None),
            final(self).spec_chords().len() == ACTION_COUNT,
    {
        self.put(action, None);
    }

    /// Sets `action`'s slot to `slot`, leaving the others as they were.
    fn put(&mut self, action: Action, slot: Option<Chord>)
        ensures
            final(self).spec_chords() == old(self).spec_chords().update(action_index(action), slot),
            old(self).spec_chords().len() == ACTION_COUNT,
            final(self).spec_chords().len() == ACTION_COUNT,
    {
        proof {
            use_type_invariant(&*self);
        }
        let at = action.index();
        let mut chords: Vec<Option<Chord>> = Vec::new();
        let mut i: usize = 0;
        while i < self.chords.len()
            invariant
                i <= self.chords@.len(),
                self.chords@.len() == ACTION_COUNT,
                at == action_index(action),
                chords@ == self.chords@.update(at as int, slot).subrange(0, i as int),
            decreases self.chords@.len() - i,
        {
            if i == at {
                chords.push(slot);
            } else {
                chords.push(self.chords[i]);
            }
            i = i + 1;
            assert(chords@ =~= self.chords@.update(at as int, slot).subrange(0, i as int));
        }
        assert(chords@ =~= self.chords@.update(at as int, slot));
        self.chords = chords;
    }

    /// The chord `action` is bound to, if any.
    pub fn chord_for(&self, action: Action) -> (r: Option<Chord>)
        ensures
            r == self.spec_chords()[action_index(action)],
            self.spec_chords().len() == ACTION_COUNT,
    {
        proof {
            use_type_invariant(self);
        }
        let i = action.index();
        if i < self.chords.len() {
            self.chords[i]
        } else {
            None
        }
    }

    /// The first action, in [`Action::all`] order, whose chord is pressed
    /// by `key` with `held` modifiers.
    pub fn action_for(&self, key: u32, held: Mods) -> (r: Option<Action>)
        ensures
            self.spec_chords().len() == ACTION_COUNT,
            match r {
                Some(a) => (match self.spec_chords()[action_index(a)] {
                    Some(c) => c.key == key && mods_match_exact(held, c.modifiers),
                    None => false,
                }) && forall|i: int|
                    0 <= i < action_index(a) ==> match #[trigger] self.spec_chords()[i] {
                        Some(c) => !(c.key == key && mods_match_exact(held, c.modifiers)),
                        None => true,
                    },
                None => forall|i: int|
                    0 <= i < ACTION_COUNT ==> match #[trigger] self.spec_chords()[i] {
                        Some(c) => !(c.key == key && mods_match_exact(held, c.modifiers)),
                        None => true,
                    },
            },
    {
        proof {
            use_type_invariant(self);
        }
        let all = Action::all();
        let mut i: usize = 0;
        while i < ACTION_COUNT
            invariant
                i <= ACTION_COUNT,
                self.chords@.len() == ACTION_COUNT,
                all@.len() == ACTION_COUNT,
                forall|k: int| 0 <= k < ACTION_COUNT ==> #[trigger] all@[k] == action_at(k),
                forall|k: int|
                    0 <= k < i ==> match #[trigger] self.chords@[k] {
                        Some(c) => !(c.key == key && mods_match_exact(held, c.modifiers)),
                        None => true,
                    },
            decreases ACTION_COUNT - i,
        {
            match self.chords[i] {
                Some(c) => {
                    if c.key == key && held.matches_exact(c.modifiers) {
                        let a = all[i];
                        assert(action_index(a) == i);
                        return Some(a);
                    }
                },
                None => {},
            }
            i = i + 1;
        }
        None
    }
}

/// What the `toml` crate reads the text `text` as: the parser's message
/// when it is not TOML, else the top-level table with each value a table of
/// entries or named by its TOML type, and each entry a string or named by
/// its type.
pub uninterp spec fn toml_keymap(text: Seq<char>) -> KeymapDocument;

/// Reads a keymap file's text with `toml::Table`'s `FromStr`.
///
/// Trusted: the result is what `toml` parses `text` as, which depends on
/// the text alone; tables keep the order `toml`'s map iterates in, and a
/// value that is not a table or a string is named by `Value::type_str`.
#[verifier::external_body]
fn read_toml(text: &str) -> (r: KeymapDocument)
    ensures
        r == toml_keymap(text@),
{
    match text.parse::<toml::Table>() {
        Err(error) => KeymapDocument::Malformed(error.to_string()),
        Ok(top) => KeymapDocument::Parsed(top.into_iter().map(|(key, value)| (key, match value {
            toml::Value::Table(entries) => TopValue::Table(entries.into_iter().map(|(id, v)| (id, match v {
                toml::Value::String(s) => EntryValue::Text(s),
                other => EntryValue::Other(other.type_str().to_string()),
            })).collect()),
            other => TopValue::Other(other.type_str().to_string()),
        })).collect()),
    }
}

/// The value of one `id = chord` entry: a string, or something else named
/// by its TOML type.
pub enum EntryValue {
    /// A string.
    Text(String),
    /// Any other value, by its type name (`integer`, `table`, ...).
    Other(String),
}

/// A top-level value of a keymap file: a table of entries, or something
/// else named by its type.
pub enum TopValue {
    /// A table, its entries in the order the file parser gives them.
    Table(Vec<(String, EntryValue)>),
    /// Any other value, by its type name.
    Other(String),
}

/// What reading a keymap file's text as TOML gave.
pub enum KeymapDocument {
    /// The text is not TOML; the parser's message.
    Malformed(String),
    /// The top-level table.
    Parsed(Vec<(String, TopValue)>),
}

/// [`EntryValue`] as character sequences.
pub enum EntryValueView {
    /// A string.
    Text(Seq<char>),
    /// Another type, by name.
    Other(Seq<char>),
}

impl EntryValue {
    /// The value as character sequences.
    pub open spec fn view_value(&self) -> EntryValueView {
        match self {
            EntryValue::Text(s) => EntryValueView::Text(s@),
            EntryValue::Other(t) => EntryValueView::Other(t@),
        }
    }
}

/// The entries of a table as character sequences.
pub open spec fn entries_view(e: Seq<(String, EntryValue)>) -> Seq<(Seq<char>, EntryValueView)> {
    e.map_values(|p: (String, EntryValue)| (p.0@, p.1.view_value()))
}

/// What one entry does to the map.
pub enum EntryOutcome {
    /// The action loses its chord.
    Unbind(Action),
    /// The action gets this chord.
    Rebind(Action, Chord),
    /// The entry is rejected with this problem.
    Reject(ProblemView),
}

/// Whether a chord value means "unbound": blank, or `none` in any case.
pub open spec fn unbinds(s: Seq<char>) -> bool {
    trim(s).len() == 0 || ascii_lower_seq(trim(s)) == UNBOUND@
}

/// The reason a chord fault gives.
pub open spec fn fault_reason(f: ChordFaultView) -> Seq<char> {
    match f {
        ChordFaultView::NoKey => "it names no key"@,
        ChordFaultView::NotAModifier(w) => debug_quoted(w) + " is not a modifier"@,
        ChordFaultView::NotAKey(w) => debug_quoted(w) + " is not a key"@,
    }
}

/// The problem a chord spec that does not parse is reported as.
pub open spec fn chord_problem(spec: Seq<char>, f: ChordFaultView) -> ProblemView {
    ProblemView {
        code: KEYMAP_INVALID_CHORD@,
        message: debug_quoted(spec) + " is not a keyboard chord: "@ + fault_reason(f),
        details: seq![("chord"@, spec)],
    }
}

/// What the entry `id = value` does.
pub open spec fn entry_outcome(id: Seq<char>, value: EntryValueView) -> EntryOutcome {
    match spec_action_by_id(id) {
        None => EntryOutcome::Reject(
            ProblemView {
                code: KEYMAP_UNKNOWN_ACTION@,
                message: debug_quoted(id) + " is not an action this editor has"@,
                details: seq![("action"@, id)],
            },
        ),
        Some(a) => match value {
            EntryValueView::Other(t) => EntryOutcome::Reject(
                ProblemView {
                    code: KEYMAP_PARSE@,
                    message: "the chord for "@ + debug_quoted(id) + " must be a string"@,
                    details: seq![("action"@, id), ("found"@, t)],
                },
            ),
            EntryValueView::Text(s) => if unbinds(s) {
                EntryOutcome::Unbind(a)
            } else {
                match chord_of_spec(s) {
                    Ok(c) => EntryOutcome::Rebind(a, c),
                    Err(f) => {
                        let p = chord_problem(s, f);
                        EntryOutcome::Reject(
                            ProblemView {
                                code: p.code,
                                message: p.message,
                                details: p.details.push(("action"@, id)),
                            },
                        )
                    },
                }
            },
        },
    }
}

/// The map and problems after the first `n` entries are applied to `map`.
pub open spec fn apply_entries(
    map: Seq<Option<Chord>>,
    entries: Seq<(Seq<char>, EntryValueView)>,
    n: nat,
) -> (Seq<Option<Chord>>, Seq<ProblemView>)
    decreases n,
{
    if n == 0 {
        (map, Seq::empty())
    } else {
        let (m, p) = apply_entries(map, entries, (n - 1) as nat);
        match entry_outcome(entries[n - 1].0, entries[n - 1].1) {
            EntryOutcome::Unbind(a) => (m.update(action_index(a), None), p),
            EntryOutcome::Rebind(a, c) => (m.update(action_index(a), Some(c)), p),
            EntryOutcome::Reject(problem) => (m, p.push(problem)),
        }
    }
}

/// A keymap file overrides only the actions it names: an action no entry
/// names keeps the chord it had, whatever else the file holds.
pub proof fn law_unnamed_actions_keep_their_chords(
    map: Seq<Option<Chord>>,
    entries: Seq<(Seq<char>, EntryValueView)>,
    n: nat,
    a: Action,
)
    requires
        map.len() == ACTION_COUNT,
        n <= entries.len(),
        forall|i: int| 0 <= i < n ==> (#[trigger] entries[i]).0 != action_id(a),
    ensures
        apply_entries(map, entries, n).0[action_index(a)] == map[action_index(a)],
        apply_entries(map, entries, n).0.len() == map.len(),
    decreases n,
{
    if n > 0 {
        law_unnamed_actions_keep_their_chords(map, entries, (n - 1) as nat, a);
        let id = entries[n - 1].0;
        assert(id != action_id(a));
        match spec_action_by_id(id) {
            Some(b) => {
                lemma_action_by_id_names(id);
                assert(action_id(b) == id);
                assert(0 <= action_index(b) < ACTION_COUNT);
                assert(0 <= action_index(a) < ACTION_COUNT);
                if action_index(b) == action_index(a) {
                    assert(b == a);
                }
            },
            None => {},
        }
    }
}

/// Entries `lo` to `n` that do not name `a` leave its chord as it was.
proof fn lemma_untouched_between(
    map: Seq<Option<Chord>>,
    entries: Seq<(Seq<char>, EntryValueView)>,
    lo: nat,
    n: nat,
    a: Action,
)
    requires
        map.len() == ACTION_COUNT,
        lo <= n <= entries.len(),
        forall|j: int| lo <= j < n ==> (#[trigger] entries[j]).0 != action_id(a),
    ensures
        apply_entries(map, entries, n).0[action_index(a)] == apply_entries(map, entries, lo).0[action_index(a)],
        apply_entries(map, entries, n).0.len() == map.len(),
    decreases n,
{
    lemma_apply_keeps_length(map, entries, n);
    if n > lo {
        lemma_untouched_between(map, entries, lo, (n - 1) as nat, a);
        let id = entries[n - 1].0;
        match spec_action_by_id(id) {
            Some(b) => {
                lemma_action_by_id_names(id);
                assert(0 <= action_index(b) < ACTION_COUNT);
                assert(0 <= action_index(a) < ACTION_COUNT);
                if action_index(b) == action_index(a) {
                    assert(b == a);
                }
            },
            None => {},
        }
    }
}

proof fn lemma_apply_keeps_length(
    map: Seq<Option<Chord>>,
    entries: Seq<(Seq<char>, EntryValueView)>,
    n: nat,
)
    requires
        map.len() == ACTION_COUNT,
        n <= entries.len(),
    ensures
        apply_entries(map, entries, n).0.len() == map.len(),
    decreases n,
{
    if n > 0 {
        lemma_apply_keeps_length(map, entries, (n - 1) as nat);
        match spec_action_by_id(entries[n - 1].0) {
            Some(b) => {
                assert(0 <= action_index(b) < ACTION_COUNT);
            },
            None => {},
        }
    }
}

/// The last entry of a keymap file that names an action decides its
/// chord: a chord it gives is the one the action gets, `none` leaves it
/// unbound, and a rejected one leaves whatever the entries before it made.
pub proof fn law_the_last_entry_for_an_action_decides(
    map: Seq<Option<Chord>>,
    entries: Seq<(Seq<char>, EntryValueView)>,
    n: nat,
    a: Action,
    i: nat,
)
    requires
        map.len() == ACTION_COUNT,
        i < n <= entries.len(),
        entries[i as int].0 == action_id(a),
        forall|j: int| i < j < n ==> (#[trigger] entries[j]).0 != action_id(a),
    ensures
        apply_entries(map, entries, n).0[action_index(a)] == match entry_outcome(
            entries[i as int].0,
            entries[i as int].1,
        ) {
            EntryOutcome::Unbind(_) => None,
            EntryOutcome::Rebind(_, c) => Some(c),
            EntryOutcome::Reject(_) => apply_entries(map, entries, i).0[action_index(a)],
        },
{
    law_action_ids_resolve(a);
    lemma_apply_keeps_length(map, entries, i);
    lemma_untouched_between(map, entries, i + 1, n, a);
}

/// The problems of the rejected entries among the first `n`, in file
/// order.
pub open spec fn rejections(entries: Seq<(Seq<char>, EntryValueView)>, n: nat) -> Seq<ProblemView>
    decreases n,
{
    if n == 0 {
        Seq::empty()
    } else {
        let before = rejections(entries, (n - 1) as nat);
        match entry_outcome(entries[n - 1].0, entries[n - 1].1) {
            EntryOutcome::Reject(p) => before.push(p),
            _ => before,
        }
    }
}

/// A keymap file's problems are one per rejected entry, in file order,
/// whatever the map it was applied to.
pub proof fn law_one_problem_per_rejected_entry(
    map: Seq<Option<Chord>>,
    entries: Seq<(Seq<char>, EntryValueView)>,
    n: nat,
)
    requires
        n <= entries.len(),
    ensures
        apply_entries(map, entries, n).1 == rejections(entries, n),
    decreases n,
{
    if n > 0 {
        law_one_problem_per_rejected_entry(map, entries, (n - 1) as nat);
    }
}

proof fn lemma_action_by_id_names(id: Seq<char>)
    ensures
        spec_action_by_id(id) matches Some(b) ==> action_id(b) == id,
{
}

/// A keymap after loading: the map in force, and everything wrong with the
/// file that produced it.
///
/// The map is always usable. `problems` is empty when the file was absent or
/// wholly valid; otherwise it holds one problem per rejected entry, and the
/// entries that were fine are still applied.
pub struct LoadedKeymap {
    /// The bindings the editor should run with.
    pub map: ShortcutMap,
    /// The file this came from, when one was read.
    pub source: Option<String>,
    /// One problem per rejected entry, in file order.
    pub problems: Vec<Problem>,
}

/// The map and problems loading `doc` over `base` gives.
pub open spec fn loaded_from_document(base: Seq<Option<Chord>>, doc: KeymapDocument) -> (
    Seq<Option<Chord>>,
    Seq<ProblemView>,
) {
    match doc {
        KeymapDocument::Malformed(e) => (
            base,
            seq![
                ProblemView {
                    code: KEYMAP_PARSE@,
                    message: "keymap.toml is not valid TOML: "@ + e@,
                    details: seq![("parse_error"@, e@)],
                },
            ],
        ),
        KeymapDocument::Parsed(top) => {
            let k = first_key(top@, BINDINGS_TABLE@);
            if k < 0 {
                (base, Seq::empty())
            } else {
                match top@[k].1 {
                    TopValue::Other(t) => (
                        base,
                        seq![
                            ProblemView {
                                code: KEYMAP_PARSE@,
                                message: "[bindings] must be a table of action id to chord"@,
                                details: seq![("found"@, t@)],
                            },
                        ],
                    ),
                    TopValue::Table(entries) => apply_entries(
                        base,
                        entries_view(entries@),
                        entries@.len(),
                    ),
                }
            }
        },
    }
}

/// A keymap file never costs the editor its map: one that is not TOML, or
/// whose `bindings` is not a table, leaves every chord as it was and reports
/// one `ui.keymap_parse` problem, and one with no `bindings` at all changes
/// nothing and reports nothing.
pub proof fn law_a_file_that_binds_nothing_changes_nothing(base: Seq<Option<Chord>>, doc: KeymapDocument)
    ensures
        ({
            let (map, problems) = loaded_from_document(base, doc);
            match doc {
                KeymapDocument::Malformed(_) => map == base && problems.len() == 1
                    && problems[0].code == KEYMAP_PARSE@,
                KeymapDocument::Parsed(top) => {
                    let k = first_key(top@, BINDINGS_TABLE@);
                    &&& k < 0 ==> map == base && problems.len() == 0
                    &&& (k >= 0 && top@[k].1 is Other) ==> map == base && problems.len() == 1
                        && problems[0].code == KEYMAP_PARSE@
                },
            }
        }),
{
}

/// The index of the first entry named `key`, or -1.
pub open spec fn first_key(top: Seq<(String, TopValue)>, key: Seq<char>) -> int
    decreases top.len(),
{
    if top.len() == 0 {
        -1
    } else if top[0].0@ == key {
        0
    } else {
        let k = first_key(top.drop_first(), key);
        if k < 0 {
            -1
        } else {
            k + 1
        }
    }
}

/// The index of the first entry named `key`.
fn find_key(top: &Vec<(String, TopValue)>, key: &str) -> (r: Option<usize>)
    ensures
        match r {
            Some(k) => k < top@.len() && first_key(top@, key@) == k,
            None => first_key(top@, key@) == -1,
        },
{
    let mut i: usize = 0;
    while i < top.len()
        invariant
            i <= top@.len(),
            forall|j: int| 0 <= j < i ==> #[trigger] top@[j].0@ != key@,
        decreases top@.len() - i,
    {
        if str_eq(top[i].0.as_str(), key) {
            proof {
                lemma_first_key_at(top@, key@, i as int);
            }
            return Some(i);
        }
        i = i + 1;
    }
    proof {
        lemma_first_key_absent(top@, key@);
    }
    None
}

proof fn lemma_first_key_at(top: Seq<(String, TopValue)>, key: Seq<char>, i: int)
    requires
        0 <= i < top.len(),
        top[i].0@ == key,
        forall|j: int| 0 <= j < i ==> #[trigger] top[j].0@ != key,
    ensures
        first_key(top, key) == i,
    decreases i,
{
    if i > 0 {
        let rest = top.drop_first();
        assert forall|j: int| 0 <= j < i - 1 implies #[trigger] rest[j].0@ != key by {
            assert(rest[j] == top[j + 1]);
        }
        lemma_first_key_at(rest, key, i - 1);
    }
}

proof fn lemma_first_key_absent(top: Seq<(String, TopValue)>, key: Seq<char>)
    requires
        forall|j: int| 0 <= j < top.len() ==> #[trigger] top[j].0@ != key,
    ensures
        first_key(top, key) == -1,
    decreases top.len(),
{
    if top.len() > 0 {
        let rest = top.drop_first();
        assert forall|j: int| 0 <= j < rest.len() implies #[trigger] rest[j].0@ != key by {
            assert(rest[j] == top[j + 1]);
        }
        lemma_first_key_absent(rest, key);
    }
}

/// Whether a chord value means "unbound".
fn is_unbound_value(s: &str) -> (r: bool)
    ensures
        r == unbinds(s@),
{
    let v = chars_of(s);
    let (a, b) = trim_range(v.as_slice(), 0, v.len());
    assert(v@.subrange(0, v@.len() as int) =~= s@);
    if a == b {
        return true;
    }
    let mut lower: Vec<char> = Vec::new();
    let mut i = a;
    while i < b
        invariant
            a <= i <= b <= v@.len(),
            lower@ == ascii_lower_seq(v@.subrange(a as int, i as int)),
        decreases b - i,
    {
        lower.push(lower_char(v[i]));
        i = i + 1;
        assert(lower@ =~= ascii_lower_seq(v@.subrange(a as int, i as int)));
    }
    let n = lower.len();
    assert(lower@.subrange(0, n as int) =~= lower@);
    range_eq_str(lower.as_slice(), 0, n, UNBOUND)
}

/// The problem a chord spec that does not parse is reported as.
pub fn chord_error(spec: &str, fault: &ChordFault) -> (r: Problem)
    ensures
        r.view_problem() == chord_problem(spec@, fault.view_fault()),
{
    let reason = match fault {
        ChordFault::NoKey => "it names no key".to_string(),
        ChordFault::NotAModifier(w) => concat(debug_text(w.as_str()).as_str(), " is not a modifier"),
        ChordFault::NotAKey(w) => concat(debug_text(w.as_str()).as_str(), " is not a key"),
    };
    let head = concat(debug_text(spec).as_str(), " is not a keyboard chord: ");
    let message = concat(head.as_str(), reason.as_str());
    let p = Problem::new(KEYMAP_INVALID_CHORD, message).with_detail("chord", spec);
    assert(details_view(p.details@) =~= seq![("chord"@, spec@)]);
    p
}

impl LoadedKeymap {
    /// `base` with no file behind it.
    pub fn defaults(base: ShortcutMap) -> (r: LoadedKeymap)
        ensures
            r.map.spec_chords() == base.spec_chords(),
            r.source is None,
            r.problems@.len() == 0,
    {
        LoadedKeymap { map: base, source: None, problems: Vec::new() }
    }

    /// Whether anything in the file was rejected.
    pub fn is_clean(&self) -> (r: bool)
        ensures
            r == (self.problems@.len() == 0),
    {
        self.problems.len() == 0
    }

    /// Applies one `id = chord` entry to the map.
    fn apply_entry(&mut self, id: &str, value: &EntryValue)
        requires
            old(self).map.spec_chords().len() == ACTION_COUNT,
        ensures
            final(self).source == old(self).source,
            final(self).map.spec_chords().len() == ACTION_COUNT,
            ({
                let prev = (old(self).map.spec_chords(), problems_view(old(self).problems@));
                match entry_outcome(id@, value.view_value()) {
                    EntryOutcome::Unbind(a) => final(self).map.spec_chords() == prev.0.update(
                        action_index(a),
                        None,
                    ) && problems_view(final(self).problems@) == prev.1,
                    EntryOutcome::Rebind(a, c) => final(self).map.spec_chords() == prev.0.update(
                        action_index(a),
                        Some(c),
                    ) && problems_view(final(self).problems@) == prev.1,
                    EntryOutcome::Reject(p) => final(self).map.spec_chords() == prev.0
                        && problems_view(final(self).problems@) == prev.1.push(p),
                }
            }),
    {
        let ghost before = self.problems@;
        let action = match action_by_id(id) {
            Some(a) => a,
            None => {
                let message = concat(debug_text(id).as_str(), " is not an action this editor has");
                let p = Problem::new(KEYMAP_UNKNOWN_ACTION, message).with_detail("action", id);
                assert(details_view(p.details@) =~= seq![("action"@, id@)]);
                self.problems.push(p);
                assert(problems_view(self.problems@) =~= problems_view(before).push(
                    p.view_problem(),
                ));
                return;
            },
        };
        match value {
            EntryValue::Other(t) => {
                let head = concat("the chord for ", debug_text(id).as_str());
                let message = concat(head.as_str(), " must be a string");
                let p = Problem::new(KEYMAP_PARSE, message).with_detail("action", id).with_detail(
                    "found",
                    t.as_str(),
                );
                assert(details_view(p.details@) =~= seq![("action"@, id@), ("found"@, t@)]);
                self.problems.push(p);
                assert(problems_view(self.problems@) =~= problems_view(before).push(
                    p.view_problem(),
                ));
            },
            EntryValue::Text(spec) => {
                if is_unbound_value(spec.as_str()) {
                    self.map.unbind(action);
                    return;
                }
                match parse_chord(spec.as_str()) {
                    Ok(chord) => {
                        self.map.rebind(action, chord);
                    },
                    Err(fault) => {
                        let p = chord_error(spec.as_str(), &fault).with_detail("action", id);
                        self.problems.push(p);
                        assert(problems_view(self.problems@) =~= problems_view(before).push(
                            p.view_problem(),
                        ));
                    },
                }
            },
        }
    }

    /// `base` with the overrides of the keymap file shown as `shown`
    /// applied, given what reading it gave: a missing file is not a problem;
    /// a file that cannot be read is one problem, and `base` is used.
    pub fn from_read(base: ShortcutMap, shown: &str, read: FileRead) -> (r: LoadedKeymap)
        ensures
            match read {
                FileRead::Missing => {
                    &&& r.map.spec_chords() == base.spec_chords()
                    &&& r.source is None
                    &&& r.problems@.len() == 0
                },
                FileRead::Unreadable(why) => {
                    &&& r.map.spec_chords() == base.spec_chords()
                    &&& r.source matches Some(s) && s@ == shown@
                    &&& problems_view(r.problems@) == seq![
                        unreadable_problem(KEYMAP_UNREADABLE@, shown@, why@),
                    ]
                },
                FileRead::Text(text) => {
                    &&& r.source matches Some(s) && s@ == shown@
                    &&& (r.map.spec_chords(), problems_view(r.problems@)) == loaded_from_document(
                        base.spec_chords(),
                        toml_keymap(text@),
                    )
                },
            },
    {
        match read {
            FileRead::Missing => LoadedKeymap::defaults(base),
            FileRead::Unreadable(why) => {
                let mut loaded = LoadedKeymap::defaults(base);
                loaded.source = Some(shown.to_string());
                let p = unreadable(KEYMAP_UNREADABLE, shown, why.as_str());
                loaded.problems.push(p);
                assert(problems_view(loaded.problems@) =~= seq![
                    unreadable_problem(KEYMAP_UNREADABLE@, shown@, why@),
                ]);
                loaded
            },
            FileRead::Text(text) => {
                let mut loaded = LoadedKeymap::from_toml(base, text.as_str());
                loaded.source = Some(shown.to_string());
                loaded
            },
        }
    }

    /// `base` with the overrides in the text of a `keymap.toml` applied:
    /// the text is read as TOML, then [`LoadedKeymap::from_document`] applies
    /// what it holds.
    pub fn from_toml(base: ShortcutMap, text: &str) -> (r: LoadedKeymap)
        ensures
            r.map.spec_chords().len() == ACTION_COUNT,
            r.source is None,
            (r.map.spec_chords(), problems_view(r.problems@)) == loaded_from_document(
                base.spec_chords(),
                toml_keymap(text@),
            ),
    {
        let doc = read_toml(text);
        LoadedKeymap::from_document(base, &doc)
    }

    /// `base` with the overrides in `doc` applied.
    ///
    /// Malformed TOML is one problem and leaves `base` untouched; a bad entry
    /// inside otherwise valid TOML is one problem and leaves the other
    /// entries applied.
    pub fn from_document(base: ShortcutMap, doc: &KeymapDocument) -> (r: LoadedKeymap)
        ensures
            r.map.spec_chords().len() == ACTION_COUNT,
            r.source is None,
            (r.map.spec_chords(), problems_view(r.problems@)) == loaded_from_document(
                base.spec_chords(),
                *doc,
            ),
    {
        proof {
            use_type_invariant(&base);
        }
        let ghost base_chords = base.spec_chords();
        let mut loaded = LoadedKeymap::defaults(base);
        match doc {
            KeymapDocument::Malformed(error) => {
                let message = concat("keymap.toml is not valid TOML: ", error.as_str());
                let p = Problem::new(KEYMAP_PARSE, message).with_detail(
                    "parse_error",
                    error.as_str(),
                );
                assert(details_view(p.details@) =~= seq![("parse_error"@, error@)]);
                loaded.problems.push(p);
                assert(problems_view(loaded.problems@) =~= seq![p.view_problem()]);
                loaded
            },
            KeymapDocument::Parsed(top) => {
                assert(problems_view(loaded.problems@) =~= Seq::<ProblemView>::empty());
                let k = match find_key(top, BINDINGS_TABLE) {
                    Some(k) => k,
                    None => {
                        return loaded;
                    },
                };
                match &top[k].1 {
                    TopValue::Other(t) => {
                        let p = Problem::new(
                            KEYMAP_PARSE,
                            "[bindings] must be a table of action id to chord".to_string(),
                        ).with_detail("found", t.as_str());
                        assert(details_view(p.details@) =~= seq![("found"@, t@)]);
                        loaded.problems.push(p);
                        assert(problems_view(loaded.problems@) =~= seq![p.view_problem()]);
                        loaded
                    },
                    TopValue::Table(entries) => {
                        let ghost ev = entries_view(entries@);
                        let mut i: usize = 0;
                        while i < entries.len()
                            invariant
                                i <= entries@.len(),
                                ev == entries_view(entries@),
                                loaded.source is None,
                                loaded.map.spec_chords().len() == ACTION_COUNT,
                                (loaded.map.spec_chords(), problems_view(loaded.problems@))
                                    == apply_entries(base_chords, ev, i as nat),
                            decreases entries@.len() - i,
                        {
                            let (id, value) = &entries[i];
                            loaded.apply_entry(id.as_str(), value);
                            i = i + 1;
                        }
                        loaded
                    },
                }
            },
        }
    }
}

} // verus!
