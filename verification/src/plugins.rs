//! The Plugins menu and the plugin half of the shortcut registry.
//!
//! Every registered plugin command gets an entry in the menu; the ones
//! whose requested chord is free get a place in the keyboard map. Chords are
//! requests, not claims: the editor's own map is settled first, so a plugin
//! asking for Ctrl+Z is refused rather than shadowing undo, and two plugins
//! asking for one chord are served first come, first served. A refused chord
//! costs the command only its shortcut, and the reason is recorded.

use vstd::prelude::*;
use vstd::string::*;
use crate::chords::{chord_of_spec, chord_spec, chord_text, parse_chord, mods_match_exact, Chord, ChordFaultView, Mods};
use crate::keymap::{action_id, action_index, chord_error, chord_problem, Action, ShortcutMap, ACTION_COUNT};
use crate::problem::{
    concat, debug_quoted, debug_text, details_view, problems_view, Problem, ProblemView, PLUGIN_INVALID_CHORD,
    PLUGIN_SHORTCUT_CONFLICT,
};
use crate::text::str_eq;

verus! {

/// The title of the menu plugin commands appear under.
pub const MENU_TITLE: &'static str = "Plugins";

/// What the menu shows when no plugin has contributed a command.
pub const EMPTY_LABEL: &'static str = "No plugin commands";

/// A command a plugin registered, as the host validated it.
pub struct PluginCommand {
    /// `<plugin id>/<command id>`.
    pub qualified_id: String,
    /// The plugin that contributed it.
    pub plugin: String,
    /// The name shown in the menu.
    pub title: String,
    /// The chord it asks for, as written, if any.
    pub shortcut: Option<String>,
}

/// One plugin command as the menu and the keyboard see it.
pub struct PluginMenuEntry {
    /// `<plugin id>/<command id>`: what running the command asks for.
    pub qualified_id: String,
    /// The plugin that contributed it, for grouping the menu.
    pub plugin: String,
    /// The name shown in the menu.
    pub title: String,
    /// The chord it ended up with, or `None` when it asked for none or its
    /// request was refused.
    pub chord: Option<Chord>,
}

impl PluginMenuEntry {
    /// The chord as text, or `-` when the command has none.
    pub fn chord_label(&self) -> (r: String)
        ensures
            r@ == match self.chord {
                Some(c) => chord_text(c),
                None => "-"@,
            },
    {
        match self.chord {
            Some(c) => chord_spec(c),
            None => "-".to_string(),
        }
    }
}

/// The first action of the editor's map, in its order, whose chord `c`
/// presses.
pub open spec fn editor_holder(map: Seq<Option<Chord>>, c: Chord) -> Option<Action> {
    if exists|a: Action| first_pressed(map, c, a) {
        Some(choose|a: Action| first_pressed(map, c, a))
    } else {
        None
    }
}

/// Whether `a` is the first action of `map` whose chord `c` presses.
pub open spec fn first_pressed(map: Seq<Option<Chord>>, c: Chord, a: Action) -> bool {
    &&& presses(map[action_index(a)], c)
    &&& forall|j: int| 0 <= j < action_index(a) ==> !presses(#[trigger] map[j], c)
}

/// Whether pressing `c` triggers the binding `b`.
pub open spec fn presses(b: Option<Chord>, c: Chord) -> bool {
    match b {
        Some(bound) => bound.key == c.key && mods_match_exact(c.modifiers, bound.modifiers),
        None => false,
    }
}

/// The first of `chords` that is exactly `c`.
pub open spec fn plugin_holder(chords: Seq<Option<Chord>>, c: Chord) -> Option<int> {
    if exists|i: int| 0 <= i < chords.len() && chords[i] == Some(c) {
        Some(choose|i: int| 0 <= i < chords.len() && chords[i] == Some(c) && forall|j: int| 0 <= j < i ==> #[trigger] chords[j] != Some(c))
    } else {
        None
    }
}

/// The first entry of `entries` with the id `qid`.
pub open spec fn first_with_id(entries: Seq<PluginMenuEntry>, qid: Seq<char>) -> Option<int> {
    if exists|i: int| 0 <= i < entries.len() && entries[i].qualified_id@ == qid {
        Some(choose|i: int| 0 <= i < entries.len() && entries[i].qualified_id@ == qid && forall|j: int| 0 <= j < i ==> (#[trigger] entries[j]).qualified_id@ != qid)
    } else {
        None
    }
}

/// The command the press `c` fires among `entries`: the first entry whose
/// chord it presses.
pub open spec fn claimant(entries: Seq<PluginMenuEntry>, c: Chord) -> Option<Seq<char>> {
    if exists|i: int|
        0 <= i < entries.len() && presses(entries[i].chord, c) && forall|j: int|
            0 <= j < i ==> !presses((#[trigger] entries[j]).chord, c) {
        Some(
            entries[choose|i: int|
                0 <= i < entries.len() && presses(entries[i].chord, c) && forall|j: int|
                    0 <= j < i ==> !presses((#[trigger] entries[j]).chord, c)].qualified_id@,
        )
    } else {
        None
    }
}

/// The commands the presses `p` fire among `entries`, in order.
pub open spec fn fired_ids(entries: Seq<PluginMenuEntry>, p: Seq<Chord>) -> Seq<Seq<char>>
    decreases p.len(),
{
    if p.len() == 0 {
        Seq::empty()
    } else {
        let before = fired_ids(entries, p.drop_last());
        match claimant(entries, p.last()) {
            Some(id) => before.push(id),
            None => before,
        }
    }
}

/// The problem a requested spec that is not a chord is reported as.
pub open spec fn invalid_chord_problem(qid: Seq<char>, requested: Seq<char>, f: ChordFaultView) -> ProblemView {
    ProblemView {
        code: PLUGIN_INVALID_CHORD@,
        message: "plugin command "@ + qid + " asked for "@ + debug_quoted(requested)
            + ", which is not a chord"@,
        details: seq![
            ("command"@, qid),
            ("chord"@, requested),
            ("reason"@, chord_problem(requested, f).message),
        ],
    }
}

/// The problem a chord someone already holds is reported as.
pub open spec fn conflict_problem(qid: Seq<char>, c: Chord, holder: Seq<char>) -> ProblemView {
    ProblemView {
        code: PLUGIN_SHORTCUT_CONFLICT@,
        message: "plugin command "@ + qid + " asked for "@ + chord_text(c) + ", which is already taken"@,
        details: seq![("command"@, qid), ("chord"@, chord_text(c)), ("claimed_by"@, holder)],
    }
}

/// What registering `cmd` gives it, after commands with the ids `ids`
/// were given `chords`, and what it records: the chord it asked for when
/// that is a chord nobody holds, else none and the reason.
pub open spec fn claim_of(
    chords: Seq<Option<Chord>>,
    ids: Seq<Seq<char>>,
    map: Seq<Option<Chord>>,
    cmd: PluginCommand,
) -> (Option<Chord>, Option<ProblemView>) {
    match cmd.shortcut {
        None => (None, None),
        Some(req) => match chord_of_spec(req@) {
            Err(f) => (None, Some(invalid_chord_problem(cmd.qualified_id@, req@, f))),
            Ok(c) => match editor_holder(map, c) {
                Some(a) => (None, Some(conflict_problem(cmd.qualified_id@, c, action_id(a)))),
                None => match plugin_holder(chords, c) {
                    Some(k) => (None, Some(conflict_problem(cmd.qualified_id@, c, ids[k]))),
                    None => (Some(c), None),
                },
            },
        },
    }
}

/// The chords and the problems of registering `cmds` in order against the
/// editor's map `map`.
pub open spec fn registered(cmds: Seq<PluginCommand>, map: Seq<Option<Chord>>) -> (
    Seq<Option<Chord>>,
    Seq<ProblemView>,
)
    decreases cmds.len(),
{
    if cmds.len() == 0 {
        (Seq::empty(), Seq::empty())
    } else {
        let before = registered(cmds.drop_last(), map);
        let ids = command_ids(cmds.drop_last());
        let (c, p) = claim_of(before.0, ids, map, cmds.last());
        (
            before.0.push(c),
            match p {
                Some(x) => before.1.push(x),
                None => before.1,
            },
        )
    }
}

/// The qualified ids of `cmds`.
pub open spec fn command_ids(cmds: Seq<PluginCommand>) -> Seq<Seq<char>> {
    cmds.map_values(|c: PluginCommand| c.qualified_id@)
}

/// The chords of `entries`.
pub open spec fn entry_chords(entries: Seq<PluginMenuEntry>) -> Seq<Option<Chord>> {
    entries.map_values(|e: PluginMenuEntry| e.chord)
}

/// The qualified ids of `entries`.
pub open spec fn entry_ids(entries: Seq<PluginMenuEntry>) -> Seq<Seq<char>> {
    entries.map_values(|e: PluginMenuEntry| e.qualified_id@)
}

/// The Plugins menu and the plugin commands' place in the keyboard map.
pub struct PluginMenu {
    entries: Vec<PluginMenuEntry>,
    problems: Vec<Problem>,
}

impl PluginMenu {
    /// Every entry, in registry order.
    pub closed spec fn spec_entries(&self) -> Seq<PluginMenuEntry> {
        self.entries@
    }

    /// Every chord that could not be given out, and why.
    pub closed spec fn spec_problems(&self) -> Seq<Problem> {
        self.problems@
    }

    /// A menu with no plugin commands in it.
    pub fn empty() -> (r: PluginMenu)
        ensures
            r.spec_entries().len() == 0,
            r.spec_problems().len() == 0,
    {
        PluginMenu { entries: Vec::new(), problems: Vec::new() }
    }

    /// Puts every registered command in the menu, and every command whose
    /// chord is free in the keyboard map. `shortcuts` is the editor's own
    /// map, already overlaid with the user's keymap.
    pub fn register(commands: &[PluginCommand], shortcuts: &ShortcutMap) -> (r: PluginMenu)
        ensures
            r.spec_entries().len() == commands@.len(),
            forall|i: int|
                0 <= i < commands@.len() ==> {
                    let e = #[trigger] r.spec_entries()[i];
                    &&& e.qualified_id@ == commands@[i].qualified_id@
                    &&& e.plugin@ == commands@[i].plugin@
                    &&& e.title@ == commands@[i].title@
                },
            entry_chords(r.spec_entries()) == registered(commands@, shortcuts.spec_chords()).0,
            problems_view(r.spec_problems()) == registered(commands@, shortcuts.spec_chords()).1,
    {
        proof {
            use_type_invariant(shortcuts);
        }
        let mut entries: Vec<PluginMenuEntry> = Vec::new();
        let mut problems: Vec<Problem> = Vec::new();
        let mut i: usize = 0;
        while i < commands.len()
            invariant
                i <= commands@.len(),
                shortcuts.spec_chords().len() == ACTION_COUNT,
                entries@.len() == i,
                forall|j: int|
                    0 <= j < i ==> {
                        let e = #[trigger] entries@[j];
                        &&& e.qualified_id@ == commands@[j].qualified_id@
                        &&& e.plugin@ == commands@[j].plugin@
                        &&& e.title@ == commands@[j].title@
                    },
                entry_chords(entries@) == registered(commands@.subrange(0, i as int), shortcuts.spec_chords()).0,
                problems_view(problems@) == registered(commands@.subrange(0, i as int), shortcuts.spec_chords()).1,
            decreases commands@.len() - i,
        {
            let cmd = &commands[i];
            let ghost prefix = commands@.subrange(0, i + 1 as int);
            assert(prefix.drop_last() =~= commands@.subrange(0, i as int));
            assert(entry_ids(entries@) =~= command_ids(commands@.subrange(0, i as int)));
            let (chord, problem) = claim(&entries, cmd, shortcuts);
            let ghost before_entries = entries@;
            let ghost before_problems = problems@;
            match problem {
                Some(p) => {
                    problems.push(p);
                    assert(problems_view(problems@) =~= problems_view(before_problems).push(p.view_problem()));
                },
                None => {},
            }
            entries.push(PluginMenuEntry {
                qualified_id: cmd.qualified_id.clone(),
                plugin: cmd.plugin.clone(),
                title: cmd.title.clone(),
                chord,
            });
            assert(entry_chords(entries@) =~= entry_chords(before_entries).push(chord));
            i = i + 1;
        }
        assert(commands@.subrange(0, commands@.len() as int) =~= commands@);
        PluginMenu { entries, problems }
    }

    /// Every entry, in registry order.
    pub fn entries(&self) -> (r: &[PluginMenuEntry])
        ensures
            r@ == self.spec_entries(),
    {
        self.entries.as_slice()
    }

    /// Every chord that could not be given out, and why.
    pub fn problems(&self) -> (r: &[Problem])
        ensures
            r@ == self.spec_problems(),
    {
        self.problems.as_slice()
    }

    /// Whether no plugin has contributed a command.
    pub fn is_empty(&self) -> (r: bool)
        ensures
            r == (self.spec_entries().len() == 0),
    {
        self.entries.len() == 0
    }

    /// The chord bound to `qualified_id`, if it has one: the first entry
    /// with that id decides.
    pub fn chord_for(&self, qualified_id: &str) -> (r: Option<Chord>)
        ensures
            r == match first_with_id(self.spec_entries(), qualified_id@) {
                Some(i) => self.spec_entries()[i].chord,
                None => None::<Chord>,
            },
    {
        let mut i: usize = 0;
        while i < self.entries.len()
            invariant
                i <= self.entries@.len(),
                forall|j: int| 0 <= j < i ==> (#[trigger] self.entries@[j]).qualified_id@ != qualified_id@,
            decreases self.entries@.len() - i,
        {
            if str_eq(self.entries[i].qualified_id.as_str(), qualified_id) {
                proof {
                    let s = self.entries@;
                    let w = choose|w: int| 0 <= w < s.len() && s[w].qualified_id@ == qualified_id@ && forall|j: int| 0 <= j < w ==> (#[trigger] s[j]).qualified_id@ != qualified_id@;
                    assert(w == i);
                }
                return self.entries[i].chord;
            }
            i = i + 1;
        }
        None
    }

    /// The command `key` with exactly `held` modifiers asks for, if any: the
    /// first entry whose chord it presses. Modifiers match exactly, so
    /// `Shift+Ctrl+K` never falls through to a `Ctrl+K` binding.
    pub fn command_for(&self, key: u32, held: Mods) -> (r: Option<&str>)
        ensures
            match r {
                Some(id) => exists|i: int|
                    0 <= i < self.spec_entries().len() && presses(self.spec_entries()[i].chord, Chord { modifiers: held, key })
                        && id@ == self.spec_entries()[i].qualified_id@ && forall|j: int|
                        0 <= j < i ==> !presses((#[trigger] self.spec_entries()[j]).chord, Chord { modifiers: held, key }),
                None => forall|i: int|
                    0 <= i < self.spec_entries().len() ==> !presses((#[trigger] self.spec_entries()[i]).chord, Chord { modifiers: held, key }),
            },
    {
        let mut i: usize = 0;
        while i < self.entries.len()
            invariant
                i <= self.entries@.len(),
                forall|j: int| 0 <= j < i ==> !presses((#[trigger] self.entries@[j]).chord, Chord { modifiers: held, key }),
            decreases self.entries@.len() - i,
        {
            match self.entries[i].chord {
                Some(c) => {
                    if c.key == key && held.matches_exact(c.modifiers) {
                        return Some(self.entries[i].qualified_id.as_str());
                    }
                },
                None => {},
            }
            i = i + 1;
        }
        None
    }

    /// The plugin commands a frame's key presses ask for, in order, and for
    /// each press whether it was taken (and so is not passed on).
    pub fn take_commands(&self, presses_in: &[Chord]) -> (r: (Vec<String>, Vec<bool>))
        ensures
            r.1@.len() == presses_in@.len(),
            forall|i: int|
                0 <= i < presses_in@.len() ==> (#[trigger] r.1@[i]) == exists|e: int|
                    0 <= e < self.spec_entries().len() && presses(self.spec_entries()[e].chord, presses_in@[i]),
            r.0@.map_values(|s: String| s@) == fired_ids(self.spec_entries(), presses_in@),
    {
        let mut fired: Vec<String> = Vec::new();
        let mut taken: Vec<bool> = Vec::new();
        let mut i: usize = 0;
        while i < presses_in.len()
            invariant
                i <= presses_in@.len(),
                taken@.len() == i,
                fired@.map_values(|s: String| s@) == fired_ids(
                    self.spec_entries(),
                    presses_in@.subrange(0, i as int),
                ),
                forall|k: int|
                    0 <= k < i ==> (#[trigger] taken@[k]) == exists|e: int|
                        0 <= e < self.spec_entries().len() && presses(self.spec_entries()[e].chord, presses_in@[k]),
            decreases presses_in@.len() - i,
        {
            let p = presses_in[i];
            let ghost before = taken@;
            let ghost fired_before = fired@;
            let ghost es = self.spec_entries();
            assert(presses_in@.subrange(0, i + 1 as int).drop_last() =~= presses_in@.subrange(
                0,
                i as int,
            ));
            assert(p == Chord { modifiers: p.modifiers, key: p.key });
            match self.command_for(p.key, p.modifiers) {
                Some(id) => {
                    proof {
                        let w = choose|w: int|
                            0 <= w < es.len() && presses(es[w].chord, p) && forall|j: int|
                                0 <= j < w ==> !presses((#[trigger] es[j]).chord, p);
                        let v = choose|v: int|
                            0 <= v < es.len() && presses(es[v].chord, p) && id@
                                == es[v].qualified_id@ && forall|j: int|
                                0 <= j < v ==> !presses((#[trigger] es[j]).chord, p);
                        if w < v {
                            assert(!presses(es[w].chord, p));
                        }
                        if v < w {
                            assert(!presses(es[v].chord, p));
                        }
                        assert(claimant(es, p) == Some(id@));
                    }
                    fired.push(id.to_string());
                    taken.push(true);
                    assert(fired@.map_values(|s: String| s@) =~= fired_before.map_values(
                        |s: String| s@,
                    ).push(id@));
                },
                None => {
                    assert(claimant(es, p) is None);
                    taken.push(false);
                },
            }
            assert forall|k: int| 0 <= k < i implies taken@[k] == before[k] by {}
            i = i + 1;
        }
        assert(presses_in@.subrange(0, presses_in@.len() as int) =~= presses_in@);
        (fired, taken)
    }
}

/// The chord `cmd` may have, given the entries registered before it, and
/// the problem recorded when it may have none.
fn claim(entries: &Vec<PluginMenuEntry>, cmd: &PluginCommand, shortcuts: &ShortcutMap) -> (r: (
    Option<Chord>,
    Option<Problem>,
))
    requires
        shortcuts.spec_chords().len() == ACTION_COUNT,
    ensures
        r.0 == claim_of(entry_chords(entries@), entry_ids(entries@), shortcuts.spec_chords(), *cmd).0,
        match r.1 {
            Some(p) => claim_of(entry_chords(entries@), entry_ids(entries@), shortcuts.spec_chords(), *cmd).1
                == Some(p.view_problem()),
            None => claim_of(entry_chords(entries@), entry_ids(entries@), shortcuts.spec_chords(), *cmd).1 is None,
        },
{
    let requested = match &cmd.shortcut {
        Some(s) => s.as_str(),
        None => {
            return (None, None);
        },
    };
    let qid = cmd.qualified_id.as_str();
    let chord = match parse_chord(requested) {
        Ok(c) => c,
        Err(fault) => {
            let reason = chord_error(requested, &fault);
            let head = concat("plugin command ", qid);
            let head = concat(head.as_str(), " asked for ");
            let head = concat(head.as_str(), debug_text(requested).as_str());
            let message = concat(head.as_str(), ", which is not a chord");
            let p = Problem::new(PLUGIN_INVALID_CHORD, message)
                .with_detail("command", qid)
                .with_detail("chord", requested)
                .with_detail("reason", reason.message.as_str());
            proof {
                assert(details_view(p.details@) =~= seq![
                    ("command"@, qid@),
                    ("chord"@, requested@),
                    ("reason"@, chord_problem(requested@, fault.view_fault()).message),
                ]);
            }
            return (None, Some(p));
        },
    };
    match shortcuts.action_for(chord.key, chord.modifiers) {
        Some(action) => {
            proof {
                let map = shortcuts.spec_chords();
                assert(first_pressed(map, chord, action));
                let w = choose|a: Action| first_pressed(map, chord, a);
                assert(action_index(w) == action_index(action));
            }
            let p = conflict(qid, chord, action.id());
            return (None, Some(p));
        },
        None => {
            proof {
                let map = shortcuts.spec_chords();
                assert forall|a: Action| !first_pressed(map, chord, a) by {
                    assert(0 <= action_index(a) < ACTION_COUNT);
                }
            }
        },
    }
    let ghost map = shortcuts.spec_chords();
    assert(editor_holder(map, chord) is None);
    let mut k: usize = 0;
    while k < entries.len()
        invariant
            k <= entries@.len(),
            forall|j: int| 0 <= j < k ==> (#[trigger] entries@[j]).chord != Some(chord),
            map == shortcuts.spec_chords(),
            editor_holder(map, chord) is None,
            cmd.shortcut matches Some(s) && s@ == requested@,
            chord_of_spec(requested@) == Ok::<Chord, ChordFaultView>(chord),
            qid@ == cmd.qualified_id@,
        decreases entries@.len() - k,
    {
        if entries[k].chord == Some(chord) {
            let p = conflict(qid, chord, entries[k].qualified_id.as_str());
            proof {
                let cs = entry_chords(entries@);
                assert(cs[k as int] == Some(chord));
                assert forall|j: int| 0 <= j < k implies #[trigger] cs[j] != Some(chord) by {
                    assert(cs[j] == entries@[j].chord);
                }
                let w = choose|w: int| 0 <= w < cs.len() && cs[w] == Some(chord) && forall|j: int| 0 <= j < w ==> #[trigger] cs[j] != Some(chord);
                assert(w == k);
                assert(entry_ids(entries@)[k as int] == entries@[k as int].qualified_id@);
            }
            return (None, Some(p));
        }
        k = k + 1;
    }
    proof {
        let cs = entry_chords(entries@);
        assert forall|j: int| 0 <= j < cs.len() implies cs[j] != Some(chord) by {
            assert(cs[j] == entries@[j].chord);
        }
    }
    (Some(chord), None)
}

/// The conflict problem for `qid` asking for `chord`, held by `holder`.
fn conflict(qid: &str, chord: Chord, holder: &str) -> (p: Problem)
    ensures
        p.view_problem() == conflict_problem(qid@, chord, holder@),
{
    let label = chord_spec(chord);
    let head = concat("plugin command ", qid);
    let head = concat(head.as_str(), " asked for ");
    let head = concat(head.as_str(), label.as_str());
    let message = concat(head.as_str(), ", which is already taken");
    let p = Problem::new(PLUGIN_SHORTCUT_CONFLICT, message)
        .with_detail("command", qid)
        .with_detail("chord", label.as_str())
        .with_detail("claimed_by", holder);
    assert(details_view(p.details@) =~= seq![
        ("command"@, qid@),
        ("chord"@, chord_text(chord)),
        ("claimed_by"@, holder@),
    ]);
    p
}

/// Chords are requests, not claims: no plugin command is given a chord the
/// editor's own map answers to, and no two plugin commands are given the
/// same chord, whatever they asked for and in whatever order.
pub proof fn law_plugin_chords_never_collide(cmds: Seq<PluginCommand>, map: Seq<Option<Chord>>)
    ensures
        registered(cmds, map).0.len() == cmds.len(),
        forall|i: int|
            0 <= i < cmds.len() ==> (#[trigger] registered(cmds, map).0[i] matches Some(c) ==> editor_holder(map, c) is None),
        forall|i: int, j: int|
            0 <= i < j < cmds.len() ==> (#[trigger] registered(cmds, map).0[i] matches Some(c) ==> #[trigger] registered(cmds, map).0[j] != Some(c)),
    decreases cmds.len(),
{
    if cmds.len() > 0 {
        let init = cmds.drop_last();
        law_plugin_chords_never_collide(init, map);
        let before = registered(init, map).0;
        let r = registered(cmds, map).0;
        let (c, p) = claim_of(before, command_ids(init), map, cmds.last());
        assert(r == before.push(c));
        assert forall|i: int| 0 <= i < cmds.len() implies (#[trigger] r[i] matches Some(x) ==> editor_holder(map, x) is None) by {
            if i < init.len() {
                assert(r[i] == before[i]);
            }
        }
        assert forall|i: int, j: int| 0 <= i < j < cmds.len() implies (#[trigger] r[i] matches Some(x) ==> #[trigger] r[j] != Some(x)) by {
            assert(r[i] == before[i]);
            if j < init.len() {
                assert(r[j] == before[j]);
            } else if let Some(x) = r[i] {
                if c == Some(x) {
                    assert(before[i] == Some(x));
                    assert(exists|k: int| 0 <= k < before.len() && before[k] == Some(x));
                }
            }
        }
    }
}

} // verus!
