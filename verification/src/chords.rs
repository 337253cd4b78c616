//! Keyboard chords: the modifiers and key a shortcut is made of, and the
//! `Ctrl+Shift+Z` spelling a keymap file and a plugin write them in.
//!
//! Key names are egui's, so `Left`, `Space`, `Comma` and `,` all work; a key
//! is held as the number egui gives it.

use vstd::prelude::*;
use vstd::string::*;
use crate::text::{
    ascii_lower_seq, chars_of, is_ws, lower_char, range_eq_str, string_of, trim, trim_end, trim_range,
    trim_start, trimmed,
};

verus! {

/// The key egui's `Key::from_name` reads `name` as, by its number.
pub uninterp spec fn egui_key_named(name: Seq<char>) -> Option<u32>;

/// The name egui's `Key::name` gives the key with number `key`, when there
/// is such a key.
pub uninterp spec fn egui_key_name(key: u32) -> Option<Seq<char>>;

/// A key name egui writes: not empty, with no whitespace and no `+`.
pub open spec fn plain_name(n: Seq<char>) -> bool {
    &&& n.len() > 0
    &&& forall|i: int| 0 <= i < n.len() ==> !is_ws(#[trigger] n[i]) && n[i] != '+'
}

/// Whether egui names the key with number `k`, with a plain name that
/// `Key::from_name` reads back as the same key.
pub open spec fn key_round_trips(k: u32) -> bool {
    match egui_key_name(k) {
        Some(n) => egui_key_named(n) == Some(k) && plain_name(n),
        None => false,
    }
}

/// `egui::Key::from_name`, with the key given as its number.
///
/// Trusted: the result is whatever egui's table maps `name` to; every key it
/// finds is one of `Key::ALL`, so it has a name of its own, and egui's table
/// and its own test show that name is plain and reads back as the same key.
#[verifier::external_body]
fn key_from_name(name: &str) -> (r: Option<u32>)
    ensures
        r == egui_key_named(name@),
        r matches Some(k) ==> key_round_trips(k),
{
    eframe::egui::Key::from_name(name).map(|key| key as u32)
}

/// `egui::Key::name` of the key with number `key`.
///
/// Trusted: the result is egui's name for that key; egui's own
/// documentation and table show that `from_name` reads every such name back
/// as the same key, and the table holds no name with whitespace or a `+`.
#[verifier::external_body]
fn key_name(key: u32) -> (r: Option<String>)
    ensures
        match r {
            Some(n) => egui_key_name(key) == Some(n@) && egui_key_named(n@) == Some(key)
                && plain_name(n@),
            None => egui_key_name(key) is None,
        },
{
    eframe::egui::Key::ALL.iter().find(|k| **k as u32 == key).map(|k| k.name().to_string())
}

/// The modifier keys held with a chord, as egui records them.
#[derive(Debug, Clone, Copy, PartialEq, Eq, Structural)]
pub struct Mods {
    /// Alt, or Option on a Mac.
    pub alt: bool,
    /// Control.
    pub ctrl: bool,
    /// Shift.
    pub shift: bool,
    /// The Mac command key.
    pub mac_cmd: bool,
    /// Ctrl off macOS and Cmd on it.
    pub command: bool,
}

/// No modifier.
pub open spec fn mods_none() -> Mods {
    Mods { alt: false, ctrl: false, shift: false, mac_cmd: false, command: false }
}

/// Ctrl off macOS, Cmd on it.
pub open spec fn mods_command() -> Mods {
    Mods { command: true, ..mods_none() }
}

/// Shift.
pub open spec fn mods_shift() -> Mods {
    Mods { shift: true, ..mods_none() }
}

/// Alt.
pub open spec fn mods_alt() -> Mods {
    Mods { alt: true, ..mods_none() }
}

/// Both sets of modifiers together, as `Modifiers::plus` combines them.
pub open spec fn mods_plus(a: Mods, b: Mods) -> Mods {
    Mods {
        alt: a.alt || b.alt,
        ctrl: a.ctrl || b.ctrl,
        shift: a.shift || b.shift,
        mac_cmd: a.mac_cmd || b.mac_cmd,
        command: a.command || b.command,
    }
}

/// Whether the modifiers held (`held`) press a chord written with
/// `pattern`, as `Modifiers::matches_exact` decides.
pub open spec fn mods_match_exact(held: Mods, pattern: Mods) -> bool {
    &&& pattern.alt == held.alt
    &&& pattern.shift == held.shift
    &&& if pattern.mac_cmd {
        held.mac_cmd && pattern.ctrl == held.ctrl
    } else if !pattern.ctrl && !pattern.command {
        !held.ctrl && !held.command
    } else {
        (!pattern.ctrl || held.ctrl) && (!pattern.command || held.command)
    }
}

impl Mods {
    /// No modifier.
    pub fn empty() -> (r: Mods)
        ensures
            r == mods_none(),
    {
        Mods { alt: false, ctrl: false, shift: false, mac_cmd: false, command: false }
    }

    /// Ctrl off macOS, Cmd on it.
    pub fn command_key() -> (r: Mods)
        ensures
            r == mods_command(),
    {
        Mods { alt: false, ctrl: false, shift: false, mac_cmd: false, command: true }
    }

    /// Shift.
    pub fn shift_key() -> (r: Mods)
        ensures
            r == mods_shift(),
    {
        Mods { alt: false, ctrl: false, shift: true, mac_cmd: false, command: false }
    }

    /// Alt.
    pub fn alt_key() -> (r: Mods)
        ensures
            r == mods_alt(),
    {
        Mods { alt: true, ctrl: false, shift: false, mac_cmd: false, command: false }
    }

    /// Both sets of modifiers together.
    pub fn plus(self, other: Mods) -> (r: Mods)
        ensures
            r == mods_plus(self, other),
    {
        Mods {
            alt: self.alt || other.alt,
            ctrl: self.ctrl || other.ctrl,
            shift: self.shift || other.shift,
            mac_cmd: self.mac_cmd || other.mac_cmd,
            command: self.command || other.command,
        }
    }

    /// Whether these held modifiers press a chord written with `pattern`.
    pub fn matches_exact(&self, pattern: Mods) -> (r: bool)
        ensures
            r == mods_match_exact(*self, pattern),
    {
        if pattern.alt != self.alt || pattern.shift != self.shift {
            return false;
        }
        if pattern.mac_cmd {
            return self.mac_cmd && pattern.ctrl == self.ctrl;
        }
        if !pattern.ctrl && !pattern.command {
            return !self.ctrl && !self.command;
        }
        (!pattern.ctrl || self.ctrl) && (!pattern.command || self.command)
    }
}

/// A keyboard chord: modifiers and one key, the key by egui's number for it.
#[derive(Debug, Clone, Copy, PartialEq, Eq, Structural)]
pub struct Chord {
    /// The modifiers held.
    pub modifiers: Mods,
    /// The key pressed.
    pub key: u32,
}

/// Why a spec is not a chord.
#[derive(Debug, Clone, PartialEq, Eq)]
pub enum ChordFault {
    /// Nothing is left for the key.
    NoKey,
    /// This word is neither a modifier nor in last place.
    NotAModifier(String),
    /// This last word is not a key egui knows.
    NotAKey(String),
}

/// The spec-level form of a [`ChordFault`].
pub enum ChordFaultView {
    /// Nothing is left for the key.
    NoKey,
    /// This word is not a modifier.
    NotAModifier(Seq<char>),
    /// This word is not a key.
    NotAKey(Seq<char>),
}

impl ChordFault {
    /// The fault with its words as character sequences.
    pub open spec fn view_fault(&self) -> ChordFaultView {
        match self {
            ChordFault::NoKey => ChordFaultView::NoKey,
            ChordFault::NotAModifier(w) => ChordFaultView::NotAModifier(w@),
            ChordFault::NotAKey(w) => ChordFaultView::NotAKey(w@),
        }
    }
}

/// The index of the last `c` in `s`, or -1.
pub open spec fn last_index_of(s: Seq<char>, c: char) -> int
    decreases s.len(),
{
    if s.len() == 0 {
        -1
    } else if s.last() == c {
        s.len() - 1
    } else {
        last_index_of(s.drop_last(), c)
    }
}

/// A trimmed chord spec split into its modifier words and its key word.
///
/// `+` is both the separator and a key name, so a spec ending in `+` binds
/// the plus key: a bare `+` is the key alone, and `Ctrl+` and `Ctrl++` both
/// read as Ctrl with the plus key.
pub open spec fn split_chord_spec(t: Seq<char>) -> (Seq<char>, Seq<char>) {
    if t.len() > 0 && t.last() == '+' {
        let head = t.drop_last();
        (if head.len() > 0 && head.last() == '+' { head.drop_last() } else { head }, seq!['+'])
    } else {
        let k = last_index_of(t, '+');
        if k < 0 {
            (Seq::empty(), t)
        } else {
            (t.subrange(0, k), t.subrange(k + 1, t.len() as int))
        }
    }
}

/// The modifier a single word names, case-insensitively: `ctrl`, `control`,
/// `cmd`, `command` and `super` are the command key.
pub open spec fn modifier_named(w: Seq<char>) -> Option<Mods> {
    let l = ascii_lower_seq(trim(w));
    if l == "ctrl"@ || l == "control"@ || l == "cmd"@ || l == "command"@ || l == "super"@ {
        Some(mods_command())
    } else if l == "shift"@ {
        Some(mods_shift())
    } else if l == "alt"@ || l == "option"@ || l == "opt"@ {
        Some(mods_alt())
    } else {
        None
    }
}

/// The word `w` folded into `acc`: an empty word is skipped, a modifier is
/// added, anything else is refused.
pub open spec fn fold_word(w: Seq<char>, acc: Mods) -> Result<Mods, Seq<char>> {
    if w.len() == 0 {
        Ok(acc)
    } else {
        match modifier_named(w) {
            Some(m) => Ok(mods_plus(acc, m)),
            None => Err(w),
        }
    }
}

/// The modifiers of `s[start..]` split on `+`, scanning from `i`, with the
/// word that started at `start` still open.
pub open spec fn mods_scan(s: Seq<char>, start: int, i: int, acc: Mods) -> Result<Mods, Seq<char>>
    decreases s.len() - i,
{
    if i >= s.len() || i < start || start < 0 {
        fold_word(s.subrange(start, s.len() as int), acc)
    } else if s[i] == '+' {
        match fold_word(s.subrange(start, i), acc) {
            Ok(m) => mods_scan(s, i + 1, i + 1, m),
            Err(w) => Err(w),
        }
    } else {
        mods_scan(s, start, i + 1, acc)
    }
}

/// What [`parse_chord`] makes of `s`.
pub open spec fn chord_of_spec(s: Seq<char>) -> Result<Chord, ChordFaultView> {
    let (mw, kw) = split_chord_spec(trim(s));
    if kw.len() == 0 {
        Err(ChordFaultView::NoKey)
    } else {
        match mods_scan(mw, 0, 0, mods_none()) {
            Err(w) => Err(ChordFaultView::NotAModifier(w)),
            Ok(m) => match egui_key_named(trim(kw)) {
                None => Err(ChordFaultView::NotAKey(kw)),
                Some(k) => Ok(Chord { modifiers: m, key: k }),
            },
        }
    }
}

/// The modifier the word `v[lo..hi]` names.
fn modifier_by_name(v: &[char], lo: usize, hi: usize) -> (r: Option<Mods>)
    requires
        lo <= hi <= v@.len(),
    ensures
        r == modifier_named(v@.subrange(lo as int, hi as int)),
{
    let (a, b) = trim_range(v, lo, hi);
    let mut lower: Vec<char> = Vec::new();
    let mut i = a;
    while i < b
        invariant
            a <= i <= b <= v@.len(),
            lower@ == ascii_lower_seq(v@.subrange(a as int, i as int)),
        decreases b - i,
    {
        lower.push(lower_char(v[i]));
        i = i + 1;
        assert(lower@ =~= ascii_lower_seq(v@.subrange(a as int, i as int)));
    }
    let n = lower.len();
    let w = lower.as_slice();
    assert(w@.subrange(0, n as int) =~= w@);
    if range_eq_str(w, 0, n, "ctrl") || range_eq_str(w, 0, n, "control") || range_eq_str(
        w,
        0,
        n,
        "cmd",
    ) || range_eq_str(w, 0, n, "command") || range_eq_str(w, 0, n, "super") {
        Some(Mods::command_key())
    } else if range_eq_str(w, 0, n, "shift") {
        Some(Mods::shift_key())
    } else if range_eq_str(w, 0, n, "alt") || range_eq_str(w, 0, n, "option") || range_eq_str(
        w,
        0,
        n,
        "opt",
    ) {
        Some(Mods::alt_key())
    } else {
        None
    }
}

/// Folds the word `v[lo..hi]` into `acc`.
fn fold_word_exec(v: &[char], lo: usize, hi: usize, acc: Mods) -> (r: Result<Mods, String>)
    requires
        lo <= hi <= v@.len(),
    ensures
        match r {
            Ok(m) => fold_word(v@.subrange(lo as int, hi as int), acc) == Ok::<Mods, Seq<char>>(m),
            Err(w) => fold_word(v@.subrange(lo as int, hi as int), acc) == Err::<Mods, Seq<char>>(
                w@,
            ),
        },
{
    if lo == hi {
        return Ok(acc);
    }
    match modifier_by_name(v, lo, hi) {
        Some(m) => Ok(acc.plus(m)),
        None => Err(string_of(v, lo, hi)),
    }
}

/// The modifiers of `v[lo..hi]`, words split on `+`, empty words skipped.
fn scan_modifiers(v: &[char], lo: usize, hi: usize) -> (r: Result<Mods, String>)
    requires
        lo <= hi <= v@.len(),
    ensures
        match r {
            Ok(m) => mods_scan(v@.subrange(lo as int, hi as int), 0, 0, mods_none()) == Ok::<
                Mods,
                Seq<char>,
            >(m),
            Err(w) => mods_scan(v@.subrange(lo as int, hi as int), 0, 0, mods_none()) == Err::<
                Mods,
                Seq<char>,
            >(w@),
        },
{
    let ghost s = v@.subrange(lo as int, hi as int);
    let mut acc = Mods::empty();
    let mut start = lo;
    let mut i = lo;
    while i < hi
        invariant
            lo <= start <= i <= hi <= v@.len(),
            s == v@.subrange(lo as int, hi as int),
            mods_scan(s, 0, 0, mods_none()) == mods_scan(
                s,
                (start - lo) as int,
                (i - lo) as int,
                acc,
            ),
        decreases hi - i,
    {
        if v[i] == '+' {
            assert(s.subrange((start - lo) as int, (i - lo) as int) =~= v@.subrange(
                start as int,
                i as int,
            ));
            match fold_word_exec(v, start, i, acc) {
                Ok(m) => {
                    acc = m;
                    start = i + 1;
                },
                Err(w) => {
                    return Err(w);
                },
            }
        }
        i = i + 1;
    }
    assert(s.subrange((start - lo) as int, s.len() as int) =~= v@.subrange(
        start as int,
        hi as int,
    ));
    fold_word_exec(v, start, hi, acc)
}

/// The index of the last `c` in `v[lo..hi]`, counted from `lo`.
fn last_index(v: &[char], lo: usize, hi: usize, c: char) -> (r: Option<usize>)
    requires
        lo <= hi <= v@.len(),
    ensures
        match r {
            Some(k) => k < hi - lo && last_index_of(v@.subrange(lo as int, hi as int), c) == k,
            None => last_index_of(v@.subrange(lo as int, hi as int), c) == -1,
        },
{
    let mut j = hi;
    while j > lo
        invariant
            lo <= j <= hi <= v@.len(),
            last_index_of(v@.subrange(lo as int, hi as int), c) == last_index_of(
                v@.subrange(lo as int, j as int),
                c,
            ),
        decreases j,
    {
        assert(v@.subrange(lo as int, j as int).drop_last() =~= v@.subrange(
            lo as int,
            j - 1 as int,
        ));
        if v[j - 1] == c {
            return Some(j - 1 - lo);
        }
        j = j - 1;
    }
    None
}

/// A chord spec split into its modifier words and its key word, as
/// [`split_chord_spec`] splits the trimmed spec.
pub fn split_chord(spec: &str) -> (r: (String, String))
    ensures
        (r.0@, r.1@) == split_chord_spec(trim(spec@)),
{
    let all = chars_of(spec);
    let v = all.as_slice();
    let (a, b) = trim_range(v, 0, v.len());
    assert(v@.subrange(0, v@.len() as int) =~= spec@);
    let ghost t = v@.subrange(a as int, b as int);
    // Split into the modifier words v[ma..mb] and the key word.
    let (ma, mb, key_word): (usize, usize, String) = if b > a && v[b - 1] == '+' {
        let head_end = b - 1;
        let mb = if head_end > a && v[head_end - 1] == '+' { head_end - 1 } else { head_end };
        proof {
            assert(t.drop_last() =~= v@.subrange(a as int, head_end as int));
            if head_end > a && v@[head_end - 1] == '+' {
                assert(t.drop_last().drop_last() =~= v@.subrange(a as int, (head_end - 1) as int));
            }
            reveal_strlit("+");
        }
        (a, mb, "+".to_string())
    } else {
        match last_index(v, a, b, '+') {
            Some(k) => {
                assert(t.subrange(0, k as int) =~= v@.subrange(a as int, (a + k) as int));
                assert(t.subrange(k + 1, t.len() as int) =~= v@.subrange(
                    (a + k + 1) as int,
                    b as int,
                ));
                (a, a + k, string_of(v, a + k + 1, b))
            },
            None => {
                assert(v@.subrange(a as int, a as int) =~= Seq::<char>::empty());
                (a, a, string_of(v, a, b))
            },
        }
    };
    assert(split_chord_spec(t).0 == v@.subrange(ma as int, mb as int));
    assert(split_chord_spec(t).1 == key_word@);
    assert(t == trim(spec@));
    (string_of(v, ma, mb), key_word)
}

/// Parses a chord spec such as `Ctrl+Shift+Z` or `F1`.
///
/// Modifier names are case-insensitive; `ctrl`, `cmd` and `command` all mean
/// the command key, which is Ctrl off macOS and Cmd on it.
pub fn parse_chord(spec: &str) -> (r: Result<Chord, ChordFault>)
    ensures
        match r {
            Ok(c) => chord_of_spec(spec@) == Ok::<Chord, ChordFaultView>(c),
            Err(f) => chord_of_spec(spec@) == Err::<Chord, ChordFaultView>(f.view_fault()),
        },
        r matches Ok(c) ==> key_round_trips(c.key) && !c.modifiers.ctrl && !c.modifiers.mac_cmd,
{
    let (modifier_words, key_word) = split_chord(spec);
    let words = chars_of(modifier_words.as_str());
    assert(words@.subrange(0, words@.len() as int) =~= words@);
    if key_word.unicode_len() == 0 {
        return Err(ChordFault::NoKey);
    }
    let modifiers = match scan_modifiers(words.as_slice(), 0, words.len()) {
        Ok(m) => m,
        Err(w) => {
            return Err(ChordFault::NotAModifier(w));
        },
    };
    let trimmed_key = trimmed(key_word.as_str());
    proof {
        lemma_scan_keeps_plain_mods(words@, 0, 0, mods_none());
    }
    match key_from_name(trimmed_key.as_str()) {
        Some(key) => Ok(Chord { modifiers, key }),
        None => Err(ChordFault::NotAKey(key_word)),
    }
}

/// The modifier words a chord spec is written with, in the order
/// [`chord_spec`] writes them.
pub open spec fn modifier_words(m: Mods) -> Seq<Seq<char>> {
    (if m.ctrl || m.command || m.mac_cmd { seq!["Ctrl"@] } else { Seq::empty() }) + (if m.alt {
        seq!["Alt"@]
    } else {
        Seq::empty()
    }) + (if m.shift { seq!["Shift"@] } else { Seq::empty() })
}

/// The text before the key name in a written chord: each modifier word
/// followed by `+`.
pub open spec fn prefix_text(m: Mods) -> Seq<char> {
    (if m.ctrl || m.command || m.mac_cmd { "Ctrl+"@ } else { Seq::empty() }) + (if m.alt {
        "Alt+"@
    } else {
        Seq::empty()
    }) + (if m.shift { "Shift+"@ } else { Seq::empty() })
}

/// A chord written the way [`parse_chord`] reads it, e.g. `Ctrl+Shift+Z`.
///
/// It never uses the macOS glyphs, so a keymap file stays readable and
/// portable between machines.
pub fn chord_spec(chord: Chord) -> (r: String)
    ensures
        r@ == chord_text(chord),
        egui_key_name(chord.key) matches Some(n) ==> egui_key_named(n) == Some(chord.key) && plain_name(
            n,
        ),
{
    let mut spec = String::new();
    let m = chord.modifiers;
    if m.ctrl || m.command || m.mac_cmd {
        spec.append("Ctrl+");
    }
    if m.alt {
        spec.append("Alt+");
    }
    if m.shift {
        spec.append("Shift+");
    }
    let name = match key_name(chord.key) {
        Some(name) => name,
        None => String::new(),
    };
    spec.append(name.as_str());
    assert(spec@ =~= chord_text(chord));
    spec
}

/// A chord as [`chord_spec`] writes it: the modifier words, then egui's
/// name for the key (nothing for a number egui has no key for).
pub open spec fn chord_text(c: Chord) -> Seq<char> {
    prefix_text(c.modifiers) + match egui_key_name(c.key) {
        Some(n) => n,
        None => Seq::<char>::empty(),
    }
}

/// Whether `s` has no `+` in it.
pub open spec fn no_plus(s: Seq<char>) -> bool {
    forall|i: int| 0 <= i < s.len() ==> #[trigger] s[i] != '+'
}

/// Scanning a stretch with no `+` in it leaves its word open to the end.
proof fn lemma_scan_no_plus(x: Seq<char>, i: int, acc: Mods)
    requires
        no_plus(x),
        0 <= i <= x.len(),
    ensures
        mods_scan(x, 0, i, acc) == fold_word(x, acc),
    decreases x.len() - i,
{
    if i < x.len() {
        lemma_scan_no_plus(x, i + 1, acc);
    } else {
        assert(x.subrange(0, x.len() as int) =~= x);
    }
}

/// A scan over `pre + rest` that has passed `pre` is a scan over `rest`.
proof fn lemma_scan_shift(pre: Seq<char>, rest: Seq<char>, a: int, b: int, acc: Mods)
    requires
        0 <= a <= b <= rest.len(),
    ensures
        mods_scan(pre + rest, pre.len() + a, pre.len() + b, acc) == mods_scan(rest, a, b, acc),
    decreases rest.len() - b,
{
    let s = pre + rest;
    if b < rest.len() {
        assert(s[pre.len() + b] == rest[b]);
        assert(s.subrange(pre.len() + a, pre.len() + b) =~= rest.subrange(a, b));
        if rest[b] == '+' {
            match fold_word(rest.subrange(a, b), acc) {
                Ok(m) => {
                    lemma_scan_shift(pre, rest, b + 1, b + 1, m);
                },
                Err(_) => {},
            }
        } else {
            lemma_scan_shift(pre, rest, a, b + 1, acc);
        }
    } else {
        assert(s.subrange(pre.len() + a, s.len() as int) =~= rest.subrange(a, rest.len() as int));
    }
}

/// A word with no `+`, then `+`, then the rest: the word is folded first.
proof fn lemma_scan_word(w: Seq<char>, rest: Seq<char>, acc: Mods)
    requires
        no_plus(w),
    ensures
        mods_scan(w + seq!['+'] + rest, 0, 0, acc) == match fold_word(w, acc) {
            Ok(m) => mods_scan(rest, 0, 0, m),
            Err(e) => Err(e),
        },
{
    let pre = w + seq!['+'];
    let s = pre + rest;
    lemma_scan_prefix(w, rest, 0, acc);
    assert(s[w.len() as int] == '+');
    assert(s.subrange(0, w.len() as int) =~= w);
    match fold_word(w, acc) {
        Ok(m) => {
            lemma_scan_shift(pre, rest, 0, 0, m);
        },
        Err(_) => {},
    }
}

/// Inside the first word of `w + '+' + rest` the scan only moves on.
proof fn lemma_scan_prefix(w: Seq<char>, rest: Seq<char>, i: int, acc: Mods)
    requires
        no_plus(w),
        0 <= i <= w.len(),
    ensures
        mods_scan(w + seq!['+'] + rest, 0, i, acc) == mods_scan(
            w + seq!['+'] + rest,
            0,
            w.len() as int,
            acc,
        ),
    decreases w.len() - i,
{
    let s = w + seq!['+'] + rest;
    if i < w.len() {
        assert(s[i] == w[i]);
        lemma_scan_prefix(w, rest, i + 1, acc);
    }
}

/// The words of a modifier list joined with `+`.
pub open spec fn join_plus(words: Seq<Seq<char>>) -> Seq<char>
    decreases words.len(),
{
    if words.len() <= 1 {
        if words.len() == 1 { words[0] } else { Seq::empty() }
    } else {
        words[0] + seq!['+'] + join_plus(words.drop_first())
    }
}

/// The modifiers a list of words adds to `acc`, one word at a time.
pub open spec fn fold_words(words: Seq<Seq<char>>, acc: Mods) -> Result<Mods, Seq<char>>
    decreases words.len(),
{
    if words.len() == 0 {
        Ok(acc)
    } else {
        match fold_word(words[0], acc) {
            Ok(m) => fold_words(words.drop_first(), m),
            Err(e) => Err(e),
        }
    }
}

#[verifier::spinoff_prover]
proof fn lemma_join_no_plus_words(words: Seq<Seq<char>>, acc: Mods)
    requires
        words.len() >= 1,
        forall|k: int| 0 <= k < words.len() ==> no_plus(#[trigger] words[k]) && words[k].len() > 0,
    ensures
        mods_scan(join_plus(words), 0, 0, acc) == fold_words(words, acc),
    decreases words.len(),
{
    let first = words[0];
    let rest = words.drop_first();
    assert(no_plus(first) && first.len() > 0);
    if words.len() == 1 {
        assert(join_plus(words) == first);
        assert(rest.len() == 0);
        assert(fold_words(rest, acc) == Ok::<Mods, Seq<char>>(acc));
        lemma_scan_no_plus(first, 0, acc);
        assert(mods_scan(first, 0, 0, acc) == fold_word(first, acc));
        match fold_word(first, acc) {
            Ok(m) => {
                assert(fold_words(rest, m) == Ok::<Mods, Seq<char>>(m));
                assert(fold_words(words, acc) == fold_words(rest, m));
            },
            Err(e) => {
                assert(fold_words(words, acc) == Err::<Mods, Seq<char>>(e));
            },
        }
    } else {
        assert(join_plus(words) == first + seq!['+'] + join_plus(rest));
        assert forall|k: int| 0 <= k < rest.len() implies no_plus(#[trigger] rest[k]) && rest[k].len()
            > 0 by {
            assert(rest[k] == words[k + 1]);
        }
        lemma_scan_word(first, join_plus(rest), acc);
        match fold_word(first, acc) {
            Ok(m) => {
                lemma_join_no_plus_words(rest, m);
                assert(fold_words(words, acc) == fold_words(rest, m));
            },
            Err(e) => {
                assert(fold_words(words, acc) == Err::<Mods, Seq<char>>(e));
            },
        }
    }
}

proof fn lemma_trim_plain(s: Seq<char>)
    requires
        s.len() > 0,
        !is_ws(s[0]),
        !is_ws(s.last()),
    ensures
        trim(s) == s,
{
}

proof fn lemma_last_index_suffix(p: Seq<char>, n: Seq<char>, c: char)
    requires
        forall|i: int| 0 <= i < n.len() ==> #[trigger] n[i] != c,
    ensures
        last_index_of(p + n, c) == last_index_of(p, c),
    decreases n.len(),
{
    if n.len() > 0 {
        assert((p + n).drop_last() =~= p + n.drop_last());
        lemma_last_index_suffix(p, n.drop_last(), c);
    } else {
        assert(p + n =~= p);
    }
}

proof fn lemma_join_one(a: Seq<char>)
    ensures
        join_plus(seq![a]) == a,
{
}

proof fn lemma_join_two(a: Seq<char>, b: Seq<char>)
    ensures
        join_plus(seq![a, b]) == a + seq!['+'] + b,
{
    assert(seq![a, b].drop_first() =~= seq![b]);
    lemma_join_one(b);
}

proof fn lemma_join_three(a: Seq<char>, b: Seq<char>, c: Seq<char>)
    ensures
        join_plus(seq![a, b, c]) == a + seq!['+'] + b + seq!['+'] + c,
{
    assert(seq![a, b, c].drop_first() =~= seq![b, c]);
    lemma_join_two(b, c);
    assert(a + seq!['+'] + (b + seq!['+'] + c) =~= a + seq!['+'] + b + seq!['+'] + c);
}

proof fn lemma_fold_one(a: Seq<char>, acc: Mods)
    ensures
        fold_words(seq![a], acc) == fold_word(a, acc),
{
    assert(seq![a].drop_first() =~= Seq::<Seq<char>>::empty());
    match fold_word(a, acc) {
        Ok(m) => {
            assert(fold_words(Seq::<Seq<char>>::empty(), m) == Ok::<Mods, Seq<char>>(m));
        },
        Err(_) => {},
    }
}

proof fn lemma_fold_two(a: Seq<char>, b: Seq<char>, acc: Mods)
    ensures
        fold_word(a, acc) is Ok ==> fold_words(seq![a, b], acc) == fold_word(
            b,
            fold_word(a, acc)->Ok_0,
        ),
{
    assert(seq![a, b].drop_first() =~= seq![b]);
    if fold_word(a, acc) is Ok {
        lemma_fold_one(b, fold_word(a, acc)->Ok_0);
    }
}

proof fn lemma_fold_three(a: Seq<char>, b: Seq<char>, c: Seq<char>, acc: Mods)
    ensures
        fold_word(a, acc) is Ok && fold_word(b, fold_word(a, acc)->Ok_0) is Ok ==> fold_words(
            seq![a, b, c],
            acc,
        ) == fold_word(c, fold_word(b, fold_word(a, acc)->Ok_0)->Ok_0),
{
    assert(seq![a, b, c].drop_first() =~= seq![b, c]);
    if fold_word(a, acc) is Ok {
        lemma_fold_two(b, c, fold_word(a, acc)->Ok_0);
    }
}

/// The three words a spec writes name the three modifiers.
proof fn lemma_words_named()
    ensures
        modifier_named("Ctrl"@) == Some(mods_command()),
        modifier_named("Alt"@) == Some(mods_alt()),
        modifier_named("Shift"@) == Some(mods_shift()),
        "Ctrl"@.len() == 4 && no_plus("Ctrl"@),
        "Alt"@.len() == 3 && no_plus("Alt"@),
        "Shift"@.len() == 5 && no_plus("Shift"@),
{
    reveal_strlit("Ctrl");
    reveal_strlit("Alt");
    reveal_strlit("Shift");
    reveal_strlit("ctrl");
    reveal_strlit("alt");
    reveal_strlit("shift");
    reveal_strlit("control");
    reveal_strlit("cmd");
    reveal_strlit("command");
    reveal_strlit("super");
    reveal_strlit("option");
    reveal_strlit("opt");
    assert(trim_start("Ctrl"@) == "Ctrl"@);
    assert(trim_end("Ctrl"@) == "Ctrl"@);
    assert(trim_start("Alt"@) == "Alt"@);
    assert(trim_end("Alt"@) == "Alt"@);
    assert(trim_start("Shift"@) == "Shift"@);
    assert(trim_end("Shift"@) == "Shift"@);
    assert(ascii_lower_seq("Ctrl"@) =~= "ctrl"@);
    assert(ascii_lower_seq("Alt"@) =~= "alt"@);
    assert(ascii_lower_seq("Shift"@) =~= "shift"@);
    let l = ascii_lower_seq(trim("Alt"@));
    assert(l.len() == 3);
    assert(l != "ctrl"@ && l != "control"@ && l != "cmd"@) by {
        assert(l[1] != "cmd"@[1]);
    }
    assert(l != "command"@ && l != "super"@ && l != "shift"@);
    let k = ascii_lower_seq(trim("Shift"@));
    assert(k.len() == 5);
    assert(k != "ctrl"@ && k != "control"@ && k != "cmd"@ && k != "command"@);
    assert(k != "super"@) by {
        assert(k[1] != "super"@[1]);
    }
}

/// The modifier words parse back to the modifiers they were written from.
proof fn lemma_words_fold(m: Mods)
    requires
        !m.ctrl,
        !m.mac_cmd,
    ensures
        fold_words(modifier_words(m), mods_none()) == Ok::<Mods, Seq<char>>(m),
        forall|k: int|
            0 <= k < modifier_words(m).len() ==> no_plus(#[trigger] modifier_words(m)[k])
                && modifier_words(m)[k].len() > 0,
{
    lemma_words_named();
    let words = modifier_words(m);
    let n = mods_none();
    if m.command {
        if m.alt {
            if m.shift {
                assert(words =~= seq!["Ctrl"@, "Alt"@, "Shift"@]);
                lemma_fold_three("Ctrl"@, "Alt"@, "Shift"@, n);
            } else {
                assert(words =~= seq!["Ctrl"@, "Alt"@]);
                lemma_fold_two("Ctrl"@, "Alt"@, n);
            }
        } else if m.shift {
            assert(words =~= seq!["Ctrl"@, "Shift"@]);
            lemma_fold_two("Ctrl"@, "Shift"@, n);
        } else {
            assert(words =~= seq!["Ctrl"@]);
            lemma_fold_one("Ctrl"@, n);
        }
    } else if m.alt {
        if m.shift {
            assert(words =~= seq!["Alt"@, "Shift"@]);
            lemma_fold_two("Alt"@, "Shift"@, n);
        } else {
            assert(words =~= seq!["Alt"@]);
            lemma_fold_one("Alt"@, n);
        }
    } else if m.shift {
        assert(words =~= seq!["Shift"@]);
        lemma_fold_one("Shift"@, n);
    } else {
        assert(words =~= Seq::<Seq<char>>::empty());
    }
}

/// The prefix is the joined words and a closing `+`.
proof fn lemma_prefix_is_joined(m: Mods)
    ensures
        modifier_words(m).len() == 0 ==> prefix_text(m) == Seq::<char>::empty(),
        modifier_words(m).len() > 0 ==> prefix_text(m) == join_plus(modifier_words(m)) + seq![
            '+',
        ],
{
    reveal_strlit("Ctrl");
    reveal_strlit("Alt");
    reveal_strlit("Shift");
    reveal_strlit("Ctrl+");
    reveal_strlit("Alt+");
    reveal_strlit("Shift+");
    let words = modifier_words(m);
    let cmd = m.ctrl || m.command || m.mac_cmd;
    if cmd && m.alt && m.shift {
        assert(words =~= seq!["Ctrl"@, "Alt"@, "Shift"@]);
        lemma_join_three("Ctrl"@, "Alt"@, "Shift"@);
        assert(prefix_text(m) =~= join_plus(words) + seq!['+']);
    } else if cmd && m.alt {
        assert(words =~= seq!["Ctrl"@, "Alt"@]);
        lemma_join_two("Ctrl"@, "Alt"@);
        assert(prefix_text(m) =~= join_plus(words) + seq!['+']);
    } else if cmd && m.shift {
        assert(words =~= seq!["Ctrl"@, "Shift"@]);
        lemma_join_two("Ctrl"@, "Shift"@);
        assert(prefix_text(m) =~= join_plus(words) + seq!['+']);
    } else if m.alt && m.shift {
        assert(words =~= seq!["Alt"@, "Shift"@]);
        lemma_join_two("Alt"@, "Shift"@);
        assert(prefix_text(m) =~= join_plus(words) + seq!['+']);
    } else if cmd {
        assert(words =~= seq!["Ctrl"@]);
        assert(prefix_text(m) =~= join_plus(words) + seq!['+']);
    } else if m.alt {
        assert(words =~= seq!["Alt"@]);
        assert(prefix_text(m) =~= join_plus(words) + seq!['+']);
    } else if m.shift {
        assert(words =~= seq!["Shift"@]);
        assert(prefix_text(m) =~= join_plus(words) + seq!['+']);
    } else {
        assert(words =~= Seq::<Seq<char>>::empty());
        assert(prefix_text(m) =~= Seq::<char>::empty());
    }
}

/// A chord written by [`chord_spec`] reads back as the same chord.
///
/// The spec writes Ctrl for the control, command and Mac command keys alike,
/// so the chords that come back unchanged are the ones written with the
/// command key, the way [`parse_chord`] makes them.
pub proof fn law_chord_spec_round_trips(chord: Chord, name: Seq<char>)
    requires
        !chord.modifiers.ctrl,
        !chord.modifiers.mac_cmd,
        egui_key_name(chord.key) == Some(name),
        egui_key_named(name) == Some(chord.key),
        plain_name(name),
    ensures
        chord_of_spec(chord_text(chord)) == Ok::<Chord, ChordFaultView>(chord),
{
    assert(chord_text(chord) == prefix_text(chord.modifiers) + name);
    let m = chord.modifiers;
    let p = prefix_text(m);
    let s = p + name;
    lemma_prefix_is_joined(m);
    lemma_words_fold(m);
    let words = modifier_words(m);
    // The text is already trimmed.
    assert(s.last() == name.last());
    assert(!is_ws(name[name.len() - 1]));
    if p.len() > 0 {
        reveal_strlit("Ctrl+");
        reveal_strlit("Alt+");
        reveal_strlit("Shift+");
        assert(s[0] == p[0]);
        assert(!is_ws(p[0]));
    } else {
        assert(s =~= name);
        assert(!is_ws(name[0]));
    }
    lemma_trim_plain(s);
    assert(trim(s) == s);
    assert(trim(name) == name) by {
        lemma_trim_plain(name);
    }
    // The key word is the name, after the last `+` of the prefix.
    assert(s.last() != '+');
    lemma_last_index_suffix(p, name, '+');
    if words.len() > 0 {
        let j = join_plus(words);
        assert(p == j + seq!['+']);
        assert(last_index_of(p, '+') == j.len()) by {
            assert(p.drop_last() =~= j);
        }
        assert(s.subrange(0, j.len() as int) =~= j);
        assert(s.subrange(j.len() + 1 as int, s.len() as int) =~= name);
        lemma_join_no_plus_words(words, mods_none());
    } else {
        assert(s =~= name);
        assert(last_index_of(p, '+') == -1);
        assert(mods_scan(Seq::<char>::empty(), 0, 0, mods_none()) == Ok::<Mods, Seq<char>>(
            mods_none(),
        )) by {
            assert(Seq::<char>::empty().subrange(0, 0) =~= Seq::<char>::empty());
        }
        assert(fold_words(words, mods_none()) == Ok::<Mods, Seq<char>>(mods_none()));
    }
}

/// Scanning modifier words from modifiers with neither Ctrl nor Cmd held
/// down adds neither: every word names the command key, Shift or Alt.
proof fn lemma_scan_keeps_plain_mods(s: Seq<char>, start: int, i: int, acc: Mods)
    requires
        !acc.ctrl,
        !acc.mac_cmd,
    ensures
        mods_scan(s, start, i, acc) matches Ok(m) ==> !m.ctrl && !m.mac_cmd,
    decreases s.len() - i,
{
    if i >= s.len() || i < start || start < 0 {
    } else if s[i] == '+' {
        match fold_word(s.subrange(start, i), acc) {
            Ok(m) => lemma_scan_keeps_plain_mods(s, i + 1, i + 1, m),
            Err(_) => {},
        }
    } else {
        lemma_scan_keeps_plain_mods(s, start, i + 1, acc);
    }
}

/// A chord [`parse_chord`] read, written out by [`chord_spec`], reads back
/// as the same chord: what [`parse_chord`] returns carries the facts this
/// needs of its key.
pub proof fn law_a_parsed_chord_reads_back(spec: Seq<char>, chord: Chord)
    requires
        chord_of_spec(spec) == Ok::<Chord, ChordFaultView>(chord),
        key_round_trips(chord.key),
    ensures
        chord_of_spec(chord_text(chord)) == Ok::<Chord, ChordFaultView>(chord),
{
    let (mw, kw) = split_chord_spec(trim(spec));
    lemma_scan_keeps_plain_mods(mw, 0, 0, mods_none());
    let name = egui_key_name(chord.key)->0;
    law_chord_spec_round_trips(chord, name);
}


/// Holding Ctrl or Cmd never presses a chord written without either, so a
/// bare `S` does not fire on Ctrl+S; Alt and Shift must be held exactly as
/// written; and holding exactly a chord's own modifiers presses it.
pub proof fn law_unwritten_modifiers_block_a_chord(held: Mods, pattern: Mods)
    ensures
        !pattern.ctrl && !pattern.command && !pattern.mac_cmd && (held.ctrl || held.command)
            ==> !mods_match_exact(held, pattern),
        held.alt != pattern.alt || held.shift != pattern.shift ==> !mods_match_exact(held, pattern),
        mods_match_exact(pattern, pattern),
{
}

} // verus!
