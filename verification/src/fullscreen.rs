//! Fullscreen review on a chosen display: which monitor the pop-out viewer
//! takes over, and how that choice survives a restart.
//!
//! A display is chosen by index, the position the window system takes, and
//! remembered by name as well, so a display that moved in the platform's
//! list is still found after it is plugged back in.

use vstd::prelude::*;
use vstd::string::*;
use crate::keymap::{config_dir, join, join_path, spec_config_dir, ConfigEnv};
use crate::problem::{concat, details_view, Problem, ProblemView, FULLSCREEN_PARSE};
use crate::text::{decimal, decimal_text};

verus! {

/// The name of the fullscreen settings file inside the config directory.
pub const FULLSCREEN_FILE_NAME: &'static str = "fullscreen.json";

/// The schema version written into that file. A file of another version is
/// dropped rather than migrated.
pub const FULLSCREEN_VERSION: u32 = 1;

/// The picker's heading.
pub const PICKER_TITLE: &'static str = "Fullscreen display";

/// The picker's row for "wherever the window already is".
pub const CURRENT_DISPLAY_LABEL: &'static str = "Current display";

/// The button that takes the pop-out fullscreen.
pub const ENTER_LABEL: &'static str = "Go fullscreen";

/// The button that brings it back to a window.
pub const LEAVE_LABEL: &'static str = "Leave fullscreen";

/// The button beside the display-number box.
pub const USE_NUMBER_LABEL: &'static str = "Use display number";

/// The highest display number the picker's box offers.
pub const MAX_DISPLAYS: usize = 16;

/// One display the pop-out can take over.
pub struct Monitor {
    /// The display's position in the platform's monitor list.
    pub index: usize,
    /// What the platform calls it.
    pub name: String,
    /// Its size in whole points, width then height.
    pub size: [u32; 2],
    /// Whether the platform calls it the primary display.
    pub primary: bool,
}

/// The row the picker shows for `m`: its number from one, its name, its
/// size.
pub open spec fn monitor_label(m: Monitor) -> Seq<char> {
    decimal((m.index + 1) as nat) + ": "@ + m.name@ + " - "@ + decimal(m.size[0] as nat) + "x"@
        + decimal(m.size[1] as nat) + if m.primary {
        " (primary)"@
    } else {
        Seq::<char>::empty()
    }
}

impl Monitor {
    /// A display at index 0; [`MonitorList::new`] renumbers it.
    pub fn new(name: String, size: [u32; 2], primary: bool) -> (r: Monitor)
        ensures
            r.index == 0,
            r.name@ == name@,
            r.size == size,
            r.primary == primary,
    {
        Monitor { index: 0, name, size, primary }
    }

    /// "2: HDMI-1 - 3840x2160", with " (primary)" for the primary display.
    pub fn label(&self) -> (r: String)
        requires
            self.index < u64::MAX,
        ensures
            r@ == monitor_label(*self),
    {
        let mut out = decimal_text(self.index as u64 + 1);
        out.append(": ");
        out.append(self.name.as_str());
        out.append(" - ");
        out.append(decimal_text(self.size[0] as u64).as_str());
        out.append("x");
        out.append(decimal_text(self.size[1] as u64).as_str());
        if self.primary {
            out.append(" (primary)");
        }
        out
    }
}

/// A display as a settings file names it: the index the window system
/// takes, and the name that survives the displays being re-ordered.
pub struct MonitorChoice {
    /// The display's position in the platform's list when it was chosen.
    pub index: usize,
    /// What the platform called it then.
    pub name: String,
}

/// What the user chose, as it is written to `fullscreen.json`.
pub struct FullscreenSettings {
    /// The display fullscreen takes over, or `None` for the one the pop-out
    /// window is already on.
    pub monitor: Option<MonitorChoice>,
}

impl FullscreenSettings {
    /// No display chosen.
    pub fn none() -> (r: FullscreenSettings)
        ensures
            r.monitor is None,
    {
        FullscreenSettings { monitor: None }
    }

    /// The index the window system is given, when a display was chosen.
    pub fn monitor_index(&self) -> (r: Option<usize>)
        ensures
            r == match self.monitor {
                Some(c) => Some(c.index),
                None => None::<usize>,
            },
    {
        match &self.monitor {
            Some(c) => Some(c.index),
            None => None,
        }
    }

    /// The name of the chosen display, when one was chosen.
    pub fn monitor_name(&self) -> (r: Option<&str>)
        ensures
            match r {
                Some(n) => self.monitor matches Some(c) && n@ == c.name@,
                None => self.monitor is None,
            },
    {
        match &self.monitor {
            Some(c) => Some(c.name.as_str()),
            None => None,
        }
    }

    /// The settings a `fullscreen.json` holds, given its version and its
    /// display as the file states them.
    ///
    /// A file of another version is refused with `ui.fullscreen_parse`,
    /// naming the version it has.
    pub fn from_stored(version: u32, monitor: Option<MonitorChoice>) -> (r: Result<
        FullscreenSettings,
        Problem,
    >)
        ensures
            version == FULLSCREEN_VERSION ==> (r matches Ok(s) && s.monitor == monitor),
            version != FULLSCREEN_VERSION ==> (r matches Err(p) && p.view_problem()
                == version_problem(version as nat)),
    {
        if version != FULLSCREEN_VERSION {
            let head = concat(
                "the fullscreen settings file is version ",
                decimal_text(version as u64).as_str(),
            );
            let message = concat(head.as_str(), ", and this build writes version 1");
            let digits = decimal_text(version as u64);
            let p = Problem::new(FULLSCREEN_PARSE, message).with_detail("version", digits.as_str());
            assert(details_view(p.details@) =~= seq![("version"@, decimal(version as nat))]);
            return Err(p);
        }
        Ok(FullscreenSettings { monitor })
    }
}

/// The problem a settings file of version `v` is refused with.
pub open spec fn version_problem(v: nat) -> ProblemView {
    ProblemView {
        code: FULLSCREEN_PARSE@,
        message: "the fullscreen settings file is version "@ + decimal(v)
            + ", and this build writes version 1"@,
        details: seq![("version"@, decimal(v))],
    }
}

/// What the picker asked the application for this frame.
#[derive(Debug, Clone, Copy, PartialEq, Eq, Structural)]
pub enum FullscreenAction {
    /// Use this display from now on. The state has already recorded it.
    Choose(Option<usize>),
    /// Take the pop-out fullscreen.
    Enter,
    /// Put it back in a window.
    Leave,
}

/// Whether some display of `s` is called `name`.
pub open spec fn has_name(s: Seq<Monitor>, name: Seq<char>) -> bool {
    exists|k: int| 0 <= k < s.len() && #[trigger] s[k].name@ == name
}

/// Whether `k` is the first display of `s` called `name`.
pub open spec fn first_named(s: Seq<Monitor>, name: Seq<char>, k: int) -> bool {
    &&& 0 <= k < s.len()
    &&& s[k].name@ == name
    &&& forall|j: int| 0 <= j < k ==> #[trigger] s[j].name@ != name
}

/// The display a saved choice names in `s`: the first one with its name,
/// else the one at its index, else none.
pub open spec fn resolves_to(s: Seq<Monitor>, c: MonitorChoice, m: Option<Monitor>) -> bool {
    if has_name(s, c.name@) {
        exists|k: int| first_named(s, c.name@, k) && m == Some(s[k])
    } else if c.index < s.len() {
        m == Some(s[c.index as int])
    } else {
        m is None
    }
}

/// The first display called `name`, by position.
fn find_named(s: &Vec<Monitor>, name: &str) -> (r: Option<usize>)
    ensures
        match r {
            Some(k) => first_named(s@, name@, k as int),
            None => !has_name(s@, name@),
        },
{
    let mut i: usize = 0;
    while i < s.len()
        invariant
            i <= s@.len(),
            forall|j: int| 0 <= j < i ==> #[trigger] s@[j].name@ != name@,
        decreases s@.len() - i,
    {
        if crate::text::str_eq(s[i].name.as_str(), name) {
            return Some(i);
        }
        i = i + 1;
    }
    None
}

/// The displays the picker offers, in the platform's own order, each
/// numbered by its position.
pub struct MonitorList {
    monitors: Vec<Monitor>,
}

impl MonitorList {
    /// Every display's index is its position in the list.
    #[verifier::type_invariant]
    spec fn numbered(&self) -> bool {
        forall|i: int| 0 <= i < self.monitors@.len() ==> #[trigger] self.monitors@[i].index == i
    }

    /// The displays, in order.
    pub closed spec fn spec_monitors(&self) -> Seq<Monitor> {
        self.monitors@
    }

    /// An empty list.
    pub fn empty() -> (r: MonitorList)
        ensures
            r.spec_monitors().len() == 0,
    {
        MonitorList { monitors: Vec::new() }
    }

    /// A list of displays, numbered by their position in `monitors`.
    pub fn new(monitors: Vec<Monitor>) -> (r: MonitorList)
        ensures
            r.spec_monitors().len() == monitors@.len(),
            forall|i: int|
                0 <= i < monitors@.len() ==> {
                    &&& (#[trigger] r.spec_monitors()[i]).index == i
                    &&& r.spec_monitors()[i].name == monitors@[i].name
                    &&& r.spec_monitors()[i].size == monitors@[i].size
                    &&& r.spec_monitors()[i].primary == monitors@[i].primary
                },
    {
        let mut out: Vec<Monitor> = Vec::new();
        let mut i: usize = 0;
        while i < monitors.len()
            invariant
                i <= monitors@.len(),
                out@.len() == i,
                forall|k: int|
                    0 <= k < i ==> {
                        &&& (#[trigger] out@[k]).index == k
                        &&& out@[k].name == monitors@[k].name
                        &&& out@[k].size == monitors@[k].size
                        &&& out@[k].primary == monitors@[k].primary
                    },
            decreases monitors@.len() - i,
        {
            let m = &monitors[i];
            out.push(Monitor { index: i, name: m.name.clone(), size: m.size, primary: m.primary });
            i = i + 1;
        }
        MonitorList { monitors: out }
    }

    /// The displays, in order.
    pub fn as_slice(&self) -> (r: &[Monitor])
        ensures
            r@ == self.spec_monitors(),
    {
        self.monitors.as_slice()
    }

    /// How many displays are listed.
    pub fn len(&self) -> (r: usize)
        ensures
            r == self.spec_monitors().len(),
    {
        self.monitors.len()
    }

    /// Whether no display could be listed at all.
    pub fn is_empty(&self) -> (r: bool)
        ensures
            r == (self.spec_monitors().len() == 0),
    {
        self.monitors.len() == 0
    }

    /// The display at `index`, if the list reaches that far.
    pub fn get(&self, index: usize) -> (r: Option<&Monitor>)
        ensures
            match r {
                Some(m) => index < self.spec_monitors().len() && *m
                    == self.spec_monitors()[index as int],
                None => index >= self.spec_monitors().len(),
            },
    {
        if index < self.monitors.len() {
            Some(&self.monitors[index])
        } else {
            None
        }
    }

    /// The display a saved choice names: the name wins over the index,
    /// because a display that moved in the list is still the one the user
    /// picked; the index is the fallback for a display renamed between runs.
    pub fn resolve(&self, choice: &MonitorChoice) -> (r: Option<&Monitor>)
        ensures
            resolves_to(
                self.spec_monitors(),
                *choice,
                match r {
                    Some(m) => Some(*m),
                    None => None,
                },
            ),
            r matches Some(m) ==> m.index < self.spec_monitors().len() && *m
                == self.spec_monitors()[m.index as int],
    {
        proof {
            use_type_invariant(self);
        }
        match find_named(&self.monitors, choice.name.as_str()) {
            Some(k) => Some(&self.monitors[k]),
            None => self.get(choice.index),
        }
    }
}

/// The fullscreen choice at runtime: the displays on offer, what was picked,
/// and what was last read from or written to disk.
pub struct FullscreenState {
    monitors: MonitorList,
    settings: FullscreenSettings,
    persisted: Option<String>,
    display_number: usize,
}

/// The view of an optional string.
pub open spec fn opt_view(o: Option<String>) -> Option<Seq<char>> {
    match o {
        Some(s) => Some(s@),
        None => None,
    }
}

impl FullscreenState {
    /// The number in the display box counts from one.
    #[verifier::type_invariant]
    spec fn counted_from_one(&self) -> bool {
        self.display_number >= 1
    }

    /// The displays the picker lists.
    pub closed spec fn spec_monitors(&self) -> Seq<Monitor> {
        self.monitors.spec_monitors()
    }

    /// The choice in force.
    pub closed spec fn spec_choice(&self) -> Option<MonitorChoice> {
        self.settings.monitor
    }

    /// The text last read from or written to disk.
    pub closed spec fn spec_persisted(&self) -> Option<Seq<char>> {
        opt_view(self.persisted)
    }

    /// The number in the picker's display-number box, from one.
    pub closed spec fn spec_display_number(&self) -> nat {
        self.display_number as nat
    }

    /// No displays listed and no choice made.
    pub fn new() -> (r: FullscreenState)
        ensures
            r.spec_monitors().len() == 0,
            r.spec_choice() is None,
            r.spec_persisted() is None,
            r.spec_display_number() == 1,
    {
        FullscreenState {
            monitors: MonitorList::empty(),
            settings: FullscreenSettings::none(),
            persisted: None,
            display_number: 1,
        }
    }

    /// The state a settings file read from disk describes: its choice, the
    /// text it was read from, and the display box showing the chosen
    /// display's number.
    pub fn from_file(settings: FullscreenSettings, text: String) -> (r: FullscreenState)
        requires
            settings.monitor matches Some(c) ==> c.index < usize::MAX,
        ensures
            r.spec_monitors().len() == 0,
            r.spec_choice() == settings.monitor,
            r.spec_persisted() == Some(text@),
            r.spec_display_number() == match settings.monitor {
                Some(c) => c.index + 1,
                None => 1,
            },
    {
        let display_number = match &settings.monitor {
            Some(c) => c.index + 1,
            None => 1,
        };
        FullscreenState {
            monitors: MonitorList::empty(),
            settings,
            persisted: Some(text),
            display_number,
        }
    }

    /// Replaces the displays the picker lists.
    ///
    /// A choice is re-pointed at wherever its display now sits, so
    /// unplugging a monitor and plugging it back in does not move the review
    /// picture to another screen; a choice the new list cannot place is kept
    /// as it stands.
    pub fn set_monitors(&mut self, monitors: MonitorList)
        ensures
            final(self).spec_monitors() == monitors.spec_monitors(),
            match old(self).spec_choice() {
                Some(c) => exists|m: Option<Monitor>|
                    resolves_to(monitors.spec_monitors(), c, m) && match m {
                        Some(m) => final(self).spec_choice() matches Some(n) && n.index
                            == m.index && n.name@ == m.name@,
                        None => final(self).spec_choice() == old(self).spec_choice(),
                    },
                None => final(self).spec_choice() is None,
            },
            final(self).spec_persisted() == old(self).spec_persisted(),
            final(self).spec_display_number() == old(self).spec_display_number(),
    {
        proof {
            use_type_invariant(&*self);
        }
        let found = match &self.settings.monitor {
            Some(choice) => match monitors.resolve(choice) {
                Some(m) => Some(MonitorChoice { index: m.index, name: m.name.clone() }),
                None => None,
            },
            None => None,
        };
        match found {
            Some(c) => {
                self.settings.monitor = Some(c);
            },
            None => {},
        }
        self.monitors = monitors;
    }

    /// The displays the picker lists.
    pub fn monitors(&self) -> (r: &MonitorList)
        ensures
            r.spec_monitors() == self.spec_monitors(),
    {
        &self.monitors
    }

    /// The choice as it is written to disk.
    pub fn settings(&self) -> (r: &FullscreenSettings)
        ensures
            r.monitor == self.spec_choice(),
    {
        &self.settings
    }

    /// The index the pop-out window is given, when a display was chosen.
    pub fn monitor_index(&self) -> (r: Option<usize>)
        ensures
            r == match self.spec_choice() {
                Some(c) => Some(c.index),
                None => None::<usize>,
            },
    {
        self.settings.monitor_index()
    }

    /// The chosen display, when it is one the list knows about.
    pub fn chosen(&self) -> (r: Option<&Monitor>)
        ensures
            match self.spec_choice() {
                Some(c) => resolves_to(
                    self.spec_monitors(),
                    c,
                    match r {
                        Some(m) => Some(*m),
                        None => None,
                    },
                ),
                None => r is None,
            },
    {
        match &self.settings.monitor {
            Some(c) => self.monitors.resolve(c),
            None => None,
        }
    }

    /// Chooses the display at `index` in the list, or the current one for
    /// `None`. An index past the end of the list is ignored: naming a
    /// display the editor cannot see is [`FullscreenState::choose_index`]'s
    /// job.
    pub fn choose_monitor(&mut self, index: Option<usize>)
        ensures
            match index {
                None => final(self).spec_choice() is None && final(self).spec_display_number()
                    == 1,
                Some(i) => if i < old(self).spec_monitors().len() {
                    final(self).spec_choice() matches Some(c) && c.index == i && c.name@ == old(
                        self,
                    ).spec_monitors()[i as int].name@ && final(self).spec_display_number() == i
                        + 1
                } else {
                    final(self).spec_choice() == old(self).spec_choice()
                        && final(self).spec_display_number() == old(self).spec_display_number()
                },
            },
            final(self).spec_monitors() == old(self).spec_monitors(),
            final(self).spec_persisted() == old(self).spec_persisted(),
    {
        proof {
            use_type_invariant(&*self);
        }
        let listed = self.monitors.len();
        match index {
            None => {
                self.settings.monitor = None;
                self.display_number = 1;
            },
            Some(i) => {
                let name = match self.monitors.get(i) {
                    Some(m) => Some(m.name.clone()),
                    None => None,
                };
                match name {
                    Some(name) => {
                        assert(i < listed);
                        self.settings.monitor = Some(MonitorChoice { index: i, name });
                        self.display_number = i + 1;
                    },
                    None => {},
                }
            },
        }
    }

    /// Chooses a display by number, whether or not the editor can see it:
    /// one it cannot see is called "Display n", counting from one.
    pub fn choose_index(&mut self, index: usize)
        requires
            index < usize::MAX,
        ensures
            final(self).spec_choice() matches Some(c) && c.index == index && c.name@ == if index
                < old(self).spec_monitors().len() {
                old(self).spec_monitors()[index as int].name@
            } else {
                "Display "@ + decimal((index + 1) as nat)
            },
            final(self).spec_display_number() == index + 1,
            final(self).spec_monitors() == old(self).spec_monitors(),
            final(self).spec_persisted() == old(self).spec_persisted(),
    {
        proof {
            use_type_invariant(&*self);
        }
        let name = match self.monitors.get(index) {
            Some(m) => m.name.clone(),
            None => concat("Display ", decimal_text(index as u64 + 1).as_str()),
        };
        self.settings.monitor = Some(MonitorChoice { index, name });
        self.display_number = index + 1;
    }

    /// The number in the picker's display-number box, from one.
    pub fn display_number(&self) -> (r: usize)
        ensures
            r == self.spec_display_number(),
            r >= 1,
    {
        proof {
            use_type_invariant(self);
        }
        self.display_number
    }

    /// Whether `current`, the choice as a file's text, differs from what was
    /// last read or written. A choice never loaded or saved counts as
    /// changed, so a first run writes the file once.
    pub fn is_dirty(&self, current: &str) -> (r: bool)
        ensures
            r == (self.spec_persisted() != Some(current@)),
    {
        match &self.persisted {
            Some(saved) => !crate::text::str_eq(saved.as_str(), current),
            None => true,
        }
    }

    /// Records that `text` is now what the file holds.
    pub fn mark_persisted(&mut self, text: String)
        ensures
            final(self).spec_persisted() == Some(text@),
            final(self).spec_choice() == old(self).spec_choice(),
            final(self).spec_monitors() == old(self).spec_monitors(),
            final(self).spec_display_number() == old(self).spec_display_number(),
    {
        proof {
            use_type_invariant(&*self);
        }
        self.persisted = Some(text);
    }
}

/// The path `fullscreen.json` is read from and written to, if there is a
/// config directory.
pub fn fullscreen_path(env: &ConfigEnv) -> (r: Option<String>)
    ensures
        match r {
            Some(s) => match spec_config_dir(*env) {
                Some(d) => s@ == join_path(d, FULLSCREEN_FILE_NAME@, env.platform),
                None => false,
            },
            None => spec_config_dir(*env) is None,
        },
{
    match config_dir(env) {
        Some(dir) => Some(join(dir.as_str(), FULLSCREEN_FILE_NAME, env.platform)),
        None => None,
    }
}

} // verus!
