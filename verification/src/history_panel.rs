//! The Edit menu and the history panel, as data: the labels of every step
//! in the undo history, how many are applied, and the run of undo or redo
//! steps a click on the panel asks for.
//!
//! Jumping to a point in the panel is walking the existing undo and redo
//! stacks until the position matches, so a jump is made of the same steps a
//! run of Ctrl+Z would take.

use vstd::prelude::*;
use vstd::string::*;

verus! {

/// The label the panel gives the state a project is in before its first
/// command.
pub const ORIGINAL_STATE_LABEL: &'static str = "Open state";

/// What an undone step further down the stack is called when the engine
/// reported only the depth of the stack and not every label.
pub const EARLIER_STEP_LABEL: &'static str = "Earlier edit";

/// What a redoable step further up the stack is called, for the same reason.
pub const LATER_STEP_LABEL: &'static str = "Later edit";

/// The verb of the Edit menu's undo entry.
pub const UNDO_VERB: &'static str = "Undo";

/// The verb of the Edit menu's redo entry.
pub const REDO_VERB: &'static str = "Redo";

/// What the engine reports about its history: the depth of each stack and
/// the label on either side of the cursor.
pub struct HistorySummary {
    /// How many steps can be undone.
    pub undo_len: usize,
    /// How many steps can be redone.
    pub redo_len: usize,
    /// The label of the step an undo would reverse.
    pub undo_label: Option<String>,
    /// The label of the step a redo would replay.
    pub redo_label: Option<String>,
}

/// The views of a list of strings.
pub open spec fn string_views(v: Seq<String>) -> Seq<Seq<char>> {
    v.map_values(|s: String| s@)
}

/// The view of an optional string.
pub open spec fn opt_view(o: Option<String>) -> Option<Seq<char>> {
    match o {
        Some(s) => Some(s@),
        None => None,
    }
}

/// The label the list built from a summary gives step `i`.
pub open spec fn summary_label(summary: HistorySummary, i: int) -> Seq<char> {
    if i < summary.undo_len {
        if i == summary.undo_len - 1 && summary.undo_label is Some {
            summary.undo_label->0@
        } else {
            EARLIER_STEP_LABEL@
        }
    } else {
        if i == summary.undo_len && summary.redo_label is Some {
            summary.redo_label->0@
        } else {
            LATER_STEP_LABEL@
        }
    }
}

/// "Undo Trim clip", or "Undo" when there is no command.
pub open spec fn menu_text(verb: Seq<char>, command: Option<Seq<char>>) -> Seq<char> {
    match command {
        Some(name) => verb + seq![' '] + name,
        None => verb,
    }
}

/// The history as the Edit menu and the history panel see it: every step's
/// label, oldest first, and how many of them are currently applied.
///
/// Entries before [`HistoryList::position`] are applied; entries from it
/// onwards have been undone and would be redone in list order.
pub struct HistoryList {
    labels: Vec<String>,
    position: usize,
}

impl HistoryList {
    /// The labels of every step, oldest first.
    pub closed spec fn spec_labels(&self) -> Seq<Seq<char>> {
        string_views(self.labels@)
    }

    /// How many steps are applied.
    pub closed spec fn spec_position(&self) -> nat {
        self.position as nat
    }

    /// The position never passes the end of the list, however the list was
    /// built.
    #[verifier::type_invariant]
    pub open spec fn inv(&self) -> bool {
        self.spec_position() <= self.spec_labels().len()
    }

    /// An empty history.
    pub fn empty() -> (r: Self)
        ensures
            r.spec_labels() == Seq::<Seq<char>>::empty(),
            r.spec_position() == 0,
    {
        let r = HistoryList { labels: Vec::new(), position: 0 };
        assert(string_views(r.labels@) =~= Seq::<Seq<char>>::empty());
        r
    }

    /// A list built straight from labels.
    ///
    /// `position` is clamped to the number of labels, because a position past
    /// the end names a step that does not exist.
    pub fn new(labels: Vec<String>, position: usize) -> (r: Self)
        ensures
            r.spec_labels() == string_views(labels@),
            r.spec_position() == if position <= labels.len() { position as nat } else { labels.len() as nat },
    {
        let position = if position <= labels.len() { position } else { labels.len() };
        HistoryList { labels, position }
    }

    /// The list a history's two stacks describe: its undo stack, oldest
    /// first, then its redo stack in the order those steps would be redone;
    /// every undo step is applied.
    pub fn from_stacks(undo: Vec<String>, redo: Vec<String>) -> (r: Self)
        ensures
            r.spec_labels() == string_views(undo@) + string_views(redo@),
            r.spec_position() == undo@.len(),
    {
        let mut labels = undo;
        let position = labels.len();
        let ghost before = labels@;
        let mut rest = redo;
        let ghost added = rest@;
        labels.append(&mut rest);
        assert(string_views(labels@) =~= string_views(before) + string_views(added));
        HistoryList { labels, position }
    }

    /// A list built from what the engine reports about its history: the two
    /// labels either side of the cursor, and generic names for the steps
    /// further away.
    pub fn from_summary(summary: &HistorySummary) -> (r: Self)
        requires
            summary.undo_len + summary.redo_len <= usize::MAX,
        ensures
            r.spec_labels().len() == summary.undo_len + summary.redo_len,
            r.spec_position() == summary.undo_len,
            forall|i: int|
                0 <= i < r.spec_labels().len() ==> #[trigger] r.spec_labels()[i]
                    == summary_label(*summary, i),
    {
        let mut labels: Vec<String> = Vec::new();
        let mut step: usize = 0;
        while step < summary.undo_len
            invariant
                step <= summary.undo_len,
                labels.len() == step,
                forall|i: int|
                    0 <= i < step ==> #[trigger] labels@[i]@ == summary_label(*summary, i),
            decreases summary.undo_len - step,
        {
            let last = step + 1 == summary.undo_len;
            let label = match (&summary.undo_label, last) {
                (Some(label), true) => label.clone(),
                _ => EARLIER_STEP_LABEL.to_string(),
            };
            labels.push(label);
            step = step + 1;
        }
        let mut step: usize = 0;
        while step < summary.redo_len
            invariant
                summary.undo_len + summary.redo_len <= usize::MAX,
                step <= summary.redo_len,
                labels.len() == summary.undo_len + step,
                forall|i: int|
                    0 <= i < summary.undo_len + step ==> #[trigger] labels@[i]@ == summary_label(
                        *summary,
                        i,
                    ),
            decreases summary.redo_len - step,
        {
            let label = match (&summary.redo_label, step == 0) {
                (Some(label), true) => label.clone(),
                _ => LATER_STEP_LABEL.to_string(),
            };
            labels.push(label);
            step = step + 1;
        }
        let r = HistoryList { labels, position: summary.undo_len };
        r
    }

    /// Every step, oldest first, undone ones included.
    pub fn labels(&self) -> (r: &[String])
        ensures
            string_views(r@) == self.spec_labels(),
    {
        self.labels.as_slice()
    }

    /// How many of the steps are applied: the number of undo steps available,
    /// and the position the panel marks as current.
    pub fn position(&self) -> (r: usize)
        ensures
            r == self.spec_position(),
            r <= self.spec_labels().len(),
    {
        proof {
            use_type_invariant(self);
        }
        self.position
    }

    /// The number of steps in both stacks together.
    pub fn len(&self) -> (r: usize)
        ensures
            r == self.spec_labels().len(),
            self.spec_position() <= r,
    {
        proof {
            use_type_invariant(self);
        }
        self.labels.len()
    }

    /// Whether the history holds no steps at all.
    pub fn is_empty(&self) -> (r: bool)
        ensures
            r == (self.spec_labels().len() == 0),
    {
        self.labels.len() == 0
    }

    /// Whether a step can be undone.
    pub fn can_undo(&self) -> (r: bool)
        ensures
            r == (self.spec_position() > 0),
    {
        self.position > 0
    }

    /// Whether a step can be redone.
    pub fn can_redo(&self) -> (r: bool)
        ensures
            r == (self.spec_position() < self.spec_labels().len()),
    {
        self.position < self.labels.len()
    }

    /// The label of the step an undo would reverse, when there is one.
    pub open spec fn spec_undo_label(&self) -> Option<Seq<char>> {
        if self.spec_position() > 0 {
            Some(self.spec_labels()[self.spec_position() - 1])
        } else {
            None
        }
    }

    /// The label of the step a redo would replay, when there is one.
    pub open spec fn spec_redo_label(&self) -> Option<Seq<char>> {
        if self.spec_position() < self.spec_labels().len() {
            Some(self.spec_labels()[self.spec_position() as int])
        } else {
            None
        }
    }

    /// The name of the command an undo would reverse.
    pub fn undo_label(&self) -> (r: Option<&str>)
        ensures
            match r {
                Some(s) => self.spec_undo_label() == Some(s@),
                None => self.spec_undo_label() is None,
            },
    {
        proof {
            use_type_invariant(self);
        }
        if self.position > 0 {
            Some(self.labels[self.position - 1].as_str())
        } else {
            None
        }
    }

    /// The name of the command a redo would replay.
    pub fn redo_label(&self) -> (r: Option<&str>)
        ensures
            match r {
                Some(s) => self.spec_redo_label() == Some(s@),
                None => self.spec_redo_label() is None,
            },
    {
        if self.position < self.labels.len() {
            Some(self.labels[self.position].as_str())
        } else {
            None
        }
    }

    /// What the Edit menu's undo entry reads: the command name when there is
    /// one, and the bare verb when there is nothing to undo.
    pub fn undo_menu_label(&self) -> (r: String)
        ensures
            r@ == menu_text(UNDO_VERB@, self.spec_undo_label()),
    {
        menu_label(UNDO_VERB, self.undo_label())
    }

    /// What the Edit menu's redo entry reads.
    pub fn redo_menu_label(&self) -> (r: String)
        ensures
            r@ == menu_text(REDO_VERB@, self.spec_redo_label()),
    {
        menu_label(REDO_VERB, self.redo_label())
    }

    /// Whether the step at `index` is currently applied.
    pub fn is_applied(&self, index: usize) -> (r: bool)
        ensures
            r == (index < self.spec_position()),
    {
        index < self.position
    }
}

impl Default for HistoryList {
    /// An empty history.
    fn default() -> (r: Self)
        ensures
            r.spec_labels() == Seq::<Seq<char>>::empty(),
            r.spec_position() == 0,
    {
        Self::empty()
    }
}

/// "Undo Trim clip", or "Undo" when the stack is empty.
pub fn menu_label(verb: &str, command: Option<&str>) -> (r: String)
    ensures
        r@ == menu_text(
            verb@,
            match command {
                Some(c) => Some(c@),
                None => None,
            },
        ),
{
    let mut text = verb.to_string();
    match command {
        Some(name) => {
            text.append(" ");
            text.append(name);
            proof {
                reveal_strlit(" ");
            }
            assert(text@ =~= verb@ + seq![' '] + name@);
            text
        },
        None => text,
    }
}

/// What the Edit menu or the history panel asks the Command API to do.
///
/// A jump is expressed as a run of steps rather than a target index so the
/// caller needs no history of its own: it undoes or redoes that many times.
#[derive(Debug, Clone, Copy, PartialEq, Eq, Structural)]
pub enum HistoryAction {
    /// Undo this many steps, most recent first. Never zero.
    Undo { steps: usize },
    /// Redo this many steps, oldest first. Never zero.
    Redo { steps: usize },
}

/// Where the history's cursor stands after `action` is walked from
/// `position` in a history of `len` steps, a stack that runs out stopping the
/// walk rather than failing.
pub open spec fn walked_position(position: nat, len: nat, action: HistoryAction) -> nat {
    match action {
        HistoryAction::Undo { steps } => if steps <= position {
            (position - steps) as nat
        } else {
            0
        },
        HistoryAction::Redo { steps } => if position + steps <= len {
            (position + steps) as nat
        } else {
            len
        },
    }
}

/// How many steps walking `action` from `position` actually moves.
pub open spec fn walked_steps(position: nat, len: nat, action: HistoryAction) -> nat {
    match action {
        HistoryAction::Undo { steps } => if steps <= position {
            steps as nat
        } else {
            position
        },
        HistoryAction::Redo { steps } => if position + steps <= len {
            steps as nat
        } else {
            (len - position) as nat
        },
    }
}

impl HistoryAction {
    /// How many steps the action moves.
    pub open spec fn spec_steps(self) -> nat {
        match self {
            HistoryAction::Undo { steps } => steps as nat,
            HistoryAction::Redo { steps } => steps as nat,
        }
    }

    /// The action that moves `list` to `position`, or `None` when the history
    /// is already there or `position` is past the end of the list.
    pub fn to_position(list: &HistoryList, position: usize) -> (r: Option<HistoryAction>)
        ensures
            r is None <==> (position > list.spec_labels().len() || position == list.spec_position()),
            match r {
                Some(HistoryAction::Undo { steps }) => position < list.spec_position() && steps
                    == list.spec_position() - position,
                Some(HistoryAction::Redo { steps }) => position > list.spec_position() && steps
                    == position - list.spec_position(),
                None => true,
            },
    {
        if position > list.len() {
            return None;
        }
        let current = list.position();
        if position < current {
            Some(HistoryAction::Undo { steps: current - position })
        } else if position == current {
            None
        } else {
            Some(HistoryAction::Redo { steps: position - current })
        }
    }

    /// How many steps the action moves.
    pub fn steps(self) -> (r: usize)
        ensures
            r == self.spec_steps(),
    {
        match self {
            HistoryAction::Undo { steps } => steps,
            HistoryAction::Redo { steps } => steps,
        }
    }
}

/// A jump made from the panel reaches exactly the position clicked: the
/// action [`HistoryAction::to_position`] builds, walked step by step through
/// the stacks, moves every step it names and stops on that position.
pub proof fn law_jump_reaches_position(list: &HistoryList, position: nat, action: HistoryAction)
    requires
        position <= usize::MAX,
        HistoryAction::to_position.ensures((list, position as usize), Some(action)),
    ensures
        action.spec_steps() > 0,
        walked_position(list.spec_position(), list.spec_labels().len(), action) == position,
        walked_steps(list.spec_position(), list.spec_labels().len(), action)
            == action.spec_steps(),
{
}

/// Undo and redo are available exactly when the menu names a command:
/// the undo entry names the step just before the position and the redo entry
/// the step at it, and a step is applied exactly when it stands before the
/// position.
pub proof fn law_menu_names_the_neighbours(list: &HistoryList, index: nat)
    ensures
        (list.spec_position() > 0) <==> list.spec_undo_label() is Some,
        (list.spec_position() < list.spec_labels().len()) <==> list.spec_redo_label() is Some,
        list.spec_undo_label() is Some ==> list.spec_position() >= 1 && list.spec_labels()[
            list.spec_position() - 1] == list.spec_undo_label()->0,
{
}

} // verus!
