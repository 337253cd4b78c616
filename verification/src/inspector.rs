//! The inspector's fields, and the gesture rules that keep one drag on a
//! slider to one undo step.
//!
//! A gesture has three moments: the first change opens a history group,
//! every change raises the edit so it is live, and letting go commits the
//! group. The panel owns no parameter values, only which gesture is open.

use vstd::prelude::*;
use crate::text::str_eq;

verus! {

/// The heading over the effect stack.
pub const EFFECTS_HEADING: &'static str = "Effects";

/// Shown when the anchor clip has no effects.
pub const NO_EFFECTS_LABEL: &'static str = "No effects on this clip.";

/// The menu that applies a plugin's effect.
pub const ADD_EFFECT_LABEL: &'static str = "Add effect";

/// Shown in that menu when no effect plugin is installed.
pub const NO_EFFECT_PLUGINS_LABEL: &'static str = "No effect plugins installed.";

/// The button that moves an effect up the stack.
pub const MOVE_UP_LABEL: &'static str = "Move up";

/// The button that moves an effect down the stack.
pub const MOVE_DOWN_LABEL: &'static str = "Move down";

/// The button that takes an effect off the clip.
pub const REMOVE_EFFECT_LABEL: &'static str = "Remove";

/// Shown for an effect whose plugin has not declared its parameters yet.
pub const UNDECLARED_LABEL: &'static str = "Parameters appear once the plugin loads.";

/// The history entry an effect parameter gesture makes.
pub const EFFECT_PARAM_UNDO_LABEL: &'static str = "Change effect parameter";

/// One editable parameter in the inspector.
#[derive(Debug, Clone, Copy, PartialEq, Eq, Structural, PartialOrd, Ord, Hash)]
pub enum InspectorField {
    /// How opaque the picture is, from 0 to 1.
    Opacity,
    /// Horizontal offset of the clip centre from the canvas centre.
    PositionX,
    /// Vertical offset of the clip centre from the canvas centre.
    PositionY,
    /// Horizontal scale factor.
    ScaleX,
    /// Vertical scale factor.
    ScaleY,
    /// Clockwise rotation about the clip centre, in degrees.
    Rotation,
    /// Clip audio level, in decibels.
    Gain,
    /// How long the clip ramps up at its head, in frames.
    FadeIn,
    /// How long the clip ramps down at its tail, in frames.
    FadeOut,
}

/// Every field, in the order the panel paints them.
pub open spec fn all_fields() -> Seq<InspectorField> {
    seq![
        InspectorField::Opacity,
        InspectorField::PositionX,
        InspectorField::PositionY,
        InspectorField::ScaleX,
        InspectorField::ScaleY,
        InspectorField::Rotation,
        InspectorField::Gain,
        InspectorField::FadeIn,
        InspectorField::FadeOut,
    ]
}

/// The label a field's slider carries.
pub open spec fn field_label(f: InspectorField) -> Seq<char> {
    match f {
        InspectorField::Opacity => "Opacity"@,
        InspectorField::PositionX => "Position X"@,
        InspectorField::PositionY => "Position Y"@,
        InspectorField::ScaleX => "Scale X"@,
        InspectorField::ScaleY => "Scale Y"@,
        InspectorField::Rotation => "Rotation"@,
        InspectorField::Gain => "Gain"@,
        InspectorField::FadeIn => "Fade in"@,
        InspectorField::FadeOut => "Fade out"@,
    }
}

/// The history entry a gesture on a field makes; the two axes of a
/// position or a scale share one.
pub open spec fn field_undo_label(f: InspectorField) -> Seq<char> {
    match f {
        InspectorField::Opacity => "Change opacity"@,
        InspectorField::PositionX | InspectorField::PositionY => "Change position"@,
        InspectorField::ScaleX | InspectorField::ScaleY => "Change scale"@,
        InspectorField::Rotation => "Change rotation"@,
        InspectorField::Gain => "Change gain"@,
        InspectorField::FadeIn => "Change fade in"@,
        InspectorField::FadeOut => "Change fade out"@,
    }
}

impl InspectorField {
    /// Every field, in the order the panel paints them.
    pub fn all() -> (r: Vec<InspectorField>)
        ensures
            r@ == all_fields(),
    {
        let r = vec![
            InspectorField::Opacity,
            InspectorField::PositionX,
            InspectorField::PositionY,
            InspectorField::ScaleX,
            InspectorField::ScaleY,
            InspectorField::Rotation,
            InspectorField::Gain,
            InspectorField::FadeIn,
            InspectorField::FadeOut,
        ];
        assert(r@ =~= all_fields());
        r
    }

    /// The label the slider carries.
    pub fn label(self) -> (r: &'static str)
        ensures
            r@ == field_label(self),
    {
        match self {
            InspectorField::Opacity => "Opacity",
            InspectorField::PositionX => "Position X",
            InspectorField::PositionY => "Position Y",
            InspectorField::ScaleX => "Scale X",
            InspectorField::ScaleY => "Scale Y",
            InspectorField::Rotation => "Rotation",
            InspectorField::Gain => "Gain",
            InspectorField::FadeIn => "Fade in",
            InspectorField::FadeOut => "Fade out",
        }
    }

    /// The label of the one history entry a gesture on this field makes.
    pub fn undo_label(self) -> (r: &'static str)
        ensures
            r@ == field_undo_label(self),
    {
        match self {
            InspectorField::Opacity => "Change opacity",
            InspectorField::PositionX | InspectorField::PositionY => "Change position",
            InspectorField::ScaleX | InspectorField::ScaleY => "Change scale",
            InspectorField::Rotation => "Change rotation",
            InspectorField::Gain => "Change gain",
            InspectorField::FadeIn => "Change fade in",
            InspectorField::FadeOut => "Change fade out",
        }
    }
}

/// A value an applied effect has bound to one parameter.
#[derive(Debug, Clone, Copy, PartialEq, Eq, Structural)]
pub enum EffectValue {
    /// A number, in millionths.
    Float(i64),
    /// A whole number.
    Int(i32),
    /// A flag.
    Bool(bool),
    /// The index of one variant of a choice.
    Choice(u32),
    /// A colour: red, green, blue and alpha, each in millionths.
    Color(i64, i64, i64, i64),
}

/// The whole number bound to a parameter, or the declared default when the
/// effect binds none or binds a value of another shape.
pub fn int_of(bound: Option<EffectValue>, default: i32) -> (r: i32)
    ensures
        r == match bound {
            Some(EffectValue::Int(v)) => v,
            _ => default,
        },
{
    match bound {
        Some(EffectValue::Int(v)) => v,
        _ => default,
    }
}

/// The flag bound to a parameter, or the declared default.
pub fn bool_of(bound: Option<EffectValue>, default: bool) -> (r: bool)
    ensures
        r == match bound {
            Some(EffectValue::Bool(v)) => v,
            _ => default,
        },
{
    match bound {
        Some(EffectValue::Bool(v)) => v,
        _ => default,
    }
}

/// The chosen variant of a parameter with `variants` variants, or the
/// declared default: a bound index the declaration no longer holds falls
/// back rather than painting an empty choice.
pub fn choice_of(bound: Option<EffectValue>, default: u32, variants: usize) -> (r: u32)
    ensures
        r == match bound {
            Some(EffectValue::Choice(i)) => if (i as int) < variants {
                i
            } else {
                default
            },
            _ => default,
        },
{
    match bound {
        Some(EffectValue::Choice(i)) => {
            if (i as u64) < (variants as u64) {
                i
            } else {
                default
            }
        },
        _ => default,
    }
}

/// What one widget reported this frame.
#[derive(Debug, Clone, Copy, PartialEq, Eq, Structural)]
pub struct WidgetSignals {
    /// Its value changed.
    pub changed: bool,
    /// A drag is in progress on it.
    pub dragged: bool,
    /// A drag on it started this frame.
    pub drag_started: bool,
    /// A drag on it stopped this frame.
    pub drag_stopped: bool,
    /// It lost keyboard focus.
    pub lost_focus: bool,
}

/// Whether the gesture on a widget ends this frame: the pointer let go, the
/// widget lost focus, or the change came from something that is not a drag
/// at all (a click on the track, an arrow key, a typed value). A drag in
/// progress is the only thing that holds a gesture open.
pub open spec fn released(s: WidgetSignals) -> bool {
    s.drag_stopped || s.lost_focus || (s.changed && !(s.dragged || s.drag_started))
}

/// What one widget's frame asks of the history.
#[derive(Debug, Clone, Copy)]
pub struct GestureStep {
    /// A gesture opened: begin a history group with this label.
    pub begin: Option<&'static str>,
    /// The value changed: raise the edit now, so it is live.
    pub raise: bool,
    /// The gesture ended: commit the group as one undo step.
    pub commit: bool,
}

/// The widget an effect parameter gesture is open on: a colour is four
/// sliders, so the channel is part of its identity.
pub struct ParamKey {
    /// The applied effect the parameter belongs to.
    pub effect: u64,
    /// The parameter id, as the plugin declared it.
    pub param: String,
    /// Which channel of a colour, when the parameter is one.
    pub channel: Option<usize>,
}

/// Whether two keys name the same widget.
pub open spec fn same_key(a: ParamKey, b: ParamKey) -> bool {
    a.effect == b.effect && a.param@ == b.param@ && a.channel == b.channel
}

fn keys_equal(a: &ParamKey, b: &ParamKey) -> (r: bool)
    ensures
        r == same_key(*a, *b),
{
    a.effect == b.effect && str_eq(a.param.as_str(), b.param.as_str()) && a.channel == b.channel
}

/// The inspector: which gesture is open, on a field or on an effect
/// parameter.
pub struct InspectorPanel {
    gesture: Option<InspectorField>,
    param_gesture: Option<ParamKey>,
}

impl InspectorPanel {
    /// The field gesture open, if any.
    pub closed spec fn spec_gesture(&self) -> Option<InspectorField> {
        self.gesture
    }

    /// The effect parameter gesture open, if any.
    pub closed spec fn spec_param_gesture(&self) -> Option<ParamKey> {
        self.param_gesture
    }

    /// A panel with no gesture open.
    pub fn new() -> (r: InspectorPanel)
        ensures
            r.spec_gesture() is None,
            r.spec_param_gesture() is None,
    {
        InspectorPanel { gesture: None, param_gesture: None }
    }

    /// The field a gesture is open on, if one is.
    pub fn gesture(&self) -> (r: Option<InspectorField>)
        ensures
            r == self.spec_gesture(),
    {
        self.gesture
    }

    /// Whether a gesture is open on an effect parameter.
    pub fn editing_effect_param(&self) -> (r: bool)
        ensures
            r == self.spec_param_gesture() is Some,
    {
        self.param_gesture.is_some()
    }

    /// Drops any open gesture: the clips it was on are gone.
    pub fn forget(&mut self)
        ensures
            final(self).spec_gesture() is None,
            final(self).spec_param_gesture() is None,
    {
        self.gesture = None;
        self.param_gesture = None;
    }

    /// Folds one field slider's frame into the gesture.
    ///
    /// The first change opens a gesture on the field, named by the field's
    /// undo label; every change raises the edit; a release of the field the
    /// gesture is open on commits it.
    pub fn field_step(&mut self, field: InspectorField, s: WidgetSignals) -> (r: GestureStep)
        ensures
            r.raise == s.changed,
            r.begin is Some <==> (s.changed && old(self).spec_gesture() is None),
            r.begin matches Some(l) ==> l@ == field_undo_label(field),
            r.commit <==> (released(s) && (if s.changed && old(self).spec_gesture() is None {
                true
            } else {
                old(self).spec_gesture() == Some(field)
            })),
            final(self).spec_gesture() == if r.commit {
                None
            } else if r.begin is Some {
                Some(field)
            } else {
                old(self).spec_gesture()
            },
            released(s) ==> final(self).spec_gesture() != Some(field),
            final(self).spec_param_gesture() == old(self).spec_param_gesture(),
    {
        let mut begin: Option<&'static str> = None;
        if s.changed && self.gesture.is_none() {
            self.gesture = Some(field);
            begin = Some(field.undo_label());
        }
        let still_dragging = s.dragged || s.drag_started;
        let released = s.drag_stopped || s.lost_focus || (s.changed && !still_dragging);
        let mut commit = false;
        if self.gesture == Some(field) && released {
            self.gesture = None;
            commit = true;
        }
        GestureStep { begin, raise: s.changed, commit }
    }

    /// Folds one effect parameter widget's frame into the gesture: the
    /// same three moments, opened only when no other gesture is.
    pub fn param_step(&mut self, key: ParamKey, s: WidgetSignals) -> (r: GestureStep)
        ensures
            r.raise == s.changed,
            r.begin is Some <==> (s.changed && old(self).spec_param_gesture() is None && old(
                self,
            ).spec_gesture() is None),
            r.begin matches Some(l) ==> l@ == EFFECT_PARAM_UNDO_LABEL@,
            r.commit <==> (released(s) && (r.begin is Some || (old(
                self,
            ).spec_param_gesture() matches Some(k) && same_key(k, key)))),
            r.commit ==> final(self).spec_param_gesture() is None,
            !r.commit && r.begin is Some ==> final(self).spec_param_gesture() == Some(key),
            !r.commit && r.begin is None ==> final(self).spec_param_gesture() == old(
                self,
            ).spec_param_gesture(),
            final(self).spec_gesture() == old(self).spec_gesture(),
    {
        let mut begin: Option<&'static str> = None;
        let still_dragging = s.dragged || s.drag_started;
        let released = s.drag_stopped || s.lost_focus || (s.changed && !still_dragging);
        let open_here = match &self.param_gesture {
            Some(k) => keys_equal(k, &key),
            None => false,
        };
        if s.changed && self.param_gesture.is_none() && self.gesture.is_none() {
            begin = Some(EFFECT_PARAM_UNDO_LABEL);
            if released {
                return GestureStep { begin, raise: true, commit: true };
            }
            self.param_gesture = Some(key);
            return GestureStep { begin, raise: true, commit: false };
        }
        if open_here && released {
            self.param_gesture = None;
            return GestureStep { begin, raise: s.changed, commit: true };
        }
        GestureStep { begin, raise: s.changed, commit: false }
    }
}

/// One edit to the anchor clip's effect stack: the panel raises these
/// rather than applying them.
pub enum EffectEdit {
    /// Apply this plugin's effect to the clip, at the end of the stack.
    Add { plugin: String },
    /// Move an applied effect to another place in the stack.
    Move { effect: u64, to: usize },
    /// Take an applied effect off the clip.
    Remove { effect: u64 },
    /// Bind one parameter of one applied effect.
    SetParam { effect: u64, param: String, value: EffectValue },
}

/// The history entry an effect edit makes.
pub open spec fn effect_edit_label(e: EffectEdit) -> Seq<char> {
    match e {
        EffectEdit::Add { .. } => "Add effect"@,
        EffectEdit::Move { .. } => "Reorder effect"@,
        EffectEdit::Remove { .. } => "Remove effect"@,
        EffectEdit::SetParam { .. } => "Change effect parameter"@,
    }
}

impl EffectEdit {
    /// The label of the one history entry this edit makes.
    pub fn undo_label(&self) -> (r: &'static str)
        ensures
            r@ == effect_edit_label(*self),
    {
        match self {
            EffectEdit::Add { .. } => "Add effect",
            EffectEdit::Move { .. } => "Reorder effect",
            EffectEdit::Remove { .. } => "Remove effect",
            EffectEdit::SetParam { .. } => "Change effect parameter",
        }
    }
}

/// What the inspector asks of the history this frame: a gesture's begin,
/// the clip edits `C` and the effect edits to apply now, and its commit.
pub struct InspectorResponse<C> {
    /// A gesture began: open a history group with this label.
    pub begin: Option<String>,
    /// The clip edits to apply now, in selection order.
    pub commands: Vec<C>,
    /// The effect-stack edits to apply now, in the order raised.
    pub effects: Vec<EffectEdit>,
    /// The gesture ended: commit the open group as one undo step.
    pub commit: bool,
}

impl<C> InspectorResponse<C> {
    /// A frame that asks for nothing.
    pub fn new() -> (r: InspectorResponse<C>)
        ensures
            r.begin is None,
            r.commands@.len() == 0,
            r.effects@.len() == 0,
            !r.commit,
    {
        InspectorResponse { begin: None, commands: Vec::new(), effects: Vec::new(), commit: false }
    }

    /// Whether the frame asked for nothing at all, which is the usual case.
    pub fn is_empty(&self) -> (r: bool)
        ensures
            r == (self.begin is None && self.commands@.len() == 0 && self.effects@.len() == 0
                && !self.commit),
    {
        self.begin.is_none() && self.commands.len() == 0 && self.effects.len() == 0 && !self.commit
    }

    /// Raises one whole effect edit as its own history entry, opened and
    /// committed on this frame: a click cannot arrive while a drag is open.
    pub fn raise(&mut self, edit: EffectEdit)
        ensures
            final(self).begin == match old(self).begin {
                Some(b) => Some(b),
                None => Some(final(self).begin->0),
            },
            old(self).begin is None ==> final(self).begin->0@ == effect_edit_label(edit),
            final(self).effects@ == old(self).effects@.push(edit),
            final(self).commands@ == old(self).commands@,
            final(self).commit,
    {
        if self.begin.is_none() {
            self.begin = Some(edit.undo_label().to_string());
        }
        self.effects.push(edit);
        self.commit = true;
    }
}

/// Where the Move up and Move down buttons of the effect at `index`, in a
/// stack of `count`, move it to: nowhere past either end.
pub fn effect_moves(index: usize, count: usize) -> (r: (Option<usize>, Option<usize>))
    requires
        index < count,
    ensures
        r.0 == if index > 0 { Some((index - 1) as usize) } else { None::<usize> },
        r.1 == if index + 1 < count { Some((index + 1) as usize) } else { None::<usize> },
{
    let up = if index > 0 { Some(index - 1) } else { None };
    let down = if index + 1 < count { Some(index + 1) } else { None };
    (up, down)
}

} // verus!
