//! Running the export the panel asks for: at most one at a time, its
//! events folded into the panel, and the count of frames it writes at the
//! preset's own rate.

use vstd::prelude::*;
use crate::export_panel::{next_status, recent_after, recent_views, ExportEvent, ExportPanel, ExportRequest, ExportStatus, PresetSource};
use crate::media_bin::Rational;
use crate::problem::{concat, details_view, Problem, EXPORT_BUSY, EXPORT_PRESET_UNSUPPORTED};

verus! {

/// Whether `e` is the last event an export posts.
pub open spec fn terminal(e: ExportEvent) -> bool {
    e is Finished || e is Cancelled || e is Failed
}

/// Whether `event` is the last one an export posts.
pub fn is_terminal(event: &ExportEvent) -> (r: bool)
    ensures
        r == terminal(*event),
{
    match event {
        ExportEvent::Finished(_) => true,
        ExportEvent::Cancelled { .. } => true,
        ExportEvent::Failed { .. } => true,
        _ => false,
    }
}

/// The status a panel showing `s` shows once `events` are folded in, in
/// order.
pub open spec fn status_after(s: ExportStatus, events: Seq<ExportEvent>) -> ExportStatus
    decreases events.len(),
{
    if events.len() == 0 {
        s
    } else {
        next_status(status_after(s, events.drop_last()), events.last())
    }
}

/// `frames` at the rate `from`, rescaled to the rate `to` and rounded up, so
/// a span that does not land on a whole frame of the new rate is covered
/// rather than clipped; none when it is negative.
pub open spec fn frames_at(frames: int, from: Rational, to: Rational) -> int {
    if from == to {
        if frames < 0 { 0 } else { frames }
    } else {
        let n = frames * from.denominator * to.numerator;
        let d = from.numerator * to.denominator;
        let q = if n % d == 0 { n / d } else { n / d + 1 };
        if q < 0 { 0 } else { q }
    }
}

/// How many frames a span of `frames` at the sequence's rate `from` is at
/// the preset's rate `to`, by exact integer arithmetic.
pub fn frames_total(frames: i64, from: Rational, to: Rational) -> (r: u64)
    requires
        from.numerator > 0,
        from.denominator > 0,
        to.numerator > 0,
        to.denominator > 0,
        frames_at(frames as int, from, to) <= i64::MAX,
    ensures
        r == frames_at(frames as int, from, to),
{
    if from.numerator == to.numerator && from.denominator == to.denominator {
        return if frames < 0 { 0 } else { frames as u64 };
    }
    let fd: i128 = from.denominator as i128;
    let tn: i128 = to.numerator as i128;
    let f: i128 = frames as i128;
    assert(-0x8000_0000_0000_0000 * 0xffff_ffff <= f * fd <= 0x7fff_ffff_ffff_ffff * 0xffff_ffff) by (nonlinear_arith)
        requires
            -0x8000_0000_0000_0000 <= f <= 0x7fff_ffff_ffff_ffff,
            0 < fd <= 0xffff_ffff,
    ;
    let a: i128 = f * fd;
    assert(-0x8000_0000_0000_0000 * 0xffff_ffff * 0xffff_ffff <= a * tn <= 0x7fff_ffff_ffff_ffff * 0xffff_ffff * 0xffff_ffff) by (nonlinear_arith)
        requires
            -0x8000_0000_0000_0000 * 0xffff_ffff <= a <= 0x7fff_ffff_ffff_ffff * 0xffff_ffff,
            0 < tn <= 0xffff_ffff,
    ;
    let n: i128 = a * tn;
    let fnum: i128 = from.numerator as i128;
    let tden: i128 = to.denominator as i128;
    assert(0 < fnum * tden <= 0xffff_ffff * 0xffff_ffff) by (nonlinear_arith)
        requires
            0 < fnum <= 0xffff_ffff,
            0 < tden <= 0xffff_ffff,
    ;
    let d: i128 = fnum * tden;
    assert(n == frames * from.denominator * to.numerator) by (nonlinear_arith)
        requires
            n == a * tn,
            a == f * fd,
            f == frames,
            fd == from.denominator,
            tn == to.numerator,
    ;
    assert(d == from.numerator * to.denominator);
    if n < 0 {
        proof {
            lemma_ceil_negative(n as int, d as int);
        }
        return 0;
    }
    let q = n / d;
    assert(q >= 0) by (nonlinear_arith)
        requires
            q == n / d,
            n >= 0,
            d > 0,
    ;
    assert(q <= n) by (nonlinear_arith)
        requires
            q == n / d,
            n >= 0,
            d > 0,
    ;
    let q = if n % d == 0 { q } else { q + 1 };
    q as u64
}

/// A span's frame count at the preset's rate is the fewest frames that
/// cover it: that many frames last at least as long as the span, and one
/// fewer would not.
pub proof fn law_a_rescaled_count_covers_the_span(frames: int, from: Rational, to: Rational)
    requires
        frames >= 0,
        from.numerator > 0,
        from.denominator > 0,
        to.numerator > 0,
        to.denominator > 0,
    ensures
        ({
            let q = frames_at(frames, from, to);
            let span = frames * from.denominator * to.numerator;
            let frame = from.numerator * to.denominator;
            q * frame >= span && (q > 0 ==> (q - 1) * frame < span)
        }),
{
    let n = frames * from.denominator * to.numerator;
    let d = from.numerator * to.denominator;
    assert(d > 0) by (nonlinear_arith)
        requires
            from.numerator > 0,
            to.denominator > 0,
            d == from.numerator * to.denominator,
    ;
    assert(n >= 0) by (nonlinear_arith)
        requires
            frames >= 0,
            n == frames * from.denominator * to.numerator,
    ;
    if from == to {
        assert(frames * d == n) by (nonlinear_arith)
            requires
                n == frames * from.denominator * to.numerator,
                d == from.numerator * to.denominator,
                from == to,
        ;
        assert((frames - 1) * d < n) by (nonlinear_arith)
            requires
                frames * d == n,
                d > 0,
        ;
    } else {
        let q0 = n / d;
        let r = n % d;
        vstd::arithmetic::div_mod::lemma_fundamental_div_mod(n, d);
        assert(0 <= r < d);
        assert(q0 >= 0) by (nonlinear_arith)
            requires
                n >= 0,
                d > 0,
                q0 == n / d,
        ;
        if r == 0 {
            assert(q0 * d == n) by (nonlinear_arith)
                requires
                    n == d * q0 + r,
                    r == 0,
            ;
            assert((q0 - 1) * d < n) by (nonlinear_arith)
                requires
                    q0 * d == n,
                    d > 0,
            ;
        } else {
            assert((q0 + 1) * d >= n) by (nonlinear_arith)
                requires
                    n == d * q0 + r,
                    r < d,
            ;
            assert(q0 * d < n) by (nonlinear_arith)
                requires
                    n == d * q0 + r,
                    r > 0,
            ;
        }
    }
}

proof fn lemma_ceil_negative(n: int, d: int)
    requires
        n < 0,
        d > 0,
    ensures
        (if n % d == 0 { n / d } else { n / d + 1 }) <= 0,
{
    assert(n / d < 0) by (nonlinear_arith)
        requires
            n < 0,
            d > 0,
    ;
}

/// The refusal an export from a plugin's preset meets: the host cannot turn
/// one into settings yet, and silently using another preset would be worse.
pub open spec fn plugin_preset_problem(preset: Seq<char>, plugin: Seq<char>) -> crate::problem::ProblemView {
    crate::problem::ProblemView {
        code: EXPORT_PRESET_UNSUPPORTED@,
        message: "preset '"@ + preset + "' comes from plugin "@ + plugin
            + ", which cannot render an export yet"@,
        details: seq![("preset"@, preset), ("plugin"@, plugin)],
    }
}

/// Refuses a request whose preset an exporter plugin contributed.
pub fn check_preset_source(request: &ExportRequest) -> (r: Result<(), Problem>)
    ensures
        match request.preset.source {
            PresetSource::Library => r is Ok,
            PresetSource::Plugin { plugin } => r matches Err(p) && p.view_problem()
                == plugin_preset_problem(request.preset.id@, plugin@),
        },
{
    match &request.preset.source {
        PresetSource::Library => Ok(()),
        PresetSource::Plugin { plugin } => {
            let head = concat("preset '", request.preset.id.as_str());
            let head = concat(head.as_str(), "' comes from plugin ");
            let head = concat(head.as_str(), plugin.as_str());
            let message = concat(head.as_str(), ", which cannot render an export yet");
            let p = Problem::new(EXPORT_PRESET_UNSUPPORTED, message)
                .with_detail("preset", request.preset.id.as_str())
                .with_detail("plugin", plugin.as_str());
            assert(details_view(p.details@) =~= seq![
                ("preset"@, request.preset.id@),
                ("plugin"@, plugin@),
            ]);
            Err(p)
        },
    }
}

/// The export the window is running, as a handle `H` to its job.
pub struct ExportRunner<H> {
    running: Option<H>,
}

impl<H> ExportRunner<H> {
    /// The handle of the running export, if one is running.
    pub closed spec fn spec_handle(&self) -> Option<H> {
        self.running
    }

    /// Whether an export is running.
    pub open spec fn spec_running(&self) -> bool {
        self.spec_handle() is Some
    }

    /// A runner with nothing running.
    pub fn new() -> (r: ExportRunner<H>)
        ensures
            !r.spec_running(),
    {
        ExportRunner { running: None }
    }

    /// Whether an export is running right now.
    pub fn is_running(&self) -> (r: bool)
        ensures
            r == self.spec_running(),
    {
        self.running.is_some()
    }

    /// The running job's handle.
    pub fn handle(&self) -> (r: Option<&H>)
        ensures
            r is Some == self.spec_running(),
            r matches Some(h) ==> self.spec_handle() == Some(*h),
    {
        match &self.running {
            Some(h) => Some(h),
            None => None,
        }
    }

    /// Whether a new export may start: refused while one runs, because two
    /// would fight for the encoder.
    pub fn check_free(&self) -> (r: Result<(), Problem>)
        ensures
            r is Err <==> self.spec_running(),
            r matches Err(p) ==> p.view_problem().code == EXPORT_BUSY@
                && p.view_problem().message
                == "an export is already running; cancel it before starting another"@,
    {
        if self.running.is_some() {
            return Err(
                Problem::new(
                    EXPORT_BUSY,
                    "an export is already running; cancel it before starting another".to_string(),
                ),
            );
        }
        Ok(())
    }

    /// Records the job just started.
    pub fn started(&mut self, handle: H)
        requires
            !old(self).spec_running(),
        ensures
            final(self).spec_handle() == Some(handle),
    {
        self.running = Some(handle);
    }

    /// Hands the events the running export posted this frame to `panel`,
    /// in order, and returns how many were applied. The handle is dropped on
    /// a terminal event, or when the job ended without one (`finished`), so
    /// the runner is free the moment the panel knows how the export ended.
    pub fn poll(&mut self, events: Vec<ExportEvent>, finished: bool, panel: &mut ExportPanel) -> (r: usize)
        ensures
            !old(self).spec_running() ==> r == 0 && !final(self).spec_running()
                && *final(panel) == *old(panel),
            old(self).spec_running() ==> r == events@.len() && (final(self).spec_running() <==> !(
            finished || exists|i: int| 0 <= i < events@.len() && terminal(#[trigger] events@[i])))
                && final(panel).spec_status() == status_after(old(panel).spec_status(), events@)
                && (recent_views(final(panel).spec_recent()), final(panel).spec_running_preset())
                == recent_after(
                (recent_views(old(panel).spec_recent()), old(panel).spec_running_preset()),
                old(panel).selected_name(),
                events@,
            ),
            final(panel).spec_problems() == old(panel).spec_problems(),
            final(panel).spec_unavailable() == old(panel).spec_unavailable(),
            final(panel).spec_presets() == old(panel).spec_presets(),
            final(panel).spec_selected() == old(panel).spec_selected(),
            final(panel).spec_sequence() == old(panel).spec_sequence(),
            final(panel).spec_range() == old(panel).spec_range(),
            final(panel).spec_in_out() == old(panel).spec_in_out(),
            final(panel).spec_output() == old(panel).spec_output(),
            final(panel).spec_encoder_override() == old(panel).spec_encoder_override(),
    {
        proof {
            use_type_invariant(&*panel);
        }
        if self.running.is_none() {
            return 0;
        }
        let ghost all = events@;
        let total = events.len();
        let mut rest = events;
        let mut applied: usize = 0;
        let mut ended = false;
        while rest.len() > 0
            invariant
                old(self).spec_running(),
                applied + rest@.len() == all.len(),
                all.len() == total,
                rest@ == all.subrange(applied as int, all.len() as int),
                panel.wf(),
                ended == exists|i: int| 0 <= i < applied && terminal(#[trigger] all[i]),
                panel.spec_status() == status_after(
                    old(panel).spec_status(),
                    all.subrange(0, applied as int),
                ),
                (recent_views(panel.spec_recent()), panel.spec_running_preset()) == recent_after(
                    (recent_views(old(panel).spec_recent()), old(panel).spec_running_preset()),
                    old(panel).selected_name(),
                    all.subrange(0, applied as int),
                ),
                panel.spec_problems() == old(panel).spec_problems(),
                panel.spec_unavailable() == old(panel).spec_unavailable(),
                panel.spec_presets() == old(panel).spec_presets(),
                panel.spec_selected() == old(panel).spec_selected(),
                panel.spec_sequence() == old(panel).spec_sequence(),
                panel.spec_range() == old(panel).spec_range(),
                panel.spec_in_out() == old(panel).spec_in_out(),
                panel.spec_output() == old(panel).spec_output(),
                panel.spec_encoder_override() == old(panel).spec_encoder_override(),
            decreases rest@.len(),
        {
            let event = rest.remove(0);
            let ghost e = event;
            assert(e == all[applied as int]);
            assert(all.subrange(0, applied + 1 as int).drop_last() =~= all.subrange(
                0,
                applied as int,
            ));
            let t = is_terminal(&event);
            panel.apply_event(event);
            proof {
                if t {
                    assert(terminal(all[applied as int]));
                }
                if exists|i: int| 0 <= i < applied + 1 && terminal(#[trigger] all[i]) {
                    if !t {
                        let i = choose|i: int| 0 <= i < applied + 1 && terminal(#[trigger] all[i]);
                        assert(i < applied);
                    }
                }
            }
            ended = ended || t;
            applied = applied + 1;
        }
        assert(all.subrange(0, all.len() as int) =~= all);
        if ended || finished {
            self.running = None;
        }
        applied
    }
}

} // verus!
