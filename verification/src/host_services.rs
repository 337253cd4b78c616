//! The bookkeeping behind exports an agent asks the running editor for: at
//! most one reserved at a time, a job id for each, and the status table
//! `export.progress` reads, fed from what the export panel shows.
//!
//! Nothing here blocks or locks: the host keeps this state behind its own
//! lock, and the window drains the queue once a frame.

use vstd::prelude::*;
use crate::export_panel::ExportStatus as PanelStatus;
use crate::problem::{concat, Problem, EXPORT_BUSY};
use crate::text::{decimal, decimal_text, str_eq};

verus! {

/// An export's status as the Command API reports it.
pub struct WireStatus {
    /// The job id.
    pub job: String,
    /// `running`, `completed`, `cancelled` or `failed`.
    pub state: String,
    /// The file being written.
    pub output: String,
    /// Frames written so far.
    pub frames_done: u64,
    /// Frames expected, or zero when unknown.
    pub frames_total: u64,
    /// Why it failed, when it did.
    pub error: Option<Problem>,
}

/// The running status of `job` writing `output`.
pub open spec fn running_view(job: Seq<char>, output: Seq<char>, done: u64, total: u64) -> (
    Seq<char>,
    Seq<char>,
    Seq<char>,
    u64,
    u64,
) {
    (job, "running"@, output, done, total)
}

/// A status's job, state, output and counts.
pub open spec fn wire_view(s: WireStatus) -> (Seq<char>, Seq<char>, Seq<char>, u64, u64) {
    (s.job@, s.state@, s.output@, s.frames_done, s.frames_total)
}

fn status_of(job: &str, state: &str, output: &str, done: u64, total: u64, error: Option<Problem>) -> (r: WireStatus)
    ensures
        wire_view(r) == (job@, state@, output@, done, total),
        r.error == error,
{
    WireStatus {
        job: job.to_string(),
        state: state.to_string(),
        output: output.to_string(),
        frames_done: done,
        frames_total: total,
        error,
    }
}

/// What the wire status of `job` becomes when the panel shows `panel`:
/// nothing new while it is idle; otherwise its state and counts, the output
/// and total carried over from `previous` where the panel state has none.
pub open spec fn wire_of(job: Seq<char>, panel: PanelStatus, previous: Option<WireStatus>) -> Option<
    ((Seq<char>, Seq<char>, Seq<char>, u64, u64), Option<Problem>),
> {
    let output = match previous {
        Some(p) => p.output@,
        None => Seq::<char>::empty(),
    };
    let total = match previous {
        Some(p) => p.frames_total,
        None => 0u64,
    };
    match panel {
        PanelStatus::Idle => None,
        PanelStatus::Running { path, frames_total, progress } => Some(
            (
                (job, "running"@, path@, match progress {
                    Some(p) => p.frames_done,
                    None => 0u64,
                }, frames_total),
                None,
            ),
        ),
        PanelStatus::Finished(report) => Some(
            ((job, "completed"@, report.path@, report.video_frames, report.video_frames), None),
        ),
        PanelStatus::Cancelled { frames_done } => Some(
            ((job, "cancelled"@, output, frames_done, total), None),
        ),
        PanelStatus::Failed { error, frames_done } => Some(
            ((job, "failed"@, output, frames_done, total), Some(error)),
        ),
    }
}

/// The error a failed status carries.
fn copy_problem(p: &Problem) -> (r: Problem)
    ensures
        r.view_problem() == p.view_problem(),
{
    let mut out = Problem::new(p.code.as_str(), p.message.clone());
    let mut i: usize = 0;
    while i < p.details.len()
        invariant
            i <= p.details@.len(),
            out.code@ == p.code@,
            out.message@ == p.message@,
            crate::problem::details_view(out.details@) == crate::problem::details_view(
                p.details@.subrange(0, i as int),
            ),
        decreases p.details@.len() - i,
    {
        let (name, value) = (&p.details[i].0, &p.details[i].1);
        out = out.with_detail(name.as_str(), value.as_str());
        assert(crate::problem::details_view(p.details@.subrange(0, i + 1 as int))
            =~= crate::problem::details_view(p.details@.subrange(0, i as int)).push(
            (name@, value@),
        ));
        i = i + 1;
    }
    assert(p.details@.subrange(0, p.details@.len() as int) =~= p.details@);
    out
}

/// The wire status the panel's status describes for `job`, or `None` when
/// the panel has nothing new to say.
pub fn wire_status(job: &str, panel: &PanelStatus, previous: Option<&WireStatus>) -> (r: Option<
    WireStatus,
>)
    ensures
        match (r, wire_of(job@, *panel, match previous {
            Some(p) => Some(*p),
            None => None,
        })) {
            (None, None) => true,
            (Some(s), Some((v, e))) => wire_view(s) == v && match (s.error, e) {
                (None, None) => true,
                (Some(a), Some(b)) => a.view_problem() == b.view_problem(),
                _ => false,
            },
            _ => false,
        },
        r is None <==> *panel is Idle,
        match r {
            Some(s) => s.job@ == job@ && (s.state@ == "running"@ <==> *panel is Running),
            None => true,
        },
{
    proof {
        reveal_strlit("running");
        reveal_strlit("completed");
        reveal_strlit("cancelled");
        reveal_strlit("failed");
    }
    let output: &str = match previous {
        Some(p) => p.output.as_str(),
        None => "",
    };
    let total: u64 = match previous {
        Some(p) => p.frames_total,
        None => 0,
    };
    proof {
        reveal_strlit("");
        assert(output@ == match previous {
            Some(p) => p.output@,
            None => Seq::<char>::empty(),
        });
    }
    match panel {
        PanelStatus::Idle => None,
        PanelStatus::Running { path, frames_total, progress } => {
            let done: u64 = match progress {
                Some(p) => p.frames_done,
                None => 0,
            };
            Some(status_of(job, "running", path.as_str(), done, *frames_total, None))
        },
        PanelStatus::Finished(report) => {
            let s = status_of(
                job,
                "completed",
                report.path.as_str(),
                report.video_frames,
                report.video_frames,
                None,
            );
            assert(s.state@.len() == 9);
            Some(s)
        },
        PanelStatus::Cancelled { frames_done } => {
            let s = status_of(job, "cancelled", output, *frames_done, total, None);
            assert(s.state@.len() == 9);
            Some(s)
        },
        PanelStatus::Failed { error, frames_done } => {
            let s = status_of(job, "failed", output, *frames_done, total, Some(copy_problem(error)));
            assert(s.state@.len() == 6);
            Some(s)
        },
    }
}

/// Whether the status `s` is the one `w` describes: its job, state,
/// output and counts, and the same error.
pub open spec fn shows(
    s: WireStatus,
    w: Option<((Seq<char>, Seq<char>, Seq<char>, u64, u64), Option<Problem>)>,
) -> bool {
    match w {
        Some((v, e)) => wire_view(s) == v && match (s.error, e) {
            (None, None) => true,
            (Some(a), Some(b)) => a.view_problem() == b.view_problem(),
            _ => false,
        },
        None => false,
    }
}

/// The status recorded for `job` in `s`, if there is one.
pub open spec fn previous_status(s: Seq<WireStatus>, job: Seq<char>) -> Option<WireStatus> {
    match status_index(s, job) {
        Some(k) => Some(s[k]),
        None => None,
    }
}

/// The id the `n`th job asked for is given.
pub open spec fn job_id(n: nat) -> Seq<char> {
    "export-"@ + decimal(n)
}

/// The exports agents have asked this editor for: what is queued for the
/// window to start, which one is reserved, and every status by job id.
pub struct ExportDesk<Q> {
    running: Option<String>,
    queue: Vec<(String, Q)>,
    exports: Vec<WireStatus>,
    next_job: u64,
}

/// The index of the status of `job` in `s`.
pub open spec fn status_index(s: Seq<WireStatus>, job: Seq<char>) -> Option<int> {
    if exists|i: int| 0 <= i < s.len() && s[i].job@ == job {
        Some(choose|i: int| 0 <= i < s.len() && s[i].job@ == job)
    } else {
        None
    }
}

impl<Q> ExportDesk<Q> {
    /// The job reserved, if any.
    pub closed spec fn spec_running(&self) -> Option<Seq<char>> {
        match self.running {
            Some(j) => Some(j@),
            None => None,
        }
    }

    /// What is queued for the window, oldest first, each with its job id.
    pub closed spec fn spec_queue(&self) -> Seq<(String, Q)> {
        self.queue@
    }

    /// Every status, one per job.
    pub closed spec fn spec_exports(&self) -> Seq<WireStatus> {
        self.exports@
    }

    /// The number the next job gets.
    pub closed spec fn spec_next(&self) -> u64 {
        self.next_job
    }

    /// No job's status is recorded twice.
    #[verifier::type_invariant]
    pub open spec fn wf(&self) -> bool {
        forall|i: int, j: int|
            0 <= i < j < self.spec_exports().len() ==> (#[trigger] self.spec_exports()[i]).job@
                != (#[trigger] self.spec_exports()[j]).job@
    }

    /// Nothing queued, nothing running; the first job is number one.
    pub fn new() -> (r: ExportDesk<Q>)
        ensures
            r.wf(),
            r.spec_running() is None,
            r.spec_queue().len() == 0,
            r.spec_exports().len() == 0,
            r.spec_next() == 1,
    {
        ExportDesk { running: None, queue: Vec::new(), exports: Vec::new(), next_job: 1 }
    }

    /// How many exports wait for the window to start them.
    pub fn queued_len(&self) -> (r: usize)
        ensures
            r == self.spec_queue().len(),
    {
        self.queue.len()
    }

    /// The job reserved, if one is.
    pub fn running_job(&self) -> (r: Option<String>)
        ensures
            match r {
                Some(j) => self.spec_running() == Some(j@),
                None => self.spec_running() is None,
            },
    {
        match &self.running {
            Some(j) => Some(j.clone()),
            None => None,
        }
    }

    /// Whether an export asked for by an agent is queued or running.
    pub fn is_busy(&self) -> (r: bool)
        ensures
            r == (self.spec_running() is Some || self.spec_queue().len() > 0),
    {
        self.running.is_some() || self.queue.len() > 0
    }

    /// Records `status` against its job id, replacing what the job had.
    pub fn record(&mut self, status: WireStatus)
        ensures
            final(self).wf(),
            final(self).spec_running() == old(self).spec_running(),
            final(self).spec_queue() == old(self).spec_queue(),
            final(self).spec_next() == old(self).spec_next(),
            status_index(final(self).spec_exports(), status.job@) matches Some(k)
                && final(self).spec_exports()[k] == status,
            forall|job: Seq<char>|
                job != status.job@ ==> status_index(final(self).spec_exports(), job) is Some
                    == status_index(old(self).spec_exports(), job) is Some,
            forall|i: int|
                0 <= i < old(self).spec_exports().len() && old(self).spec_exports()[i].job@
                    != status.job@ ==> final(self).spec_exports().contains(
                    #[trigger] old(self).spec_exports()[i],
                ),
    {
        proof {
            use_type_invariant(&*self);
        }
        let mut exports: Vec<WireStatus> = Vec::new();
        std::mem::swap(&mut exports, &mut self.exports);
        let mut i: usize = 0;
        while i < exports.len()
            invariant
                i <= exports@.len(),
                exports@ == old(self).exports@,
                self.running == old(self).running,
                self.queue == old(self).queue,
                self.next_job == old(self).next_job,
                old(self).wf(),
                forall|j: int| 0 <= j < i ==> (#[trigger] exports@[j]).job@ != status.job@,
            decreases exports@.len() - i,
        {
            if str_eq(exports[i].job.as_str(), status.job.as_str()) {
                let ghost before = exports@;
                let ghost st = status;
                exports.set(i, status);
                proof {
                    assert(exports@ == before.update(i as int, st));
                    assert(forall|a: int| 0 <= a < before.len() ==> #[trigger] exports@[a].job@ == before[a].job@);
                    assert(exports@[i as int] == st);
                    assert forall|job: Seq<char>| job != st.job@ implies status_index(exports@, job) is Some
                        == status_index(before, job) is Some by {
                        if status_index(before, job) is Some {
                            let w = choose|w: int| 0 <= w < before.len() && before[w].job@ == job;
                            assert(exports@[w].job@ == job);
                        }
                        if status_index(exports@, job) is Some {
                            let w = choose|w: int| 0 <= w < exports@.len() && exports@[w].job@ == job;
                            assert(before[w].job@ == job);
                        }
                    }
                    assert forall|a: int| 0 <= a < before.len() && before[a].job@ != st.job@ implies exports@.contains(#[trigger] before[a]) by {
                        assert(exports@[a] == before[a]);
                    }
                    let w = choose|w: int| 0 <= w < exports@.len() && exports@[w].job@ == st.job@;
                    assert(w == i);
                }
                self.exports = exports;
                return;
            }
            i = i + 1;
        }
        let ghost before = exports@;
        let ghost st = status;
        exports.push(status);
        proof {
            let n = before.len() as int;
            assert(exports@[n] == st);
            assert forall|job: Seq<char>| job != st.job@ implies status_index(exports@, job) is Some
                == status_index(before, job) is Some by {
                if status_index(before, job) is Some {
                    let w = choose|w: int| 0 <= w < before.len() && before[w].job@ == job;
                    assert(exports@[w] == before[w]);
                }
                if status_index(exports@, job) is Some {
                    let w = choose|w: int| 0 <= w < exports@.len() && exports@[w].job@ == job;
                    assert(w < n);
                    assert(before[w] == exports@[w]);
                }
            }
            assert forall|a: int| 0 <= a < before.len() && before[a].job@ != st.job@ implies exports@.contains(#[trigger] before[a]) by {
                assert(exports@[a] == before[a]);
            }
            let w = choose|w: int| 0 <= w < exports@.len() && exports@[w].job@ == st.job@;
            assert(w == n);
        }
        self.exports = exports;
    }

    /// What `job` is doing, if it was ever asked for.
    pub fn status(&self, job: &str) -> (r: Option<&WireStatus>)
        ensures
            match r {
                Some(s) => status_index(self.spec_exports(), job@) matches Some(k) && *s == self.spec_exports()[k],
                None => status_index(self.spec_exports(), job@) is None,
            },
    {
        proof {
            use_type_invariant(self);
        }
        let mut i: usize = 0;
        while i < self.exports.len()
            invariant
                i <= self.exports@.len(),
                self.wf(),
                forall|j: int| 0 <= j < i ==> (#[trigger] self.exports@[j]).job@ != job@,
            decreases self.exports@.len() - i,
        {
            if str_eq(self.exports[i].job.as_str(), job) {
                proof {
                    let w = choose|w: int| 0 <= w < self.exports@.len() && self.exports@[w].job@ == job@;
                    if w != i {
                        assert(self.exports@[w].job@ == self.exports@[i as int].job@);
                    }
                }
                return Some(&self.exports[i]);
            }
            i = i + 1;
        }
        None
    }

    /// Reserves an export writing `output` for an agent, queues `item` for
    /// the window, and answers with its first status: running, with no
    /// frames yet. Refused while another export is reserved.
    pub fn queue_export(&mut self, output: &str, item: Q) -> (r: Result<WireStatus, Problem>)
        ensures
            final(self).wf(),
            match r {
                Err(p) => {
                    &&& old(self).spec_running() is Some
                    &&& p.view_problem().code == EXPORT_BUSY@
                    &&& p.view_problem().message == "this editor is already exporting"@
                    &&& final(self).spec_queue() == old(self).spec_queue()
                    &&& final(self).spec_exports() == old(self).spec_exports()
                    &&& final(self).spec_running() == old(self).spec_running()
                    &&& final(self).spec_next() == old(self).spec_next()
                },
                Ok(s) => {
                    &&& old(self).spec_running() is None
                    &&& wire_view(s) == running_view(job_id(old(self).spec_next() as nat), output@, 0, 0)
                    &&& s.error is None
                    &&& final(self).spec_running() == Some(s.job@)
                    &&& final(self).spec_queue().len() == old(self).spec_queue().len() + 1
                    &&& final(self).spec_queue().drop_last() == old(self).spec_queue()
                    &&& final(self).spec_queue().last().0@ == s.job@
                    &&& final(self).spec_queue().last().1 == item
                    &&& final(self).spec_next() == if old(self).spec_next() < u64::MAX {
                        (old(self).spec_next() + 1) as u64
                    } else {
                        0u64
                    }
                    &&& status_index(final(self).spec_exports(), s.job@) matches Some(k)
                        && wire_view(final(self).spec_exports()[k]) == wire_view(s)
                },
            },
    {
        proof {
            use_type_invariant(&*self);
        }
        if self.running.is_some() {
            return Err(Problem::new(EXPORT_BUSY, "this editor is already exporting".to_string()));
        }
        let job = concat("export-", decimal_text(self.next_job).as_str());
        self.next_job = self.next_job.wrapping_add(1);
        let status = status_of(job.as_str(), "running", output, 0, 0, None);
        let copy = status_of(job.as_str(), "running", output, 0, 0, None);
        self.record(copy);
        let ticket = job.clone();
        self.running = Some(job);
        let mut queue: Vec<(String, Q)> = Vec::new();
        std::mem::swap(&mut queue, &mut self.queue);
        let ghost before = queue@;
        queue.push((ticket, item));
        assert(queue@.drop_last() =~= before);
        self.queue = queue;
        Ok(status)
    }

    /// Takes everything queued, for the window to start.
    pub fn take_queued(&mut self) -> (r: Vec<(String, Q)>)
        ensures
            final(self).wf(),
            r@ == old(self).spec_queue(),
            final(self).spec_queue().len() == 0,
            final(self).spec_running() == old(self).spec_running(),
            final(self).spec_exports() == old(self).spec_exports(),
            final(self).spec_next() == old(self).spec_next(),
    {
        proof {
            use_type_invariant(&*self);
        }
        let mut taken: Vec<(String, Q)> = Vec::new();
        std::mem::swap(&mut taken, &mut self.queue);
        taken
    }

    /// Records that the export reserved for an agent is over.
    pub fn finish_running(&mut self)
        ensures
            final(self).wf(),
            final(self).spec_running() is None,
            final(self).spec_queue() == old(self).spec_queue(),
            final(self).spec_exports() == old(self).spec_exports(),
            final(self).spec_next() == old(self).spec_next(),
    {
        proof {
            use_type_invariant(&*self);
        }
        self.running = None;
    }

    /// Folds what the export panel shows into the status table: a terminal
    /// state is recorded once and the reservation let go, so the next
    /// export an agent asks for starts clean.
    pub fn publish(&mut self, panel: &PanelStatus)
        ensures
            final(self).wf(),
            final(self).spec_queue() == old(self).spec_queue(),
            final(self).spec_next() == old(self).spec_next(),
            match old(self).spec_running() {
                None => final(self).spec_exports() == old(self).spec_exports()
                    && final(self).spec_running() is None,
                Some(job) => match panel {
                    PanelStatus::Idle => final(self).spec_exports() == old(self).spec_exports()
                        && final(self).spec_running() == old(self).spec_running(),
                    PanelStatus::Running { .. } => final(self).spec_running() == Some(job)
                        && (status_index(final(self).spec_exports(), job) matches Some(k) && shows(
                        final(self).spec_exports()[k],
                        wire_of(job, *panel, previous_status(old(self).spec_exports(), job)),
                    )),
                    _ => final(self).spec_running() is None && (status_index(
                        final(self).spec_exports(),
                        job,
                    ) matches Some(k) && shows(
                        final(self).spec_exports()[k],
                        wire_of(job, *panel, previous_status(old(self).spec_exports(), job)),
                    )),
                },
            },
    {
        proof {
            use_type_invariant(&*self);
        }
        let job = match &self.running {
            Some(j) => j.clone(),
            None => {
                return;
            },
        };
        let status = match self.status(job.as_str()) {
            Some(previous) => wire_status(job.as_str(), panel, Some(previous)),
            None => wire_status(job.as_str(), panel, None),
        };
        let status = match status {
            Some(s) => s,
            None => {
                return;
            },
        };
        let running = str_eq(status.state.as_str(), "running");
        proof {
            reveal_strlit("running");
            reveal_strlit("completed");
            reveal_strlit("cancelled");
            reveal_strlit("failed");
        }
        self.record(status);
        if !running {
            self.finish_running();
        }
    }

    /// Records that starting `job` was refused, with why, and lets the
    /// reservation go.
    pub fn refuse(&mut self, job: &str, error: &Problem)
        ensures
            final(self).wf(),
            final(self).spec_running() is None,
            final(self).spec_queue() == old(self).spec_queue(),
            final(self).spec_next() == old(self).spec_next(),
            status_index(final(self).spec_exports(), job@) matches Some(k) && {
                let s = final(self).spec_exports()[k];
                &&& s.state@ == "failed"@
                &&& s.frames_done == 0
                &&& s.frames_total == 0
                &&& s.output@ == match status_index(old(self).spec_exports(), job@) {
                    Some(j) => old(self).spec_exports()[j].output@,
                    None => Seq::<char>::empty(),
                }
                &&& s.error matches Some(e) && e.view_problem() == error.view_problem()
            },
    {
        proof {
            use_type_invariant(&*self);
        }
        let output = match self.status(job) {
            Some(previous) => previous.output.clone(),
            None => String::new(),
        };
        let failed = status_of(job, "failed", output.as_str(), 0, 0, Some(copy_problem(error)));
        self.record(failed);
        self.finish_running();
    }
}

} // verus!
