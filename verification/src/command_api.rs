//! The decisions behind the editor's own Command API endpoint: when to bind
//! it, what a finished bind leaves, and what the status bar says.
//!
//! Binding runs on a thread of its own and the listener is the host's; this
//! is the state the window keeps between frames about them. The window feeds
//! it what happened (a frame with the session's generation, a bind that was
//! started or could not be, a bind that finished) and does what it asks.

use vstd::prelude::*;
use crate::app::CommandApiState;
use crate::problem::{concat, Problem};

verus! {

/// How a bind that was started ended.
pub enum BindOutcome {
    /// The endpoint is bound; the listener is serving.
    Bound,
    /// The endpoint was refused, with why.
    Refused(Problem),
}

/// What the window knows of its endpoint between frames.
pub struct CommandApi {
    generation: Option<u64>,
    binding: Option<u64>,
    serving: bool,
    refusal: Option<Problem>,
}

impl CommandApi {
    /// The session generation the listener, or the bind in flight, belongs
    /// to; none before the first bind.
    pub closed spec fn spec_generation(&self) -> Option<u64> {
        self.generation
    }

    /// The generation a bind in flight was started for.
    pub closed spec fn spec_binding(&self) -> Option<u64> {
        self.binding
    }

    /// Whether a listener is serving.
    pub closed spec fn spec_serving(&self) -> bool {
        self.serving
    }

    /// Why the last bind was refused, when it was.
    pub closed spec fn spec_refusal(&self) -> Option<Problem> {
        self.refusal
    }

    /// An endpoint not served yet.
    pub fn new() -> (r: CommandApi)
        ensures
            r.spec_generation() is None,
            r.spec_binding() is None,
            !r.spec_serving(),
            r.spec_refusal() is None,
    {
        CommandApi { generation: None, binding: None, serving: false, refusal: None }
    }

    /// Whether the endpoint is bound right now.
    pub fn is_serving(&self) -> (r: bool)
        ensures
            r == self.spec_serving(),
    {
        self.serving
    }

    /// Why this editor is not serving, when a bind was refused.
    pub fn refusal(&self) -> (r: Option<&Problem>)
        ensures
            match r {
                Some(p) => self.spec_refusal() == Some(*p),
                None => self.spec_refusal() is None,
            },
    {
        match &self.refusal {
            Some(p) => Some(p),
            None => None,
        }
    }

    /// Whether a bind is in flight.
    pub fn is_binding(&self) -> (r: bool)
        ensures
            r == self.spec_binding() is Some,
    {
        self.binding.is_some()
    }

    /// Whether this frame should bind for the session at `generation`: no
    /// bind is in flight, and the last one was for another engine, or there
    /// was none. A refusal is not retried until the engine is replaced.
    pub fn needs_bind(&self, generation: u64) -> (r: bool)
        ensures
            r == wants_bind(*self, generation),
    {
        self.binding.is_none() && match self.generation {
            Some(g) => g != generation,
            None => true,
        }
    }

    /// Records that a bind for `generation` was started: whatever listener
    /// there was has been stopped first, so the address is free for it.
    pub fn bind_started(&mut self, generation: u64)
        ensures
            final(self).spec_generation() == Some(generation),
            final(self).spec_binding() == Some(generation),
            !final(self).spec_serving(),
            final(self).spec_refusal() == old(self).spec_refusal(),
    {
        self.serving = false;
        self.generation = Some(generation);
        self.binding = Some(generation);
    }

    /// Records that no bind could be started for `generation`: the old
    /// listener is gone, and `error` is why there is no new one.
    pub fn bind_not_started(&mut self, generation: u64, error: Problem)
        ensures
            final(self).spec_generation() == Some(generation),
            final(self).spec_binding() == old(self).spec_binding(),
            !final(self).spec_serving(),
            final(self).spec_refusal() == Some(error),
    {
        self.serving = false;
        self.generation = Some(generation);
        self.refusal = Some(error);
    }

    /// Takes the outcome of the bind in flight: a bound endpoint clears any
    /// refusal, a refused one records why; either way the generation is the
    /// one the bind was started for. Without a bind in flight nothing
    /// changes.
    pub fn bind_finished(&mut self, outcome: BindOutcome)
        ensures
            finishes(*old(self), outcome, *final(self)),
    {
        let g = match self.binding {
            Some(g) => g,
            None => {
                return;
            },
        };
        self.binding = None;
        self.generation = Some(g);
        match outcome {
            BindOutcome::Bound => {
                self.serving = true;
                self.refusal = None;
            },
            BindOutcome::Refused(e) => {
                self.refusal = Some(e);
            },
        }
    }

    /// The once-a-frame step: takes the outcome of a bind that finished
    /// since the last frame, when one did, and says whether a bind for the
    /// session at `generation` is to be started now.
    pub fn sync(&mut self, outcome: Option<BindOutcome>, generation: u64) -> (start: bool)
        ensures
            match outcome {
                Some(o) => finishes(*old(self), o, *final(self)),
                None => *final(self) == *old(self),
            },
            start == wants_bind(*final(self), generation),
    {
        match outcome {
            Some(o) => self.bind_finished(o),
            None => {},
        }
        self.needs_bind(generation)
    }

    /// Stops serving and abandons a bind in flight.
    pub fn shutdown(&mut self)
        ensures
            !final(self).spec_serving(),
            final(self).spec_binding() is None,
            final(self).spec_generation() == old(self).spec_generation(),
            final(self).spec_refusal() == old(self).spec_refusal(),
    {
        self.serving = false;
        self.binding = None;
    }

    /// Where the agent surface stands, as the ready line tells it, given
    /// the address the listener answers on: listening while serving, else
    /// refused when a bind was, else still starting.
    pub fn state(&self, address: String) -> (r: CommandApiState)
        ensures
            r == if self.spec_serving() {
                CommandApiState::Listening(address)
            } else {
                match self.spec_refusal() {
                    Some(p) => CommandApiState::Refused { code: p.code, message: p.message },
                    None => CommandApiState::Starting,
                }
            },
    {
        if self.serving {
            return CommandApiState::Listening(address);
        }
        match &self.refusal {
            Some(p) => CommandApiState::Refused { code: p.code.clone(), message: p.message.clone() },
            None => CommandApiState::Starting,
        }
    }

    /// One line for the status bar and the log, given the address the
    /// listener answers on: what the agent surface is doing.
    pub fn status_line(&self, address: &str) -> (r: String)
        ensures
            r@ == if self.spec_serving() {
                "Command API listening on "@ + address@
            } else {
                match self.spec_refusal() {
                    Some(p) => "Command API not served: "@ + p.message@,
                    None => if self.spec_binding() is Some {
                        "Command API starting"@
                    } else {
                        "Command API not served"@
                    },
                }
            },
    {
        if self.serving {
            return concat("Command API listening on ", address);
        }
        match &self.refusal {
            Some(p) => concat("Command API not served: ", p.message.as_str()),
            None => if self.binding.is_some() {
                "Command API starting".to_string()
            } else {
                "Command API not served".to_string()
            },
        }
    }
}

/// Whether `after` is what a finished bind with `outcome` leaves of
/// `before`: with no bind in flight nothing changes; else the bind is over
/// and the generation is the one it was for, and a bound endpoint serves with
/// no refusal while a refused one keeps serving as before and says why.
pub open spec fn finishes(before: CommandApi, outcome: BindOutcome, after: CommandApi) -> bool {
    match before.spec_binding() {
        None => after == before,
        Some(g) => {
            &&& after.spec_binding() is None
            &&& after.spec_generation() == Some(g)
            &&& match outcome {
                BindOutcome::Bound => after.spec_serving() && after.spec_refusal() is None,
                BindOutcome::Refused(e) => {
                    &&& after.spec_serving() == before.spec_serving()
                    &&& after.spec_refusal() == Some(e)
                },
            }
        },
    }
}

/// Whether a frame for the session at `generation` starts a bind.
pub open spec fn wants_bind(api: CommandApi, generation: u64) -> bool {
    api.spec_binding() is None && api.spec_generation() != Some(generation)
}

/// An engine is bound for at most once, so a refused endpoint is not asked
/// for again every frame: once a bind has been started for a generation,
/// whether it could start, and however it finished, frames for that same
/// generation ask for no other.
pub proof fn law_one_bind_per_engine(api: CommandApi, generation: u64)
    requires
        api.spec_generation() == Some(generation),
    ensures
        !wants_bind(api, generation),
{
}

} // verus!
