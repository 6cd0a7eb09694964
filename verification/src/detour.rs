//! The flight of an override capture: to the point, unless another command
//! takes the vehicle.

use vstd::prelude::*;

use crate::agent::{AgentShared, AgentView};
use crate::policy::AglBounds;
use crate::quantity::Real;
use crate::sensor::Detour;

verus! {

/// A target is sent again after this long (ms).
pub const RESEND_MS: u64 = 2_000;

/// A flight to a capture point.
#[derive(Debug)]
pub struct DetourFlight {
    /// The label that the vehicle is flown under.
    pub task: String,
    pub next_send_ms: u64,
    pub deadline_ms: u64,
}

/// A flight to a capture point by its values.
#[verifier::ext_equal]
pub struct DetourView {
    pub task: Seq<char>,
    pub next_send_ms: u64,
    pub deadline_ms: u64,
}

impl View for DetourFlight {
    type V = DetourView;

    open spec fn view(&self) -> DetourView {
        DetourView {
            task: self.task@,
            next_send_ms: self.next_send_ms,
            deadline_ms: self.deadline_ms,
        }
    }
}

/// Why a detour flies no further, before the vehicle is asked where it is.
pub open spec fn stopped(a: AgentView, d: DetourView, shut_down: bool) -> Option<Detour> {
    if shut_down {
        Some(Detour::ShutDown)
    } else if a.v.abort || a.v.busy != d.task {
        Some(Detour::Preempted)
    } else {
        None
    }
}

/// When a target sent now is sent again.
pub open spec fn resend_at(now_ms: u64) -> u64 {
    if now_ms + RESEND_MS <= u64::MAX {
        (now_ms + RESEND_MS) as u64
    } else {
        u64::MAX
    }
}

/// How a detour stands once the vehicle has said whether it is at the point.
pub open spec fn reached(d: DetourView, arrived: bool, now_ms: u64) -> Detour {
    if arrived {
        Detour::Arrived
    } else if now_ms > d.deadline_ms {
        Detour::TimedOut
    } else {
        Detour::Flying
    }
}

impl DetourFlight {
    /// A detour that starts now and must be over by a deadline.
    pub fn new(task: &str, now_ms: u64, deadline_ms: u64) -> (r: Self)
        ensures
            r@ == (DetourView { task: task@, next_send_ms: now_ms, deadline_ms }),
    {
        DetourFlight { task: task.to_owned(), next_send_ms: now_ms, deadline_ms }
    }

    /// Whether the flight goes on, and whether its target is to be sent: first
    /// at the start, then whenever the last one is old.
    pub fn steer(&mut self, agent: &AgentShared, shut_down: bool, now_ms: u64) -> (r: Result<
        bool,
        Detour,
    >)
        ensures
            match stopped(agent@, old(self)@, shut_down) {
                Some(d) => r == Err::<bool, Detour>(d) && final(self)@ == old(self)@,
                None => {
                    &&& r == Ok::<bool, Detour>(now_ms >= old(self)@.next_send_ms)
                    &&& final(self)@ == (DetourView {
                        next_send_ms: if now_ms >= old(self)@.next_send_ms {
                            resend_at(now_ms)
                        } else {
                            old(self)@.next_send_ms
                        },
                        ..old(self)@
                    })
                },
            },
    {
        if shut_down {
            return Err(Detour::ShutDown);
        }
        if agent.interrupted(self.task.as_str()) {
            return Err(Detour::Preempted);
        }
        if now_ms < self.next_send_ms {
            return Ok(false);
        }
        self.next_send_ms = if now_ms <= u64::MAX - RESEND_MS {
            now_ms + RESEND_MS
        } else {
            u64::MAX
        };
        Ok(true)
    }

    /// How the flight stands.
    pub fn check(&self, arrived: bool, now_ms: u64) -> (r: Detour)
        ensures
            r == reached(self@, arrived, now_ms),
    {
        if arrived {
            Detour::Arrived
        } else if now_ms > self.deadline_ms {
            Detour::TimedOut
        } else {
            Detour::Flying
        }
    }
}

impl AglBounds {
    /// The altitude within the window that is nearest to another. The window
    /// is a proper one.
    pub fn confine(&self, agl_m: Real) -> (r: Real)
        requires
            self.min_agl_m.value.at_most(self.max_agl_m.value),
        ensures
            r == agl_m.confined(self.min_agl_m.value, self.max_agl_m.value),
            !agl_m.is_nan() ==> self.min_agl_m.value.at_most(r) && r.at_most(self.max_agl_m.value),
    {
        agl_m.confine(self.min_agl_m.value, self.max_agl_m.value)
    }
}

/// A detour never outlives the command that displaced it: once an abort is up
/// or the vehicle flies under another label, it stops, wherever it is.
pub proof fn displaced_detours_stop(a: AgentView, d: DetourView, shut_down: bool)
    requires
        a.v.abort || a.v.busy != d.task,
    ensures
        stopped(a, d, shut_down) is Some,
        stopped(a, d, shut_down) != Some(Detour::Arrived),
{
}

} // verus!
