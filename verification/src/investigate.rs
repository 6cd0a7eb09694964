//! Inspections under the queue: the flight pattern, the control step of an
//! orbit and of a flyover, and what they report.

use vstd::prelude::*;

use crate::agent::{has_audio, AgentShared, AgentView, INVESTIGATE};
use crate::driver::with_resume;
use crate::flight::{Fix, MissionEvent};
use crate::mission::FlightOutcome;
use crate::patterns::{
    orbit_step, pattern_for, select_investigate_pattern, waypoint_step, Command, OrbitFlight,
    OrbitTick, WaypointFlight, WaypointTick,
};
use crate::quantity::Real;
use crate::queue_model::{QueueView, ResumeSnapshot, TaskEntryView, VehicleView};
use crate::services::InvestigateRequest;
use crate::tasks::{TaskProgress, TaskProgressView};
use crate::text::{cat, dec, dec_text};

verus! {

/// An inspection must end: an abort is up, or the vehicle is no longer its
/// own.
pub open spec fn inspection_interrupted(a: AgentView) -> bool {
    a.v.abort || a.v.busy != INVESTIGATE@
}

/// How a control step of an orbit went.
#[derive(Debug)]
pub enum OrbitCycle {
    /// Another command took the vehicle; what remains was saved.
    Interrupted,
    Flown {
        outcome: Option<FlightOutcome>,
        events: Vec<MissionEvent>,
        command: Option<Command>,
    },
}

/// How a control step of a flyover went.
#[derive(Debug)]
pub enum FlyoverCycle {
    /// Another command took the vehicle; what remains was saved.
    Interrupted,
    Flown { outcome: Option<FlightOutcome>, target: Option<Fix> },
}

/// The agent with the progress of its active task and what remains of it.
pub open spec fn with_progress(
    a: AgentView,
    progress: TaskProgressView,
    resume: ResumeSnapshot,
) -> AgentView {
    AgentView {
        v: VehicleView {
            q: QueueView {
                active: match a.v.q.active {
                    Some(e) => Some(
                        TaskEntryView { progress: Some(progress), resume: Some(resume), ..e },
                    ),
                    None => None,
                },
                ..a.v.q
            },
            ..a.v
        },
        ..a
    }
}

/// The progress note of an orbit.
pub open spec fn orbit_note(swept: Seq<char>, turns: Seq<char>) -> Seq<char> {
    "orbit "@ + swept + "/"@ + turns + " turns"@
}

/// The progress note of a flyover.
pub open spec fn flyover_note(idx: nat, total: nat) -> Seq<char> {
    "flyover waypoint "@ + dec_text(idx) + "/"@ + dec_text(total)
}

impl AgentShared {
    /// The flight pattern of a request on this vehicle.
    pub fn pattern_of(&self, req: &InvestigateRequest) -> (r: &'static str)
        ensures
            r@ == pattern_for(req@, has_audio(self.extras@)),
    {
        select_investigate_pattern(req, self.carries_audio())
    }

    /// One control step of an orbit with `remaining` turns to fly: an
    /// interruption saves them and ends the flight, otherwise it ticks.
    pub fn orbit_cycle(&mut self, flight: &mut OrbitFlight, t: OrbitTick, remaining: Real) -> (r:
        OrbitCycle)
        requires
            old(self).valid(),
        ensures
            ({
                let a = old(self)@;
                if inspection_interrupted(a) {
                    &&& r is Interrupted
                    &&& final(self)@ == with_resume(
                        a,
                        ResumeSnapshot::Investigate { remaining_turns: remaining },
                    )
                    &&& *final(flight) == *old(flight)
                } else {
                    let step = orbit_step(*old(flight), t);
                    &&& final(self)@ == a
                    &&& *final(flight) == step.0
                    &&& match r {
                        OrbitCycle::Flown { outcome, events, command } => outcome == step.1.outcome
                            && events@ == (if step.1.entered {
                            seq![MissionEvent::OrbitEntered]
                        } else {
                            Seq::empty()
                        }) && command == step.1.command,
                        OrbitCycle::Interrupted => false,
                    }
                }
            }),
            final(self).same_setup(*old(self)),
            final(self).valid(),
    {
        if self.interrupted(INVESTIGATE) {
            self.save_resume(ResumeSnapshot::Investigate { remaining_turns: remaining });
            return OrbitCycle::Interrupted;
        }
        let (outcome, events, command) = flight.tick(t);
        OrbitCycle::Flown { outcome, events, command }
    }

    /// Report the progress of an orbit; `swept` and `turns` are printed.
    pub fn orbit_progress(
        &mut self,
        pct: Real,
        swept: &str,
        turns: &str,
        eta_s: Real,
        remaining: Real,
    )
        requires
            old(self).valid(),
        ensures
            final(self)@ == with_progress(
                old(self)@,
                TaskProgressView { pct, detail: orbit_note(swept@, turns@), eta_s },
                ResumeSnapshot::Investigate { remaining_turns: remaining },
            ),
            final(self).same_setup(*old(self)),
            final(self).valid(),
    {
        let mut detail = cat("orbit ", swept);
        detail.append("/");
        detail.append(turns);
        detail.append(" turns");
        self.note_progress(
            TaskProgress { pct, detail, eta_s },
            ResumeSnapshot::Investigate { remaining_turns: remaining },
        );
    }

    /// One control step of a flyover. `remaining` is the number of passes that
    /// [`WaypointFlight::remaining_passes`] leaves, as a number of turns.
    pub fn flyover_cycle(
        &mut self,
        flight: &mut WaypointFlight,
        t: WaypointTick,
        remaining: Real,
    ) -> (r: FlyoverCycle)
        requires
            old(self).valid(),
            old(flight)@.valid(),
        ensures
            ({
                let a = old(self)@;
                let f = old(flight)@;
                if inspection_interrupted(a) {
                    &&& r is Interrupted
                    &&& final(self)@ == with_resume(
                        a,
                        ResumeSnapshot::Investigate { remaining_turns: remaining },
                    )
                    &&& final(flight)@ == f
                } else {
                    let step = waypoint_step(f, t);
                    &&& final(self)@ == a
                    &&& final(flight)@ == step.0
                    &&& r == (FlyoverCycle::Flown { outcome: step.1, target: step.2 })
                }
            }),
            final(flight)@.valid(),
            final(self).same_setup(*old(self)),
            final(self).valid(),
    {
        if self.interrupted(INVESTIGATE) {
            self.save_resume(ResumeSnapshot::Investigate { remaining_turns: remaining });
            return FlyoverCycle::Interrupted;
        }
        let (outcome, target) = flight.tick(t);
        FlyoverCycle::Flown { outcome, target }
    }

    /// Report the progress of a flyover.
    pub fn flyover_progress(
        &mut self,
        flight: &WaypointFlight,
        pct: Real,
        eta_s: Real,
        remaining: Real,
    )
        requires
            old(self).valid(),
            flight@.valid(),
        ensures
            final(self)@ == with_progress(
                old(self)@,
                TaskProgressView {
                    pct,
                    detail: flyover_note(flight@.idx as nat, flight@.points.len()),
                    eta_s,
                },
                ResumeSnapshot::Investigate { remaining_turns: remaining },
            ),
            final(self).same_setup(*old(self)),
            final(self).valid(),
    {
        let (idx, total) = flight.progress();
        let mut detail = cat("flyover waypoint ", dec(idx as u64).as_str());
        detail.append("/");
        detail.append(dec(total as u64).as_str());
        self.note_progress(
            TaskProgress { pct, detail, eta_s },
            ResumeSnapshot::Investigate { remaining_turns: remaining },
        );
    }
}

/// An inspection that another command interrupts moves no more: the vehicle
/// keeps whatever that command told it, and the queue knows what remains.
pub proof fn interrupted_inspections_stand_down(a: AgentView, remaining: Real)
    requires
        inspection_interrupted(a),
    ensures
        ({
            let b = with_resume(
                a,
                ResumeSnapshot::Investigate { remaining_turns: remaining },
            );
            &&& b.v.busy == a.v.busy
            &&& b.v.abort == a.v.abort
            &&& b.v.operator_abort == a.v.operator_abort
            &&& b.v.q.pending == a.v.q.pending
            &&& a.v.q.active is Some ==> b.v.q.active->0.resume == Some(
                ResumeSnapshot::Investigate { remaining_turns: remaining },
            )
        }),
{
}

/// What a vehicle publishes of a survey.
#[derive(Debug)]
pub struct SearchStatus {
    pub vehicle_id: String,
    pub mission_id: String,
    pub gps_time_ns: u64,
    pub state: String,
    pub leg: u64,
    pub legs_total: u64,
    pub frames_captured: u64,
    pub detects_completed: u64,
    pub detects_pending: u64,
    pub last_note: String,
    /// Published frame names, newest first.
    pub last_frames: Vec<String>,
}

/// A sample of the search status: this agent runs no detector.
pub fn search_status(
    vehicle_id: &str,
    mission_id: &str,
    gps_time_ns: u64,
    state: &str,
    leg: u64,
    legs_total: u64,
    frames: u64,
    note: &str,
    last_frames: Vec<String>,
) -> (r: SearchStatus)
    ensures
        r.vehicle_id@ == vehicle_id@,
        r.mission_id@ == mission_id@,
        r.gps_time_ns == gps_time_ns,
        r.state@ == state@,
        r.leg == leg,
        r.legs_total == legs_total,
        r.frames_captured == frames,
        r.detects_completed == 0,
        r.detects_pending == 0,
        r.last_note@ == note@,
        r.last_frames == last_frames,
{
    SearchStatus {
        vehicle_id: vehicle_id.to_owned(),
        mission_id: mission_id.to_owned(),
        gps_time_ns,
        state: state.to_owned(),
        leg,
        legs_total,
        frames_captured: frames,
        detects_completed: 0,
        detects_pending: 0,
        last_note: note.to_owned(),
        last_frames,
    }
}

} // verus!
