//! What the flight patterns command and when they end.

use vstd::prelude::*;

use crate::agent::AgentView;
use crate::detour::{reached, resend_at, stopped, DetourView};
use crate::driver::{current_leg, snapshot_of};
use crate::flight::{
    fire_until, lemma_fire_until, lemma_leg_within, raster_step, resume_of, Cruise, MissionEvent,
    RasterFlightView, RasterState, RasterTick,
};
use crate::investigate::{flyover_note, inspection_interrupted, orbit_note, with_progress};
use crate::mission::{along_key, labelled, planned, CapturePoint, FlightOutcome, SurveyLeg};
use crate::patterns::{
    orbit_step, pattern_for, waypoint_step, OrbitFlight, OrbitState, OrbitTick,
    WaypointTick, WaypointView,
};
use crate::quantity::Real;
use crate::queue_model::{QueueView, ResumeSnapshot, TaskEntryView, VehicleView};
use crate::sensor::Detour;
use crate::service_laws::{exceeds, no_more_than};
use crate::services::InvestigateRequestView;
use crate::sorting::sorting_orders;
use crate::survey::{survey_cycle, ReportView, SurveyView};
use crate::tasks::TaskProgressView;
use crate::text::dec_text;

verus! {

/// A double that is zero.
pub open spec fn nil() -> Real {
    Real { bits: 0 }
}

/// The word under which an outcome is journaled.
pub proof fn outcomes_have_their_words()
    ensures
        FlightOutcome::Completed.text() == "completed"@,
        FlightOutcome::Aborted.text() == "aborted"@,
        FlightOutcome::TimedOut.text() == "timeout"@,
{
}

// ---------------------------------------------------------------------------
// inspections
// ---------------------------------------------------------------------------

/// A request flies the pattern it names; one that names neither flies over for
/// a job of microphones alone, if the vehicle carries one, and orbits
/// otherwise.
pub proof fn requests_fly_their_pattern(req: InvestigateRequestView, has_audio: bool)
    ensures
        ({
            let p = pattern_for(req, has_audio);
            let listens = req.sensors.len() > 0 && forall|i: int|
                0 <= i < req.sensors.len() ==> #[trigger] req.sensors[i] == "audio"@;
            &&& req.pattern == "orbit"@ || req.pattern == "flyover"@ ==> p == req.pattern
            &&& req.pattern != "orbit"@ && req.pattern != "flyover"@ ==> p == (if listens
                && has_audio {
                "flyover"@
            } else {
                "orbit"@
            })
        }),
{
}

/// An orbit on its way to the circle: the entry point is the one of the first
/// tick and is sent on that tick and whenever the last one is old; arrival
/// comes before the deadline, and starts the orbit at the bearing measured
/// there with nothing swept.
pub proof fn orbits_begin_at_their_entry(f: OrbitFlight, t: OrbitTick, cruise: Cruise, by: Real)
    requires
        f.state == OrbitState::Init || f.state == (OrbitState::Entry { cruise, deadline: by }),
        f.state is Init ==> cruise == (Cruise {
            target: t.entry,
            next_send: nil(),
            travel_deadline: None,
        }) && by == t.entry_deadline,
    ensures
        ({
            let (g, a) = orbit_step(f, t);
            let late = exceeds(t.now, by);
            let due = no_more_than(cruise.next_send, t.now);
            &&& g.goal == f.goal
            &&& a.entered <==> t.at_entry
            &&& t.at_entry ==> a.command is None && a.outcome is None && g.state == (
            OrbitState::Orbiting {
                swept: nil(),
                bearing: t.bearing,
                budget: t.budget,
                next_cmd: t.now,
            })
            &&& a.outcome == Some(FlightOutcome::TimedOut) <==> !t.at_entry && late
            &&& a.outcome is None <==> t.at_entry || !late
            &&& a.outcome matches Some(o) ==> g.state == OrbitState::Done(o)
            &&& a.command is Some <==> !t.at_entry && !late && due
            &&& a.command matches Some(c) ==> c.target == cruise.target && c.yaw is None
            &&& !t.at_entry && !late ==> g.state == (OrbitState::Entry {
                cruise: Cruise {
                    next_send: if due {
                        t.resend_at
                    } else {
                        cruise.next_send
                    },
                    ..cruise
                },
                deadline: by,
            })
        }),
{
}

/// An orbit under way: it ends without success once its budget is spent, does
/// nothing until the next command is due, is complete once the sweep reached
/// the goal, and otherwise chases the carrot, facing the center.
pub proof fn orbits_chase_the_carrot(
    f: OrbitFlight,
    t: OrbitTick,
    swept: Real,
    bearing: Real,
    budget: Real,
    next_cmd: Real,
)
    requires
        f.state == (OrbitState::Orbiting { swept, bearing, budget, next_cmd }),
    ensures
        ({
            let (g, a) = orbit_step(f, t);
            let spent = exceeds(t.now, budget);
            let early = exceeds(next_cmd, t.now);
            let sweep = if no_more_than(nil(), t.swept) {
                t.swept
            } else {
                nil()
            };
            let done = no_more_than(f.goal, sweep);
            &&& !a.entered && g.goal == f.goal
            &&& a.outcome == Some(FlightOutcome::TimedOut) <==> spent
            &&& a.outcome == Some(FlightOutcome::Completed) <==> !spent && !early && done
            &&& a.outcome != Some(FlightOutcome::Aborted)
            &&& a.outcome matches Some(o) ==> g.state == OrbitState::Done(o)
            &&& !spent && early ==> g == f && a.command is None
            &&& a.command is Some <==> !spent && !early && !done
            &&& a.command matches Some(c) ==> {
                &&& c.target == t.carrot && c.yaw == Some(t.yaw)
                &&& g.state == (OrbitState::Orbiting {
                    swept: sweep,
                    bearing: t.bearing,
                    budget,
                    next_cmd: t.next_cmd,
                })
            }
        }),
{
}

/// An orbit that is over stays over.
pub proof fn ended_orbits_stay_ended(f: OrbitFlight, t: OrbitTick)
    requires
        f.state is Done,
    ensures
        orbit_step(f, t).0 == f,
        orbit_step(f, t).1.outcome == Some(f.state->Done_0),
        orbit_step(f, t).1.command is None && !orbit_step(f, t).1.entered,
{
}

/// How far an orbit has come: what it has swept under way, all of it once it
/// is over, nothing before.
pub proof fn sweeps_are_what_was_flown(f: OrbitFlight)
    ensures
        f.state is Orbiting ==> f.sweep() == f.state->swept,
        f.state is Done ==> f.sweep() == f.goal,
        f.state is Init || f.state is Entry ==> f.sweep() == nil(),
{
}

/// A waypoint sequence under way: it sends the current waypoint when a send is
/// due, moves on once there or once its leg took too long, and ends with the
/// last waypoint or when its time is up.
pub proof fn waypoints_are_sent_and_passed(f: WaypointView, t: WaypointTick)
    requires
        f.valid(),
        f.done is None,
        f.idx < f.points.len(),
    ensures
        ({
            let (g, outcome, sent) = waypoint_step(f, t);
            let late = exceeds(t.now, f.deadline);
            let by = if f.leg_deadline is Some {
                f.leg_deadline->0
            } else {
                t.fresh_deadline
            };
            let passed = t.at_target || exceeds(t.now, by);
            let due = no_more_than(f.next_send, t.now);
            &&& outcome == Some(FlightOutcome::TimedOut) <==> late
            &&& outcome == Some(FlightOutcome::Completed) <==> !late && passed && f.idx + 1
                == f.points.len()
            &&& outcome != Some(FlightOutcome::Aborted)
            &&& g.done == outcome && g.points == f.points && g.deadline == f.deadline
            &&& sent is Some <==> !late && due
            &&& sent matches Some(p) ==> p == f.points[f.idx]
            &&& late ==> g.idx == f.idx
            &&& !late && passed ==> g.idx == f.idx + 1 && g.next_send == nil() && g.leg_deadline
                is None
            &&& !late && !passed ==> g.idx == f.idx && g.leg_deadline == Some(by) && g.next_send
                == (if due {
                t.resend_at
            } else {
                f.next_send
            })
        }),
{
}

/// An inspection stands down exactly if an abort is up or the vehicle flies
/// under another label than its own.
pub proof fn inspections_stand_down_when_displaced(a: AgentView)
    ensures
        inspection_interrupted(a) <==> a.v.abort || a.v.busy != "investigate"@,
{
}

/// A progress report is kept with the task in flight and changes nothing else.
pub proof fn progress_is_kept_with_the_task(
    a: AgentView,
    progress: TaskProgressView,
    resume: ResumeSnapshot,
    swept: Seq<char>,
    turns: Seq<char>,
    idx: nat,
    total: nat,
)
    ensures
        ({
            let b = with_progress(a, progress, resume);
            &&& a.v.q.active is None ==> b == a
            &&& a.v.q.active matches Some(e) ==> b == (AgentView {
                v: VehicleView {
                    q: QueueView {
                        active: Some(
                            TaskEntryView {
                                progress: Some(progress),
                                resume: Some(resume),
                                ..e
                            },
                        ),
                        ..a.v.q
                    },
                    ..a.v
                },
                ..a
            })
        }),
        orbit_note(swept, turns) == "orbit "@ + swept + "/"@ + turns + " turns"@,
        flyover_note(idx, total) == "flyover waypoint "@ + dec_text(idx) + "/"@ + dec_text(total),
{
}

// ---------------------------------------------------------------------------
// surveys
// ---------------------------------------------------------------------------

/// A plan is flown as it was asked for: the legs in their order at the altitude
/// given, no slower than 0.3 m/s, and with the captures of each leg, none lost
/// or changed but for the number of its leg, if the spacing is above zero, and
/// without any otherwise.
pub proof fn plans_are_flown_as_asked(
    legs: Seq<SurveyLeg>,
    agl_m: Real,
    asked_m_s: Real,
    every_m: Real,
    path_len_m: Real,
    i: int,
)
    requires
        0 <= i < legs.len(),
    ensures
        ({
            let p = planned(legs, agl_m, asked_m_s, every_m, path_len_m);
            let slowest = Real { bits: 0x3fd3_3333_3333_3333 };
            let wanted = exceeds(every_m, nil());
            let given = legs[i].captures@.map_values(
                |c: CapturePoint| CapturePoint { leg: i as usize, ..c },
            );
            &&& p.legs.len() == legs.len() && p.legs[i] == legs[i].leg
            &&& p.agl_m == agl_m && p.path_len_m == path_len_m
            &&& exceeds(asked_m_s, slowest) ==> p.speed_m_s == asked_m_s
            &&& !exceeds(asked_m_s, slowest) ==> p.speed_m_s == slowest
            &&& p.captures.len() == legs.len()
            &&& !wanted ==> p.captures[i].len() == 0
            &&& wanted ==> p.captures[i].to_multiset() == given.to_multiset()
        }),
{
    let given = legs[i].captures@.map_values(
        |c: CapturePoint| CapturePoint { leg: i as usize, ..c },
    );
    assert(given =~= labelled(legs[i].captures@, i));
    sorting_orders(given, along_key());
}

/// A survey on its way to a leg: the start of the leg is sent when due; once
/// there, or once the way took too long, the leg is flown to its end, with
/// none of its captures fired.
pub proof fn surveys_fly_to_their_legs(
    f: RasterFlightView,
    t: RasterTick,
    leg: usize,
    cruise: Cruise,
)
    requires
        f.valid(),
        f.state == (RasterState::ToLegStart { leg, cruise }),
    ensures
        ({
            let (g, a) = raster_step(f, t);
            let late = exceeds(t.now, f.deadline);
            let by = if cruise.travel_deadline is Some {
                cruise.travel_deadline->0
            } else {
                t.fresh_deadline
            };
            let there = t.at_target || exceeds(t.now, by);
            let due = no_more_than(cruise.next_send, t.now);
            &&& g.plan == f.plan && g.deadline == f.deadline && g.frames == f.frames && g.started
            &&& a.outcome == (if late {
                Some(FlightOutcome::TimedOut)
            } else {
                None
            })
            &&& a.events.len() == if f.started {
                0nat
            } else {
                1nat
            }
            &&& !f.started ==> a.events[0] == MissionEvent::LegStarted { index: 0 }
            &&& a.target is Some <==> !late && due
            &&& a.target matches Some(p) ==> p == cruise.target
            &&& late ==> g.state == RasterState::Done(FlightOutcome::TimedOut)
            &&& !late && there ==> g.state == (RasterState::OnLeg {
                leg,
                cruise: Cruise {
                    target: f.plan.legs[leg as int].end,
                    next_send: nil(),
                    travel_deadline: None,
                },
                fired: 0,
            })
            &&& !late && !there ==> g.state == (RasterState::ToLegStart {
                leg,
                cruise: Cruise {
                    target: cruise.target,
                    next_send: if due {
                        t.resend_at
                    } else {
                        cruise.next_send
                    },
                    travel_deadline: Some(by),
                },
            })
        }),
{
}

/// A survey on a leg: the captures that the vehicle has passed fire, from
/// where the last ones ended; at the end of the leg, or once it took too long,
/// all that are left do. The next leg follows, or the survey is complete after
/// the last one.
pub proof fn surveys_fire_what_they_pass(
    f: RasterFlightView,
    t: RasterTick,
    leg: usize,
    cruise: Cruise,
    fired: usize,
)
    requires
        f.valid(),
        f.started,
        f.state == (RasterState::OnLeg { leg, cruise, fired }),
    ensures
        ({
            let (g, a) = raster_step(f, t);
            let points = f.plan.captures[leg as int];
            let late = exceeds(t.now, f.deadline);
            let by = if cruise.travel_deadline is Some {
                cruise.travel_deadline->0
            } else {
                t.fresh_deadline
            };
            let there = t.at_target || exceeds(t.now, by);
            let last = leg + 1 == f.plan.legs.len();
            let due = no_more_than(cruise.next_send, t.now);
            &&& g.plan == f.plan && g.deadline == f.deadline && g.started
            &&& a.outcome == Some(FlightOutcome::TimedOut) <==> late
            &&& a.outcome == Some(FlightOutcome::Completed) <==> !late && there && last
            &&& a.outcome != Some(FlightOutcome::Aborted)
            &&& a.outcome matches Some(o) ==> g.state == RasterState::Done(o)
            &&& a.target is Some <==> !late && due
            &&& a.target matches Some(p) ==> p == cruise.target
            &&& late ==> a.events.len() == 0 && g.frames == f.frames
            &&& !late && !there ==> {
                &&& g.state is OnLeg && g.state->OnLeg_leg == leg
                &&& g.state->OnLeg_cruise == (Cruise {
                    target: cruise.target,
                    next_send: if due {
                        t.resend_at
                    } else {
                        cruise.next_send
                    },
                    travel_deadline: Some(by),
                })
                &&& fired <= g.state->OnLeg_fired <= points.len()
                &&& forall|i: int|
                    fired <= i < g.state->OnLeg_fired ==> !exceeds(
                        (#[trigger] points[i]).along_m,
                        t.along,
                    )
                &&& g.state->OnLeg_fired < points.len() ==> exceeds(
                    points[g.state->OnLeg_fired as int].along_m,
                    t.along,
                )
                &&& a.events.len() == g.state->OnLeg_fired - fired
                &&& g.frames == f.frames + a.events.len()
            }
            &&& !late && there ==> {
                &&& g.frames == f.frames + (points.len() - fired)
                &&& a.events.len() == points.len() - fired + if last {
                    0int
                } else {
                    1int
                }
                &&& !last ==> a.events.last() == (MissionEvent::LegStarted {
                    index: (leg + 1) as usize,
                })
                &&& !last ==> g.state == (RasterState::ToLegStart {
                    leg: (leg + 1) as usize,
                    cruise: Cruise {
                        target: f.plan.legs[leg + 1].start,
                        next_send: nil(),
                        travel_deadline: None,
                    },
                })
            }
            &&& forall|i: int|
                0 <= i < g.frames - f.frames ==> (#[trigger] a.events[i]) == (
                MissionEvent::Capture {
                    point: points[fired + i],
                    lat_deg: t.here.lat_deg,
                    lon_deg: t.here.lon_deg,
                    agl_m: t.here.agl_m,
                    heading_deg: if t.heading is Some {
                        t.heading->0
                    } else {
                        points[fired + i].heading_deg
                    },
                })
        }),
{
    let points = f.plan.captures[leg as int];
    lemma_leg_within(f.plan.captures, leg as int);
    lemma_fire_until(points, fired as int, t.along);
    let upto = fire_until(points, fired as int, t.along);
    assert(upto as usize == upto);
}

/// A survey that is over stays over and moves nothing.
pub proof fn ended_surveys_stay_ended(f: RasterFlightView, t: RasterTick)
    requires
        f.state is Done,
    ensures
        raster_step(f, t).0 == f,
        raster_step(f, t).1.outcome == Some(f.state->Done_0),
        raster_step(f, t).1.events.len() == 0 && raster_step(f, t).1.target is None,
{
}

/// Where a survey stands and resumes: on the leg it flies or flies to, after
/// the captures fired there, and beyond the last leg once it is over.
pub proof fn surveys_resume_on_their_leg(f: RasterFlightView)
    ensures
        f.state matches RasterState::ToLegStart { leg, .. } ==> current_leg(f) == leg && resume_of(f)
            == (leg as int, 0int) && snapshot_of(f) == (ResumeSnapshot::Raster {
            leg,
            fired_in_leg: 0,
        }),
        f.state matches RasterState::OnLeg { leg, fired, .. } ==> current_leg(f) == leg && resume_of(
            f,
        ) == (leg as int, fired as int) && snapshot_of(f) == (ResumeSnapshot::Raster {
            leg,
            fired_in_leg: fired,
        }),
        f.state is Done ==> current_leg(f) == f.plan.legs.len() - 1 && resume_of(f) == (
            f.plan.legs.len() as int,
            0int,
        ),
{
}

/// What a control cycle of a survey does with the vehicle: displaced, it saves
/// what remains and ends aborted; during a capture detour it moves nothing;
/// otherwise it is one step of the flight.
pub proof fn surveys_yield_to_other_commands(
    a: AgentView,
    s: SurveyView,
    t: RasterTick,
    now_ms: u64,
)
    ensures
        ({
            let (b, z, c) = survey_cycle(a, s, t, now_ms);
            let displaced = a.v.abort || a.v.busy != "raster-search"@;
            let step = raster_step(s.flight, t);
            &&& displaced ==> {
                &&& c.outcome == Some(FlightOutcome::Aborted) && c.target is None && !c.flown
                &&& z == s
                &&& b == (AgentView { v: b.v, ..a }) && b.v == (VehicleView { q: b.v.q, ..a.v })
                &&& b.v.q == (QueueView { active: b.v.q.active, ..a.v.q })
                &&& a.v.q.active is None ==> b.v.q.active is None
                &&& a.v.q.active matches Some(e) ==> b.v.q.active == Some(
                    TaskEntryView { resume: Some(snapshot_of(s.flight)), ..e },
                )
            }
            &&& !displaced ==> b == a
            &&& !displaced && a.detour ==> c.outcome is None && c.target is None && !c.flown
                && z.flight == s.flight
            &&& !displaced && !a.detour ==> c.outcome == step.1.outcome && c.target
                == step.1.target && c.flown && z.flight == step.0
        }),
{
}

/// What a survey says of itself at its end: the state that its outcome means,
/// and the journal line with its frames and legs.
pub proof fn surveys_tell_how_they_ended(a: AgentView, s: SurveyView, t: RasterTick, now_ms: u64)
    ensures
        ({
            let (_, z, c) = survey_cycle(a, s, t, now_ms);
            let n = c.reports.len() as int;
            c.outcome matches Some(o) ==> {
                &&& n >= 2
                &&& c.reports[n - 2] == (ReportView::Status {
                    state: match o {
                        FlightOutcome::Completed => "done"@,
                        FlightOutcome::Aborted => "aborted"@,
                        FlightOutcome::TimedOut => "failed"@,
                    },
                    leg: current_leg(z.flight),
                    frames: z.flight.frames as int,
                    note: match o {
                        FlightOutcome::Completed => "completed"@,
                        FlightOutcome::Aborted => "aborted"@,
                        FlightOutcome::TimedOut => "timeout"@,
                    },
                })
                &&& c.reports[n - 1] == (ReportView::Finished {
                    outcome: o,
                    frames: z.flight.frames as int,
                    legs: z.flight.plan.legs.len() as int,
                })
            }
        }),
{
}

/// A status is due one second after the last one; a paused survey then says
/// that a detour holds it, and one under way without news that it searches.
pub proof fn silent_surveys_report_every_second(
    a: AgentView,
    s: SurveyView,
    t: RasterTick,
    now_ms: u64,
)
    requires
        !a.v.abort,
        a.v.busy == "raster-search"@,
    ensures
        ({
            let (_, z, c) = survey_cycle(a, s, t, now_ms);
            let due = now_ms >= s.last_status_ms + 1_000;
            let quiet = a.detour || raster_step(s.flight, t).1.events.len() == 0;
            &&& quiet && !due ==> z.last_status_ms == s.last_status_ms
            &&& quiet && due ==> z.last_status_ms == now_ms && c.reports.len() > 0 && c.reports[0]
                == (ReportView::Status {
                state: "searching"@,
                leg: current_leg(z.flight),
                frames: z.flight.frames as int,
                note: if a.detour {
                    "paused: sensor-override detour"@
                } else {
                    ""@
                },
            })
            &&& quiet && !due && c.outcome is None ==> c.reports.len() == 0
        }),
{
}

// ---------------------------------------------------------------------------
// detours
// ---------------------------------------------------------------------------

/// How a detour to a capture point stands: it stops for a shutdown, and for
/// another command; it has arrived once the vehicle says so, and is too late
/// after its deadline. A target is sent again after two seconds.
pub proof fn detours_end_where_they_should(
    a: AgentView,
    d: DetourView,
    shut_down: bool,
    arrived: bool,
    now_ms: u64,
)
    ensures
        stopped(a, d, shut_down) == Some(Detour::ShutDown) <==> shut_down,
        stopped(a, d, shut_down) == Some(Detour::Preempted) <==> !shut_down && (a.v.abort
            || a.v.busy != d.task),
        stopped(a, d, shut_down) is None <==> !shut_down && !a.v.abort && a.v.busy == d.task,
        reached(d, arrived, now_ms) == Detour::Arrived <==> arrived,
        reached(d, arrived, now_ms) == Detour::TimedOut <==> !arrived && now_ms > d.deadline_ms,
        reached(d, arrived, now_ms) == Detour::Flying <==> !arrived && now_ms <= d.deadline_ms,
        now_ms <= u64::MAX - 2_000 ==> resend_at(now_ms) == now_ms + 2_000,
        resend_at(now_ms) >= now_ms,
{
}

} // verus!
