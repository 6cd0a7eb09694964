//! The investigation patterns: which one a request flies, the carrot-chasing
//! orbit and the waypoint sequence of the acoustic flyover.

use vstd::prelude::*;

use crate::flight::{fresh_cruise, Cruise, Fix, MissionEvent};
use crate::mission::{FlightOutcome, Point};
use crate::quantity::{real_zero, zero, Real};
use crate::services::{
    InvestigateRequest, InvestigateRequestView, PATTERN_FLYOVER, PATTERN_ORBIT,
};
use crate::text::same;

verus! {

// ---------------------------------------------------------------------------
// pattern selection
// ---------------------------------------------------------------------------

/// The job names sensors and all of them are microphones.
pub open spec fn audio_only(sensors: Seq<Seq<char>>) -> bool {
    sensors.len() > 0 && forall|i: int| 0 <= i < sensors.len() ==> #[trigger] sensors[i] == "audio"@
}

/// The pattern that a request flies.
pub open spec fn pattern_for(req: InvestigateRequestView, has_audio: bool) -> Seq<char> {
    if req.pattern == PATTERN_ORBIT@ {
        PATTERN_ORBIT@
    } else if req.pattern == PATTERN_FLYOVER@ {
        PATTERN_FLYOVER@
    } else if audio_only(req.sensors) && has_audio {
        PATTERN_FLYOVER@
    } else {
        PATTERN_ORBIT@
    }
}

/// Which flight geometry an investigate request flies. An explicit `orbit` or
/// `flyover` is honored; anything else selects the acoustic flyover for
/// audio-only jobs on an audio-capable vehicle and the orbit otherwise.
pub fn select_investigate_pattern(req: &InvestigateRequest, has_audio: bool) -> (r: &'static str)
    ensures
        r@ == pattern_for(req@, has_audio),
{
    if same(&req.pattern, PATTERN_ORBIT) {
        return PATTERN_ORBIT;
    }
    if same(&req.pattern, PATTERN_FLYOVER) {
        return PATTERN_FLYOVER;
    }
    let mut all_audio = true;
    let mut i: usize = 0;
    while i < req.sensors.len()
        invariant
            i <= req.sensors@.len(),
            all_audio == forall|j: int|
                0 <= j < i ==> #[trigger] req.sensors@[j]@ == "audio"@,
        decreases req.sensors@.len() - i,
    {
        if !same(&req.sensors[i], "audio") {
            all_audio = false;
        }
        i = i + 1;
    }
    proof {
        let s = req@.sensors;
        assert(all_audio <==> forall|j: int| 0 <= j < s.len() ==> #[trigger] s[j] == "audio"@) by {
            if all_audio {
                assert forall|j: int| 0 <= j < s.len() implies #[trigger] s[j] == "audio"@ by {
                    assert(req.sensors@[j]@ == "audio"@);
                }
            } else {
                let j = choose|j: int| 0 <= j < i && req.sensors@[j]@ != "audio"@;
                assert(s[j] != "audio"@);
            }
        }
    }
    if req.sensors.len() > 0 && all_audio && has_audio {
        PATTERN_FLYOVER
    } else {
        PATTERN_ORBIT
    }
}

// ---------------------------------------------------------------------------
// orbit
// ---------------------------------------------------------------------------

/// Where an orbit stands.
#[derive(Clone, Copy, Debug, PartialEq, Eq, Structural)]
pub enum OrbitState {
    /// The entry point is picked on the first tick.
    Init,
    /// Cruise to the circle's nearest point.
    Entry { cruise: Cruise, deadline: Real },
    /// Closed loop on the measured bearing.
    Orbiting { swept: Real, bearing: Real, budget: Real, next_cmd: Real },
    Done(FlightOutcome),
}

/// What one tick of an orbit is told.
#[derive(Clone, Copy, Debug, PartialEq, Eq, Structural)]
pub struct OrbitTick {
    pub now: Real,
    /// Nearest circle point, and the deadline of a cruise to it from here.
    pub entry: Point,
    pub entry_deadline: Real,
    /// The vehicle is at the entry point in effect.
    pub at_entry: bool,
    /// When a target sent now is sent again.
    pub resend_at: Real,
    /// Measured bearing from the center.
    pub bearing: Real,
    /// Time budget of an orbit that starts now.
    pub budget: Real,
    /// When the next carrot is due if one is commanded now.
    pub next_cmd: Real,
    /// The sweep so far plus the measured bearing change.
    pub swept: Real,
    /// Circle point a lead arc ahead, and the yaw that faces the center.
    pub carrot: Point,
    pub yaw: Real,
}

/// A position command: target and yaw, when the yaw is commanded.
#[derive(Clone, Copy, Debug, PartialEq, Eq, Structural)]
pub struct Command {
    pub target: Point,
    pub yaw: Option<Real>,
}

/// A carrot-chasing orbit around a ground point.
#[derive(Clone, Copy, Debug, PartialEq, Eq, Structural)]
pub struct OrbitFlight {
    /// Sweep goal, radians.
    pub goal: Real,
    pub state: OrbitState,
}

/// What a tick of an orbit answers.
#[verifier::ext_equal]
pub struct OrbitAnswer {
    pub outcome: Option<FlightOutcome>,
    pub entered: bool,
    pub command: Option<Command>,
}

/// The sweep never rewinds below zero.
pub open spec fn no_rewind(swept: Real) -> Real {
    if zero().at_most(swept) {
        swept
    } else {
        zero()
    }
}

/// What one tick of an orbit does.
pub open spec fn orbit_step(f: OrbitFlight, t: OrbitTick) -> (OrbitFlight, OrbitAnswer) {
    let quiet = OrbitAnswer { outcome: None, entered: false, command: None };
    let timed_out = (
        OrbitFlight { state: OrbitState::Done(FlightOutcome::TimedOut), ..f },
        OrbitAnswer { outcome: Some(FlightOutcome::TimedOut), ..quiet },
    );
    let state = if f.state is Init {
        OrbitState::Entry { cruise: fresh_cruise(t.entry), deadline: t.entry_deadline }
    } else {
        f.state
    };
    match state {
        OrbitState::Init => (f, quiet),
        OrbitState::Done(o) => (f, OrbitAnswer { outcome: Some(o), ..quiet }),
        OrbitState::Entry { cruise, deadline } => if t.at_entry {
            (
                OrbitFlight {
                    state: OrbitState::Orbiting {
                        swept: zero(),
                        bearing: t.bearing,
                        budget: t.budget,
                        next_cmd: t.now,
                    },
                    ..f
                },
                OrbitAnswer { entered: true, ..quiet },
            )
        } else if deadline.below(t.now) {
            timed_out
        } else if cruise.next_send.at_most(t.now) {
            (
                OrbitFlight {
                    state: OrbitState::Entry {
                        cruise: Cruise { next_send: t.resend_at, ..cruise },
                        deadline,
                    },
                    ..f
                },
                OrbitAnswer { command: Some(Command { target: cruise.target, yaw: None }), ..quiet },
            )
        } else {
            (OrbitFlight { state: OrbitState::Entry { cruise, deadline }, ..f }, quiet)
        },
        OrbitState::Orbiting { swept, bearing, budget, next_cmd } => if budget.below(t.now) {
            timed_out
        } else if t.now.below(next_cmd) {
            (f, quiet)
        } else if f.goal.at_most(no_rewind(t.swept)) {
            (
                OrbitFlight { state: OrbitState::Done(FlightOutcome::Completed), ..f },
                OrbitAnswer { outcome: Some(FlightOutcome::Completed), ..quiet },
            )
        } else {
            (
                OrbitFlight {
                    state: OrbitState::Orbiting {
                        swept: no_rewind(t.swept),
                        bearing: t.bearing,
                        budget,
                        next_cmd: t.next_cmd,
                    },
                    ..f
                },
                OrbitAnswer {
                    command: Some(Command { target: t.carrot, yaw: Some(t.yaw) }),
                    ..quiet
                },
            )
        },
    }
}

impl OrbitFlight {
    /// An orbit that ends once `goal` radians are swept.
    pub fn new(goal: Real) -> (r: Self)
        ensures
            r == (OrbitFlight { goal, state: OrbitState::Init }),
    {
        OrbitFlight { goal, state: OrbitState::Init }
    }

    /// Sweep so far, radians.
    pub open spec fn sweep(self) -> Real {
        match self.state {
            OrbitState::Orbiting { swept, .. } => swept,
            OrbitState::Done(_) => self.goal,
            _ => zero(),
        }
    }

    /// Sweep so far, radians; a flight that is over counts as fully swept.
    pub fn swept(&self) -> (r: Real)
        ensures
            r == self.sweep(),
    {
        match self.state {
            OrbitState::Orbiting { swept, .. } => swept,
            OrbitState::Done(_) => self.goal,
            OrbitState::Init => real_zero(),
            OrbitState::Entry { .. } => real_zero(),
        }
    }

    /// One control tick. Returns the terminal outcome once reached (and keeps
    /// returning it), the events and the position command.
    pub fn tick(&mut self, t: OrbitTick) -> (r: (
        Option<FlightOutcome>,
        Vec<MissionEvent>,
        Option<Command>,
    ))
        ensures
            ({
                let step = orbit_step(*old(self), t);
                &&& *final(self) == step.0
                &&& r.0 == step.1.outcome
                &&& r.1@ == (if step.1.entered {
                    seq![MissionEvent::OrbitEntered]
                } else {
                    Seq::empty()
                })
                &&& r.2 == step.1.command
            }),
    {
        let mut events: Vec<MissionEvent> = Vec::new();
        let state = match self.state {
            OrbitState::Init => OrbitState::Entry {
                cruise: Cruise::new(t.entry),
                deadline: t.entry_deadline,
            },
            other => other,
        };
        match state {
            OrbitState::Init => (None, events, None),
            OrbitState::Done(outcome) => (Some(outcome), events, None),
            OrbitState::Entry { cruise, deadline } => {
                if t.at_entry {
                    events.push(MissionEvent::OrbitEntered);
                    assert(events@ =~= seq![MissionEvent::OrbitEntered]);
                    self.state = OrbitState::Orbiting {
                        swept: real_zero(),
                        bearing: t.bearing,
                        budget: t.budget,
                        next_cmd: t.now,
                    };
                    return (None, events, None);
                }
                if deadline.lt(&t.now) {
                    self.state = OrbitState::Done(FlightOutcome::TimedOut);
                    return (Some(FlightOutcome::TimedOut), events, None);
                }
                if cruise.next_send.le(&t.now) {
                    self.state = OrbitState::Entry {
                        cruise: Cruise { next_send: t.resend_at, ..cruise },
                        deadline,
                    };
                    (None, events, Some(Command { target: cruise.target, yaw: None }))
                } else {
                    self.state = state;
                    (None, events, None)
                }
            },
            OrbitState::Orbiting { swept, bearing, budget, next_cmd } => {
                if budget.lt(&t.now) {
                    self.state = OrbitState::Done(FlightOutcome::TimedOut);
                    return (Some(FlightOutcome::TimedOut), events, None);
                }
                if t.now.lt(&next_cmd) {
                    return (None, events, None);
                }
                let floor = real_zero();
                let sweep = if floor.le(&t.swept) {
                    t.swept
                } else {
                    floor
                };
                if self.goal.le(&sweep) {
                    self.state = OrbitState::Done(FlightOutcome::Completed);
                    return (Some(FlightOutcome::Completed), events, None);
                }
                self.state = OrbitState::Orbiting {
                    swept: sweep,
                    bearing: t.bearing,
                    budget,
                    next_cmd: t.next_cmd,
                };
                (None, events, Some(Command { target: t.carrot, yaw: Some(t.yaw) }))
            },
        }
    }
}

/// The orbit after a run of ticks.
pub open spec fn after_orbit(f: OrbitFlight, ticks: Seq<OrbitTick>) -> OrbitFlight
    decreases ticks.len(),
{
    if ticks.len() == 0 {
        f
    } else {
        orbit_step(after_orbit(f, ticks.drop_last()), ticks.last()).0
    }
}

/// How often a run of ticks entered the orbit.
pub open spec fn entries(f: OrbitFlight, ticks: Seq<OrbitTick>) -> nat
    decreases ticks.len(),
{
    if ticks.len() == 0 {
        0
    } else {
        entries(f, ticks.drop_last()) + if orbit_step(
            after_orbit(f, ticks.drop_last()),
            ticks.last(),
        ).1.entered {
            1nat
        } else {
            0nat
        }
    }
}

/// An orbit is entered at most once, and one that completed or is under way
/// was entered.
pub proof fn orbits_are_entered_once(goal: Real, ticks: Seq<OrbitTick>)
    ensures
        ({
            let start = OrbitFlight { goal, state: OrbitState::Init };
            let end = after_orbit(start, ticks);
            &&& end.goal == goal
            &&& entries(start, ticks) <= 1
            &&& (end.state is Init || end.state is Entry) ==> entries(start, ticks) == 0
            &&& end.state is Orbiting || end.state == OrbitState::Done(FlightOutcome::Completed)
                ==> entries(start, ticks) == 1
        }),
    decreases ticks.len(),
{
    if ticks.len() > 0 {
        orbits_are_entered_once(goal, ticks.drop_last());
    }
}

/// `turns` means what it says: an orbit completes only on a tick whose
/// measured sweep reached the goal.
pub proof fn completed_orbits_swept_the_goal(f: OrbitFlight, t: OrbitTick)
    requires
        !(f.state is Done),
        orbit_step(f, t).0.state == OrbitState::Done(FlightOutcome::Completed),
    ensures
        f.state is Orbiting,
        f.goal.at_most(no_rewind(t.swept)),
        !(f.state->budget).below(t.now),
{
}

/// The sweep of an orbit is never negative.
pub proof fn sweep_never_rewinds(f: OrbitFlight, t: OrbitTick)
    requires
        f.state is Orbiting ==> zero().at_most(f.sweep()),
        zero().at_most(f.goal),
    ensures
        zero().at_most(orbit_step(f, t).0.sweep()),
{
}

// ---------------------------------------------------------------------------
// waypoint sequence
// ---------------------------------------------------------------------------

/// What one tick of a waypoint sequence is told.
#[derive(Clone, Copy, Debug, PartialEq, Eq, Structural)]
pub struct WaypointTick {
    pub now: Real,
    /// Travel deadline of a leg that starts now.
    pub fresh_deadline: Real,
    /// When a target sent now is sent again.
    pub resend_at: Real,
    /// The vehicle is at the current waypoint.
    pub at_target: bool,
}

/// A fixed waypoint sequence: each target is sent again until reached, and a
/// leg blocked for too long is passed over.
#[derive(Debug)]
pub struct WaypointFlight {
    points: Vec<Fix>,
    idx: usize,
    next_send: Real,
    leg_deadline: Option<Real>,
    deadline: Real,
    done: Option<FlightOutcome>,
}

/// A waypoint sequence by its values.
#[verifier::ext_equal]
pub struct WaypointView {
    pub points: Seq<Fix>,
    /// Next waypoint.
    pub idx: int,
    pub next_send: Real,
    pub leg_deadline: Option<Real>,
    pub deadline: Real,
    pub done: Option<FlightOutcome>,
}

impl View for WaypointFlight {
    type V = WaypointView;

    closed spec fn view(&self) -> WaypointView {
        WaypointView {
            points: self.points@,
            idx: self.idx as int,
            next_send: self.next_send,
            leg_deadline: self.leg_deadline,
            deadline: self.deadline,
            done: self.done,
        }
    }
}

impl WaypointView {
    /// What holds of every sequence in flight.
    pub open spec fn valid(self) -> bool {
        &&& 0 <= self.idx <= self.points.len()
        &&& self.done == Some(FlightOutcome::Completed) ==> self.idx == self.points.len()
    }
}

/// What one tick of a waypoint sequence does: the sequence afterwards, the
/// outcome and the target to command.
pub open spec fn waypoint_step(f: WaypointView, t: WaypointTick) -> (
    WaypointView,
    Option<FlightOutcome>,
    Option<Fix>,
) {
    let completed = Some(FlightOutcome::Completed);
    let timed_out = Some(FlightOutcome::TimedOut);
    if f.done is Some {
        (f, f.done, None)
    } else if f.idx >= f.points.len() {
        (WaypointView { done: completed, ..f }, completed, None)
    } else if f.deadline.below(t.now) {
        (WaypointView { done: timed_out, ..f }, timed_out, None)
    } else {
        let leg_deadline = match f.leg_deadline {
            Some(d) => d,
            None => t.fresh_deadline,
        };
        let due = f.next_send.at_most(t.now);
        let send = if due {
            Some(f.points[f.idx])
        } else {
            None
        };
        if t.at_target || leg_deadline.below(t.now) {
            let ended = f.idx + 1 >= f.points.len();
            (
                WaypointView {
                    idx: f.idx + 1,
                    next_send: zero(),
                    leg_deadline: None,
                    done: if ended {
                        completed
                    } else {
                        None
                    },
                    ..f
                },
                if ended {
                    completed
                } else {
                    None
                },
                send,
            )
        } else {
            (
                WaypointView {
                    next_send: if due {
                        t.resend_at
                    } else {
                        f.next_send
                    },
                    leg_deadline: Some(leg_deadline),
                    ..f
                },
                None,
                send,
            )
        }
    }
}

impl WaypointFlight {
    /// Start a sequence; it times out after `deadline`.
    pub fn new(points: Vec<Fix>, deadline: Real) -> (r: Self)
        ensures
            r@ == (WaypointView {
                points: points@,
                idx: 0,
                next_send: zero(),
                leg_deadline: None,
                deadline,
                done: None,
            }),
            r@.valid(),
    {
        WaypointFlight {
            points,
            idx: 0,
            next_send: real_zero(),
            leg_deadline: None,
            deadline,
            done: None,
        }
    }

    /// Next waypoint and their number.
    pub fn progress(&self) -> (r: (usize, usize))
        ensures
            r.0 == self@.idx,
            r.1 == self@.points.len(),
    {
        (self.idx, self.points.len())
    }

    /// The waypoint being flown to; `None` when all were visited.
    pub fn target(&self) -> (r: Option<Fix>)
        requires
            self@.valid(),
        ensures
            r == (if self@.idx < self@.points.len() {
                Some(self@.points[self@.idx])
            } else {
                None
            }),
    {
        if self.idx < self.points.len() {
            Some(self.points[self.idx])
        } else {
            None
        }
    }

    /// One control tick: the outcome once reached (and again on every later
    /// tick) and the target to command.
    pub fn tick(&mut self, t: WaypointTick) -> (r: (Option<FlightOutcome>, Option<Fix>))
        requires
            old(self)@.valid(),
        ensures
            final(self)@ == waypoint_step(old(self)@, t).0,
            r.0 == waypoint_step(old(self)@, t).1,
            r.1 == waypoint_step(old(self)@, t).2,
            final(self)@.valid(),
    {
        if self.done.is_some() {
            return (self.done, None);
        }
        if self.idx >= self.points.len() {
            self.done = Some(FlightOutcome::Completed);
            return (self.done, None);
        }
        if self.deadline.lt(&t.now) {
            self.done = Some(FlightOutcome::TimedOut);
            return (self.done, None);
        }
        let leg_deadline = match self.leg_deadline {
            Some(d) => d,
            None => t.fresh_deadline,
        };
        self.leg_deadline = Some(leg_deadline);
        let mut send = None;
        if self.next_send.le(&t.now) {
            send = Some(self.points[self.idx]);
            self.next_send = t.resend_at;
        }
        if t.at_target || leg_deadline.lt(&t.now) {
            self.idx = self.idx + 1;
            self.leg_deadline = None;
            self.next_send = real_zero();
            if self.idx >= self.points.len() {
                self.done = Some(FlightOutcome::Completed);
                return (self.done, send);
            }
        }
        (None, send)
    }

    /// Passes that a continuation flies: a pass has `per_pass` waypoints, and
    /// a started one is flown again.
    pub fn remaining_passes(&self, per_pass: usize) -> (r: usize)
        requires
            self@.valid(),
            per_pass > 0,
        ensures
            r == passes_left(self@.idx, self@.points.len() as int, per_pass as int),
    {
        let left: usize = self.points.len() - self.idx;
        let whole: usize = left / per_pass;
        if left % per_pass > 0 {
            assert(whole < usize::MAX) by (nonlinear_arith)
                requires
                    whole == left / per_pass,
                    left % per_pass > 0,
                    per_pass > 0,
            ;
            whole + 1
        } else {
            whole
        }
    }
}

/// Passes left after `idx` of `total` waypoints, the last one counted whole.
pub open spec fn passes_left(idx: int, total: int, per_pass: int) -> int {
    let left = total - idx;
    if left % per_pass > 0 {
        left / per_pass + 1
    } else {
        left / per_pass
    }
}

/// Waypoints of one pass when `points` waypoints make `passes` passes.
pub fn waypoints_per_pass(points: usize, passes: usize) -> (r: usize)
    requires
        passes > 0,
    ensures
        r == (if points >= passes {
            points / passes
        } else {
            1
        }),
        r > 0,
{
    if points >= passes {
        assert(points / passes >= 1) by (nonlinear_arith)
            requires
                points >= passes,
                passes > 0,
        ;
        points / passes
    } else {
        1
    }
}

/// The passes left cover the waypoints left, with less than one pass to spare.
pub proof fn remaining_passes_cover_the_rest(idx: int, total: int, per_pass: int)
    requires
        0 <= idx <= total,
        per_pass > 0,
    ensures
        passes_left(idx, total, per_pass) * per_pass >= total - idx,
        (passes_left(idx, total, per_pass) - 1) * per_pass < total - idx || idx == total,
{
    let left = total - idx;
    vstd::arithmetic::div_mod::lemma_fundamental_div_mod(left, per_pass);
    let q = left / per_pass;
    assert(per_pass * q + left % per_pass == left);
    assert((q + 1) * per_pass == per_pass * q + per_pass) by (nonlinear_arith);
    assert((q - 1) * per_pass == per_pass * q - per_pass) by (nonlinear_arith);
    assert(q * per_pass == per_pass * q) by (nonlinear_arith);
}

/// A waypoint sequence visits its points in order, one at most per tick, and
/// completes exactly when none is left.
pub proof fn waypoints_are_visited_in_order(f: WaypointView, t: WaypointTick)
    requires
        f.valid(),
        f.done is None,
    ensures
        waypoint_step(f, t).0.valid(),
        waypoint_step(f, t).0.points == f.points,
        f.idx <= waypoint_step(f, t).0.idx <= f.idx + 1,
        waypoint_step(f, t).1 == Some(FlightOutcome::Completed) <==> waypoint_step(f, t).0.idx
            >= f.points.len(),
        waypoint_step(f, t).2 matches Some(p) ==> p == f.points[f.idx],
{
}

} // verus!
