//! The flight patterns as tickable state machines: the serpentine survey, the
//! carrot-chasing orbit and the waypoint sequence.
//!
//! A tick receives what the caller measured and computed on doubles (time,
//! position, deadlines) and answers with the outcome, the events and the
//! target to command.

use vstd::prelude::*;

use crate::mission::{
    captures_before, flat, lemma_flat_at, CapturePoint, FlightOutcome, Point, RasterPlan,
    RasterPlanView,
};
use crate::quantity::{real_zero, zero, Real};

verus! {

/// Position of the vehicle.
#[derive(Clone, Copy, Debug, PartialEq, Eq, Structural)]
pub struct Fix {
    pub lat_deg: Real,
    pub lon_deg: Real,
    pub agl_m: Real,
}

/// Progress event of a tick.
#[derive(Clone, Copy, Debug, PartialEq, Eq, Structural)]
pub enum MissionEvent {
    /// Transit to the start of leg `index` begins.
    LegStarted { index: usize },
    /// A capture fired; the pose is the vehicle's actual position.
    Capture {
        point: CapturePoint,
        lat_deg: Real,
        lon_deg: Real,
        agl_m: Real,
        heading_deg: Real,
    },
    /// The orbit entry point was reached.
    OrbitEntered,
}

/// One cruise toward a fixed target with re-sends and a travel deadline.
#[derive(Clone, Copy, Debug, PartialEq, Eq, Structural)]
pub struct Cruise {
    pub target: Point,
    /// The target is commanded again from this time on.
    pub next_send: Real,
    /// Set on the first tick.
    pub travel_deadline: Option<Real>,
}

/// A cruise that has not been commanded yet.
pub open spec fn fresh_cruise(target: Point) -> Cruise {
    Cruise { target, next_send: zero(), travel_deadline: None }
}

impl Cruise {
    /// A cruise that has not been commanded yet.
    pub fn new(target: Point) -> (r: Self)
        ensures
            r == fresh_cruise(target),
    {
        Cruise { target, next_send: real_zero(), travel_deadline: None }
    }
}

// ---------------------------------------------------------------------------
// survey
// ---------------------------------------------------------------------------

/// Where a survey stands.
#[derive(Clone, Copy, Debug, PartialEq, Eq, Structural)]
pub enum RasterState {
    /// Transit to the start of `leg`.
    ToLegStart { leg: usize, cruise: Cruise },
    /// Flying `leg`; its first `fired` captures have fired.
    OnLeg { leg: usize, cruise: Cruise, fired: usize },
    Done(FlightOutcome),
}

/// What one tick of a survey is told.
#[derive(Clone, Copy, Debug, PartialEq, Eq, Structural)]
pub struct RasterTick {
    /// Mission time.
    pub now: Real,
    /// Position (the origin when unknown).
    pub here: Fix,
    /// Projection of the position on the current leg, metres from its start.
    pub along: Real,
    /// Travel deadline of a cruise that starts now.
    pub fresh_deadline: Real,
    /// When a target sent now is sent again.
    pub resend_at: Real,
    /// The vehicle is at the current target.
    pub at_target: bool,
    /// Heading, when the vehicle has a compass.
    pub heading: Option<Real>,
}

/// The serpentine survey in flight.
#[derive(Debug)]
pub struct RasterFlight {
    plan: RasterPlan,
    state: RasterState,
    deadline: Real,
    frames: u64,
    started: bool,
}

/// A survey in flight, by its values.
#[verifier::ext_equal]
pub struct RasterFlightView {
    pub plan: RasterPlanView,
    pub state: RasterState,
    /// The flight times out after this.
    pub deadline: Real,
    /// Captures fired so far.
    pub frames: nat,
    pub started: bool,
}

impl View for RasterFlight {
    type V = RasterFlightView;

    closed spec fn view(&self) -> RasterFlightView {
        RasterFlightView {
            plan: self.plan@,
            state: self.state,
            deadline: self.deadline,
            frames: self.frames as nat,
            started: self.started,
        }
    }
}

/// Number of captures that a survey in this state has fired.
pub open spec fn fired_so_far(f: RasterFlightView) -> int {
    match f.state {
        RasterState::ToLegStart { leg, .. } => captures_before(f.plan.captures, leg as int),
        RasterState::OnLeg { leg, fired, .. } => captures_before(f.plan.captures, leg as int)
            + fired,
        RasterState::Done(_) => flat(f.plan.captures).len() as int,
    }
}

impl RasterFlightView {
    /// What holds of every survey in flight.
    pub open spec fn valid(self) -> bool {
        &&& self.plan.valid()
        &&& match self.state {
            RasterState::ToLegStart { leg, .. } => leg < self.plan.legs.len(),
            RasterState::OnLeg { leg, fired, .. } => leg < self.plan.legs.len() && fired
                <= self.plan.captures[leg as int].len(),
            RasterState::Done(_) => true,
        }
        &&& self.state is Done || self.frames == fired_so_far(self)
        &&& self.frames <= flat(self.plan.captures).len()
    }
}

/// First capture from `from` on that lies beyond `along`, or the end.
pub open spec fn fire_until(points: Seq<CapturePoint>, from: int, along: Real) -> int
    decreases points.len() - from,
{
    if from >= points.len() {
        points.len() as int
    } else if along.below(points[from].along_m) {
        from
    } else {
        fire_until(points, from + 1, along)
    }
}

/// The event of a capture.
pub open spec fn capture_event_of(c: CapturePoint, t: RasterTick) -> MissionEvent {
    MissionEvent::Capture {
        point: c,
        lat_deg: t.here.lat_deg,
        lon_deg: t.here.lon_deg,
        agl_m: t.here.agl_m,
        heading_deg: match t.heading {
            Some(h) => h,
            None => c.heading_deg,
        },
    }
}

/// The events of several captures.
pub open spec fn capture_events(points: Seq<CapturePoint>, t: RasterTick) -> Seq<MissionEvent> {
    points.map_values(|c: CapturePoint| capture_event_of(c, t))
}

/// The cruise after a tick: its deadline is fixed, and a due target was sent.
pub open spec fn cruised(c: Cruise, t: RasterTick) -> Cruise {
    Cruise {
        target: c.target,
        next_send: if c.next_send.at_most(t.now) {
            t.resend_at
        } else {
            c.next_send
        },
        travel_deadline: Some(
            match c.travel_deadline {
                Some(d) => d,
                None => t.fresh_deadline,
            },
        ),
    }
}

/// The target that a tick commands.
pub open spec fn commanded(c: Cruise, t: RasterTick) -> Option<Point> {
    if c.next_send.at_most(t.now) {
        Some(c.target)
    } else {
        None
    }
}

/// The vehicle is at the target, or was blocked short of it for too long.
pub open spec fn arrived(c: Cruise, t: RasterTick) -> bool {
    t.at_target || (cruised(c, t).travel_deadline->0).below(t.now)
}

/// What a tick of a survey answers.
#[verifier::ext_equal]
pub struct RasterAnswer {
    pub outcome: Option<FlightOutcome>,
    pub events: Seq<MissionEvent>,
    pub target: Option<Point>,
}

/// The leg-start event of the first tick.
pub open spec fn first_event(f: RasterFlightView) -> Seq<MissionEvent> {
    if f.started {
        Seq::empty()
    } else {
        seq![MissionEvent::LegStarted { index: 0 }]
    }
}

/// What one tick of a survey does.
pub open spec fn raster_step(f: RasterFlightView, t: RasterTick) -> (
    RasterFlightView,
    RasterAnswer,
) {
    let first = first_event(f);
    if f.state is Done {
        (f, RasterAnswer { outcome: Some(f.state->Done_0), events: Seq::empty(), target: None })
    } else if f.deadline.below(t.now) {
        (
            RasterFlightView {
                state: RasterState::Done(FlightOutcome::TimedOut),
                started: true,
                ..f
            },
            RasterAnswer { outcome: Some(FlightOutcome::TimedOut), events: first, target: None },
        )
    } else {
        match f.state {
            RasterState::Done(o) => (
                f,
                RasterAnswer { outcome: Some(o), events: Seq::empty(), target: None },
            ),
            RasterState::ToLegStart { leg, cruise } => (
                RasterFlightView {
                    state: if arrived(cruise, t) {
                        RasterState::OnLeg {
                            leg,
                            cruise: fresh_cruise(f.plan.legs[leg as int].end),
                            fired: 0,
                        }
                    } else {
                        RasterState::ToLegStart { leg, cruise: cruised(cruise, t) }
                    },
                    started: true,
                    ..f
                },
                RasterAnswer { outcome: None, events: first, target: commanded(cruise, t) },
            ),
            RasterState::OnLeg { leg, cruise, fired } => {
                let points = f.plan.captures[leg as int];
                let upto = fire_until(points, fired as int, t.along);
                if !arrived(cruise, t) {
                    (
                        RasterFlightView {
                            state: RasterState::OnLeg {
                                leg,
                                cruise: cruised(cruise, t),
                                fired: upto as usize,
                            },
                            frames: (f.frames + upto - fired) as nat,
                            started: true,
                            ..f
                        },
                        RasterAnswer {
                            outcome: None,
                            events: first + capture_events(
                                points.subrange(fired as int, upto),
                                t,
                            ),
                            target: commanded(cruise, t),
                        },
                    )
                } else {
                    let all = first + capture_events(points.skip(fired as int), t);
                    let frames = (f.frames + points.len() - fired) as nat;
                    if leg + 1 >= f.plan.legs.len() {
                        (
                            RasterFlightView {
                                state: RasterState::Done(FlightOutcome::Completed),
                                frames,
                                started: true,
                                ..f
                            },
                            RasterAnswer {
                                outcome: Some(FlightOutcome::Completed),
                                events: all,
                                target: commanded(cruise, t),
                            },
                        )
                    } else {
                        (
                            RasterFlightView {
                                state: RasterState::ToLegStart {
                                    leg: (leg + 1) as usize,
                                    cruise: fresh_cruise(f.plan.legs[leg + 1].start),
                                },
                                frames,
                                started: true,
                                ..f
                            },
                            RasterAnswer {
                                outcome: None,
                                events: all.push(
                                    MissionEvent::LegStarted { index: (leg + 1) as usize },
                                ),
                                target: commanded(cruise, t),
                            },
                        )
                    }
                }
            },
        }
    }
}

/// `fire_until` stays within the list and never goes back.
pub proof fn lemma_fire_until(points: Seq<CapturePoint>, from: int, along: Real)
    requires
        0 <= from <= points.len(),
    ensures
        from <= fire_until(points, from, along) <= points.len(),
        forall|i: int|
            from <= i < fire_until(points, from, along) ==> !along.below(
                (#[trigger] points[i]).along_m,
            ),
        fire_until(points, from, along) < points.len() ==> along.below(
            points[fire_until(points, from, along)].along_m,
        ),
    decreases points.len() - from,
{
    if from < points.len() && !along.below(points[from].along_m) {
        lemma_fire_until(points, from + 1, along);
    }
}

/// Captures of one leg fit in the whole.
pub proof fn lemma_leg_within(captures: Seq<Seq<CapturePoint>>, leg: int)
    requires
        0 <= leg < captures.len(),
    ensures
        captures_before(captures, leg) + captures[leg].len() <= flat(captures).len(),
        captures_before(captures, leg + 1) == captures_before(captures, leg)
            + captures[leg].len(),
        leg + 1 == captures.len() ==> captures_before(captures, leg) + captures[leg].len()
            == flat(captures).len(),
{
    lemma_flat_at(captures, leg);
    if leg + 1 == captures.len() {
        assert(captures.skip(leg + 1) =~= Seq::empty());
    }
}

impl RasterFlight {
    /// Start flying a plan; the flight times out after `deadline`.
    pub fn new(plan: RasterPlan, deadline: Real) -> (r: Self)
        requires
            plan@.valid(),
        ensures
            r@ == (RasterFlightView {
                plan: plan@,
                state: RasterState::ToLegStart {
                    leg: 0,
                    cruise: fresh_cruise(plan@.legs[0].start),
                },
                deadline,
                frames: 0,
                started: false,
            }),
            r@.valid(),
    {
        let first = plan.legs[0].start;
        assert(plan@.captures.take(0) =~= Seq::empty());
        RasterFlight {
            plan,
            state: RasterState::ToLegStart { leg: 0, cruise: Cruise::new(first) },
            deadline,
            frames: 0,
            started: false,
        }
    }

    /// Current leg.
    pub fn leg(&self) -> (r: usize)
        requires
            self@.valid(),
        ensures
            r == (match self@.state {
                RasterState::ToLegStart { leg, .. } => leg as int,
                RasterState::OnLeg { leg, .. } => leg as int,
                RasterState::Done(_) => self@.plan.legs.len() - 1,
            }),
    {
        match self.state {
            RasterState::ToLegStart { leg, .. } => leg,
            RasterState::OnLeg { leg, .. } => leg,
            RasterState::Done(_) => self.plan.legs.len() - 1,
        }
    }

    /// Number of legs.
    pub fn legs_total(&self) -> (r: usize)
        ensures
            r == self@.plan.legs.len(),
    {
        self.plan.legs.len()
    }

    /// Captures fired so far.
    pub fn frames(&self) -> (r: u64)
        ensures
            r == self@.frames,
    {
        self.frames
    }

    /// The plan being flown.
    pub fn plan(&self) -> (r: &RasterPlan)
        ensures
            r@ == self@.plan,
    {
        &self.plan
    }

    /// The target of the current cruise and the leg it belongs to; `None`
    /// once the flight is over.
    pub fn cruise_target(&self) -> (r: Option<Point>)
        ensures
            r == (match self@.state {
                RasterState::ToLegStart { cruise, .. } => Some(cruise.target),
                RasterState::OnLeg { cruise, .. } => Some(cruise.target),
                RasterState::Done(_) => None,
            }),
    {
        match self.state {
            RasterState::ToLegStart { cruise, .. } => Some(cruise.target),
            RasterState::OnLeg { cruise, .. } => Some(cruise.target),
            RasterState::Done(_) => None,
        }
    }

    /// Split snapshot: first leg still to fly, and captures already fired on
    /// it, as indices into this flight's plan.
    pub fn resume_state(&self) -> (r: (usize, usize))
        ensures
            r == (match self@.state {
                RasterState::ToLegStart { leg, .. } => (leg, 0usize),
                RasterState::OnLeg { leg, fired, .. } => (leg, fired),
                RasterState::Done(_) => (self@.plan.legs.len() as usize, 0usize),
            }),
    {
        match self.state {
            RasterState::ToLegStart { leg, .. } => (leg, 0),
            RasterState::OnLeg { leg, fired, .. } => (leg, fired),
            RasterState::Done(_) => (self.plan.legs.len(), 0),
        }
    }

    /// Fire the captures `from..to` of a leg.
    fn fire(&mut self, leg: usize, from: usize, to: usize, t: &RasterTick, out: &mut Vec<
        MissionEvent,
    >)
        requires
            leg < old(self)@.plan.captures.len(),
            from <= to <= old(self)@.plan.captures[leg as int].len(),
            old(self)@.frames + to - from <= u64::MAX,
        ensures
            final(self)@ == (RasterFlightView {
                frames: (old(self)@.frames + to - from) as nat,
                ..old(self)@
            }),
            final(out)@ == old(out)@ + capture_events(
                old(self)@.plan.captures[leg as int].subrange(from as int, to as int),
                *t,
            ),
    {
        let ghost points = self@.plan.captures[leg as int];
        let mut i: usize = from;
        assert(out@ =~= old(out)@ + capture_events(points.subrange(from as int, from as int), *t));
        while i < to
            invariant
                from <= i <= to <= points.len(),
                leg < self.plan.captures@.len(),
                points == self.plan.captures@[leg as int]@,
                old(self)@.frames + to - from <= u64::MAX,
                self@ == (RasterFlightView {
                    frames: (old(self)@.frames + i - from) as nat,
                    ..old(self)@
                }),
                out@ == old(out)@ + capture_events(points.subrange(from as int, i as int), *t),
            decreases to - i,
        {
            let c: CapturePoint = self.plan.captures[leg][i];
            self.frames = self.frames + 1;
            out.push(
                MissionEvent::Capture {
                    point: c,
                    lat_deg: t.here.lat_deg,
                    lon_deg: t.here.lon_deg,
                    agl_m: t.here.agl_m,
                    heading_deg: match t.heading {
                        Some(h) => h,
                        None => c.heading_deg,
                    },
                },
            );
            assert(points.subrange(from as int, i + 1) =~= points.subrange(
                from as int,
                i as int,
            ).push(points[i as int]));
            assert(out@ =~= old(out)@ + capture_events(
                points.subrange(from as int, i + 1),
                *t,
            ));
            i = i + 1;
        }
    }

    /// One control tick: fire the captures that the vehicle passed, send the
    /// target again if due, advance on arrival. Returns the terminal outcome
    /// once reached, and keeps returning it.
    pub fn tick(&mut self, t: RasterTick) -> (r: (
        Option<FlightOutcome>,
        Vec<MissionEvent>,
        Option<Point>,
    ))
        requires
            old(self)@.valid(),
        ensures
            ({
                let step = raster_step(old(self)@, t);
                &&& final(self)@ == step.0
                &&& r.0 == step.1.outcome
                &&& r.1@ == step.1.events
                &&& r.2 == step.1.target
            }),
            final(self)@.valid(),
    {
        let mut out: Vec<MissionEvent> = Vec::new();
        if let RasterState::Done(outcome) = self.state {
            return (Some(outcome), out, None);
        }
        if !self.started {
            self.started = true;
            out.push(MissionEvent::LegStarted { index: 0 });
        }
        assert(out@ =~= first_event(old(self)@));
        if self.deadline.lt(&t.now) {
            self.state = RasterState::Done(FlightOutcome::TimedOut);
            return (Some(FlightOutcome::TimedOut), out, None);
        }
        let ghost caps = self@.plan.captures;
        match self.state {
            RasterState::Done(outcome) => (Some(outcome), out, None),
            RasterState::ToLegStart { leg, cruise } => {
                let (next, send, there) = cruise_tick(cruise, &t);
                if there {
                    let end = self.plan.legs[leg].end;
                    self.state = RasterState::OnLeg { leg, cruise: Cruise::new(end), fired: 0 };
                } else {
                    self.state = RasterState::ToLegStart { leg, cruise: next };
                }
                (None, out, send)
            },
            RasterState::OnLeg { leg, cruise, fired } => {
                proof {
                    lemma_leg_within(caps, leg as int);
                    lemma_fire_until(caps[leg as int], fired as int, t.along);
                }
                let total: usize = self.plan.captures[leg].len();
                let leg_count: usize = self.plan.legs.len();
                assert(leg < leg_count);
                let mut upto: usize = fired;
                while upto < total && !t.along.lt(&self.plan.captures[leg][upto].along_m)
                    invariant
                        fired <= upto <= total,
                        leg < self.plan.captures@.len(),
                        total == self.plan.captures@[leg as int]@.len(),
                        fire_until(self.plan.captures@[leg as int]@, fired as int, t.along)
                            == fire_until(
                            self.plan.captures@[leg as int]@,
                            upto as int,
                            t.along,
                        ),
                    decreases total - upto,
                {
                    upto = upto + 1;
                }
                let (next, send, there) = cruise_tick(cruise, &t);
                self.fire(leg, fired, upto, &t, &mut out);
                if !there {
                    self.state = RasterState::OnLeg { leg, cruise: next, fired: upto };
                    return (None, out, send);
                }
                self.fire(leg, upto, total, &t, &mut out);
                proof {
                    let points = caps[leg as int];
                    assert(points.subrange(fired as int, upto as int) + points.subrange(
                        upto as int,
                        total as int,
                    ) =~= points.skip(fired as int));
                    assert(out@ =~= first_event(old(self)@) + capture_events(
                        points.skip(fired as int),
                        t,
                    ));
                }
                if leg + 1 >= leg_count {
                    self.state = RasterState::Done(FlightOutcome::Completed);
                    (Some(FlightOutcome::Completed), out, send)
                } else {
                    let start = self.plan.legs[leg + 1].start;
                    out.push(MissionEvent::LegStarted { index: leg + 1 });
                    self.state = RasterState::ToLegStart {
                        leg: leg + 1,
                        cruise: Cruise::new(start),
                    };
                    (None, out, send)
                }
            },
        }
    }
}

/// The cruise part of a tick: the cruise afterwards, the target to command
/// and whether the vehicle arrived.
fn cruise_tick(cruise: Cruise, t: &RasterTick) -> (r: (Cruise, Option<Point>, bool))
    ensures
        r.0 == cruised(cruise, *t),
        r.1 == commanded(cruise, *t),
        r.2 == arrived(cruise, *t),
{
    let deadline = match cruise.travel_deadline {
        Some(d) => d,
        None => t.fresh_deadline,
    };
    let due = cruise.next_send.le(&t.now);
    let next = Cruise {
        target: cruise.target,
        next_send: if due {
            t.resend_at
        } else {
            cruise.next_send
        },
        travel_deadline: Some(deadline),
    };
    let send = if due {
        Some(cruise.target)
    } else {
        None
    };
    (next, send, t.at_target || deadline.lt(&t.now))
}

// ---------------------------------------------------------------------------
// what a survey promises
// ---------------------------------------------------------------------------

/// The capture points among events.
pub open spec fn captured(events: Seq<MissionEvent>) -> Seq<CapturePoint>
    decreases events.len(),
{
    if events.len() == 0 {
        Seq::empty()
    } else {
        match events.last() {
            MissionEvent::Capture { point, .. } => captured(events.drop_last()).push(point),
            _ => captured(events.drop_last()),
        }
    }
}

proof fn lemma_captured_add(a: Seq<MissionEvent>, b: Seq<MissionEvent>)
    ensures
        captured(a + b) == captured(a) + captured(b),
    decreases b.len(),
{
    if b.len() == 0 {
        assert(a + b =~= a);
        assert(captured(a) + captured(b) =~= captured(a));
    } else {
        assert((a + b).drop_last() =~= a + b.drop_last());
        assert((a + b).last() == b.last());
        lemma_captured_add(a, b.drop_last());
        match b.last() {
            MissionEvent::Capture { point, .. } => {
                assert((captured(a) + captured(b.drop_last())).push(point) =~= captured(a)
                    + captured(b.drop_last()).push(point));
            },
            _ => {},
        }
    }
}

proof fn lemma_captured_events(points: Seq<CapturePoint>, t: RasterTick)
    ensures
        captured(capture_events(points, t)) == points,
    decreases points.len(),
{
    if points.len() > 0 {
        lemma_captured_events(points.drop_last(), t);
        assert(capture_events(points, t).drop_last() =~= capture_events(points.drop_last(), t));
        assert(points.drop_last().push(points.last()) =~= points);
    } else {
        assert(capture_events(points, t) =~= Seq::empty());
    }
}

/// A tick keeps a survey valid.
pub proof fn raster_step_keeps_valid(f: RasterFlightView, t: RasterTick)
    requires
        f.valid(),
    ensures
        raster_step(f, t).0.valid(),
        raster_step(f, t).0.plan == f.plan,
{
    let g = raster_step(f, t).0;
    match f.state {
        RasterState::OnLeg { leg, fired, .. } => {
            lemma_leg_within(f.plan.captures, leg as int);
            lemma_fire_until(f.plan.captures[leg as int], fired as int, t.along);
        },
        RasterState::ToLegStart { leg, .. } => {
            lemma_leg_within(f.plan.captures, leg as int);
        },
        _ => {},
    }
}

/// A tick that does not time out fires exactly the next captures of the plan,
/// in plan order: those between what had fired before it and after it.
pub proof fn a_tick_fires_the_next_captures(f: RasterFlightView, t: RasterTick)
    requires
        f.valid(),
        raster_step(f, t).0.state != RasterState::Done(FlightOutcome::TimedOut),
    ensures
        fired_so_far(f) <= fired_so_far(raster_step(f, t).0),
        captured(raster_step(f, t).1.events) == flat(f.plan.captures).subrange(
            fired_so_far(f),
            fired_so_far(raster_step(f, t).0),
        ),
{
    raster_step_keeps_valid(f, t);
    let caps = f.plan.captures;
    let whole = flat(caps);
    let g = raster_step(f, t).0;
    let first = first_event(f);
    assert(captured(first) =~= Seq::empty()) by {
        assert(captured(Seq::<MissionEvent>::empty()) =~= Seq::empty());
        if first.len() > 0 {
            assert(first.drop_last() =~= Seq::empty());
        }
    }
    match f.state {
        RasterState::Done(_) => {
            assert(whole.subrange(whole.len() as int, whole.len() as int) =~= Seq::empty());
        },
        RasterState::ToLegStart { leg, cruise } => {
            lemma_leg_within(caps, leg as int);
            assert(whole.subrange(fired_so_far(f), fired_so_far(g)) =~= Seq::empty());
        },
        RasterState::OnLeg { leg, cruise, fired } => {
            let points = caps[leg as int];
            let base = captures_before(caps, leg as int);
            lemma_leg_within(caps, leg as int);
            lemma_fire_until(points, fired as int, t.along);
            lemma_flat_at(caps, leg as int);
            let upto = fire_until(points, fired as int, t.along);
            if !arrived(cruise, t) {
                let part = points.subrange(fired as int, upto);
                lemma_captured_events(part, t);
                lemma_captured_add(first, capture_events(part, t));
                assert(part =~= whole.subrange(base + fired, base + upto));
                assert(captured(first) + part =~= part);
            } else {
                let part = points.skip(fired as int);
                lemma_captured_events(part, t);
                lemma_captured_add(first, capture_events(part, t));
                assert(part =~= whole.subrange(base + fired, base + points.len()));
                assert(captured(first) + part =~= part);
                if leg + 1 < f.plan.legs.len() {
                    let ev = first + capture_events(part, t);
                    let last = MissionEvent::LegStarted { index: (leg + 1) as usize };
                    assert(ev.push(last).drop_last() =~= ev);
                }
            }
        },
    }
}

/// The survey after a run of ticks.
pub open spec fn after_ticks(f: RasterFlightView, ticks: Seq<RasterTick>) -> RasterFlightView
    decreases ticks.len(),
{
    if ticks.len() == 0 {
        f
    } else {
        raster_step(after_ticks(f, ticks.drop_last()), ticks.last()).0
    }
}

/// The events of a run of ticks.
pub open spec fn tick_events(f: RasterFlightView, ticks: Seq<RasterTick>) -> Seq<MissionEvent>
    decreases ticks.len(),
{
    if ticks.len() == 0 {
        Seq::empty()
    } else {
        tick_events(f, ticks.drop_last()) + raster_step(
            after_ticks(f, ticks.drop_last()),
            ticks.last(),
        ).1.events
    }
}

/// A survey that timed out stays timed out.
proof fn lemma_timeout_is_final(f: RasterFlightView, t: RasterTick)
    requires
        raster_step(f, t).0.state != RasterState::Done(FlightOutcome::TimedOut),
    ensures
        f.state != RasterState::Done(FlightOutcome::TimedOut),
{
}

/// Over any run of ticks without a timeout, the captures fired are exactly the
/// next ones of the plan, each once and in order.
pub proof fn a_flight_fires_captures_in_order(f: RasterFlightView, ticks: Seq<RasterTick>)
    requires
        f.valid(),
        after_ticks(f, ticks).state != RasterState::Done(FlightOutcome::TimedOut),
    ensures
        after_ticks(f, ticks).valid(),
        after_ticks(f, ticks).plan == f.plan,
        fired_so_far(f) <= fired_so_far(after_ticks(f, ticks)),
        captured(tick_events(f, ticks)) == flat(f.plan.captures).subrange(
            fired_so_far(f),
            fired_so_far(after_ticks(f, ticks)),
        ),
    decreases ticks.len(),
{
    let whole = flat(f.plan.captures);
    if ticks.len() == 0 {
        assert(whole.subrange(fired_so_far(f), fired_so_far(f)) =~= Seq::empty());
        if let RasterState::OnLeg { leg, .. } = f.state {
            lemma_leg_within(f.plan.captures, leg as int);
        }
    } else {
        let mid = after_ticks(f, ticks.drop_last());
        lemma_timeout_is_final(mid, ticks.last());
        a_flight_fires_captures_in_order(f, ticks.drop_last());
        a_tick_fires_the_next_captures(mid, ticks.last());
        raster_step_keeps_valid(mid, ticks.last());
        let end = after_ticks(f, ticks);
        lemma_captured_add(
            tick_events(f, ticks.drop_last()),
            raster_step(mid, ticks.last()).1.events,
        );
        lemma_fired_bound(f);
        lemma_fired_bound(end);
        assert(whole.subrange(fired_so_far(f), fired_so_far(mid)) + whole.subrange(
            fired_so_far(mid),
            fired_so_far(end),
        ) =~= whole.subrange(fired_so_far(f), fired_so_far(end)));
    }
}

/// What has fired is part of the plan.
proof fn lemma_fired_bound(f: RasterFlightView)
    requires
        f.valid(),
    ensures
        0 <= fired_so_far(f) <= flat(f.plan.captures).len(),
{
    match f.state {
        RasterState::ToLegStart { leg, .. } => {
            lemma_leg_within(f.plan.captures, leg as int);
        },
        RasterState::OnLeg { leg, .. } => {
            lemma_leg_within(f.plan.captures, leg as int);
        },
        _ => {},
    }
}

/// A survey as it starts.
pub open spec fn at_start(plan: RasterPlanView, deadline: Real) -> RasterFlightView {
    RasterFlightView {
        plan,
        state: RasterState::ToLegStart { leg: 0, cruise: fresh_cruise(plan.legs[0].start) },
        deadline,
        frames: 0,
        started: false,
    }
}

/// The legs that events start.
pub open spec fn legs_begun(events: Seq<MissionEvent>) -> Seq<int>
    decreases events.len(),
{
    if events.len() == 0 {
        Seq::empty()
    } else {
        match events.last() {
            MissionEvent::LegStarted { index } => legs_begun(events.drop_last()).push(index as int),
            _ => legs_begun(events.drop_last()),
        }
    }
}

/// The first `n` legs.
pub open spec fn first_legs(n: nat) -> Seq<int> {
    Seq::new(n, |i: int| i)
}

/// How many legs a survey has announced.
pub open spec fn legs_told(f: RasterFlightView) -> nat {
    if !f.started {
        0
    } else {
        match f.state {
            RasterState::ToLegStart { leg, .. } => (leg + 1) as nat,
            RasterState::OnLeg { leg, .. } => (leg + 1) as nat,
            RasterState::Done(_) => f.plan.legs.len(),
        }
    }
}

proof fn lemma_begun_add(a: Seq<MissionEvent>, b: Seq<MissionEvent>)
    ensures
        legs_begun(a + b) == legs_begun(a) + legs_begun(b),
    decreases b.len(),
{
    if b.len() == 0 {
        assert(a + b =~= a);
        assert(legs_begun(a) + legs_begun(b) =~= legs_begun(a));
    } else {
        assert((a + b).drop_last() =~= a + b.drop_last());
        assert((a + b).last() == b.last());
        lemma_begun_add(a, b.drop_last());
        match b.last() {
            MissionEvent::LegStarted { index } => {
                assert((legs_begun(a) + legs_begun(b.drop_last())).push(index as int)
                    =~= legs_begun(a) + legs_begun(b.drop_last()).push(index as int));
            },
            _ => {},
        }
    }
}

proof fn lemma_captures_begin_nothing(points: Seq<CapturePoint>, t: RasterTick)
    ensures
        legs_begun(capture_events(points, t)) == Seq::<int>::empty(),
    decreases points.len(),
{
    if points.len() > 0 {
        lemma_captures_begin_nothing(points.drop_last(), t);
        assert(capture_events(points, t).drop_last() =~= capture_events(points.drop_last(), t));
    } else {
        assert(capture_events(points, t) =~= Seq::empty());
    }
}

/// A survey that has not begun is on its way to its first leg.
spec fn begins_at_first(f: RasterFlightView) -> bool {
    f.started || (f.state matches RasterState::ToLegStart { leg, .. } && leg == 0)
}

/// Whether the frames of a survey are the captures that it fired, also once it
/// is complete.
spec fn frames_counted(f: RasterFlightView) -> bool {
    f.state == RasterState::Done(FlightOutcome::Completed) ==> f.frames == flat(
        f.plan.captures,
    ).len()
}

/// A tick announces the next legs, and counts the frames.
proof fn lemma_tick_begins_the_next_legs(f: RasterFlightView, t: RasterTick)
    requires
        f.valid(),
        begins_at_first(f),
        frames_counted(f),
        raster_step(f, t).0.state != RasterState::Done(FlightOutcome::TimedOut),
    ensures
        begins_at_first(raster_step(f, t).0),
        frames_counted(raster_step(f, t).0),
        first_legs(legs_told(f)) + legs_begun(raster_step(f, t).1.events) == first_legs(
            legs_told(raster_step(f, t).0),
        ),
{
    let g = raster_step(f, t).0;
    let first = first_event(f);
    let none = Seq::<MissionEvent>::empty();
    assert(legs_begun(none) =~= Seq::empty());
    if !f.started {
        assert(first.drop_last() =~= none);
        assert(first.last() == MissionEvent::LegStarted { index: 0 });
        assert(legs_begun(first) =~= seq![0int]);
    }
    match f.state {
        RasterState::Done(_) => {
            assert(first_legs(legs_told(f)) + legs_begun(none) =~= first_legs(legs_told(g)));
        },
        RasterState::ToLegStart { leg, .. } => {
            assert(first_legs(legs_told(f)) + legs_begun(first) =~= first_legs(legs_told(g)));
        },
        RasterState::OnLeg { leg, cruise, fired } => {
            let points = f.plan.captures[leg as int];
            lemma_leg_within(f.plan.captures, leg as int);
            lemma_fire_until(points, fired as int, t.along);
            let part = if arrived(cruise, t) {
                points.skip(fired as int)
            } else {
                points.subrange(fired as int, fire_until(points, fired as int, t.along))
            };
            lemma_captures_begin_nothing(part, t);
            lemma_begun_add(first, capture_events(part, t));
            let all = first + capture_events(part, t);
            assert(first =~= none);
            assert(legs_begun(all) =~= Seq::empty());
            if arrived(cruise, t) && leg + 1 < f.plan.legs.len() {
                let last = MissionEvent::LegStarted { index: (leg + 1) as usize };
                assert(all.push(last).drop_last() =~= all);
                assert(legs_begun(all.push(last)) =~= seq![leg + 1]);
            }
            assert(first_legs(legs_told(f)) + legs_begun(raster_step(f, t).1.events)
                =~= first_legs(legs_told(g)));
        },
    }
}

/// Over any run of ticks without a timeout, the legs announced are the next
/// ones of the plan, in order.
proof fn lemma_flights_begin_legs_in_order(f: RasterFlightView, ticks: Seq<RasterTick>)
    requires
        f.valid(),
        begins_at_first(f),
        frames_counted(f),
        after_ticks(f, ticks).state != RasterState::Done(FlightOutcome::TimedOut),
    ensures
        begins_at_first(after_ticks(f, ticks)),
        frames_counted(after_ticks(f, ticks)),
        first_legs(legs_told(f)) + legs_begun(tick_events(f, ticks)) == first_legs(
            legs_told(after_ticks(f, ticks)),
        ),
    decreases ticks.len(),
{
    if ticks.len() == 0 {
        assert(first_legs(legs_told(f)) + legs_begun(tick_events(f, ticks)) =~= first_legs(
            legs_told(f),
        ));
    } else {
        let mid = after_ticks(f, ticks.drop_last());
        lemma_timeout_is_final(mid, ticks.last());
        lemma_flights_begin_legs_in_order(f, ticks.drop_last());
        a_flight_fires_captures_in_order(f, ticks.drop_last());
        lemma_tick_begins_the_next_legs(mid, ticks.last());
        let before = tick_events(f, ticks.drop_last());
        let now = raster_step(mid, ticks.last()).1.events;
        lemma_begun_add(before, now);
        let told = first_legs(legs_told(f));
        assert(told + (legs_begun(before) + legs_begun(now)) =~= (told + legs_begun(before))
            + legs_begun(now));
    }
}

/// A survey that completes has begun every leg of its plan and fired every
/// capture, each exactly once and in order, and its frames are as many.
pub proof fn completed_surveys_fire_every_capture(
    plan: RasterPlanView,
    deadline: Real,
    ticks: Seq<RasterTick>,
)
    requires
        plan.valid(),
        after_ticks(at_start(plan, deadline), ticks).state == RasterState::Done(
            FlightOutcome::Completed,
        ),
    ensures
        captured(tick_events(at_start(plan, deadline), ticks)) == flat(plan.captures),
        legs_begun(tick_events(at_start(plan, deadline), ticks)) == first_legs(plan.legs.len()),
        after_ticks(at_start(plan, deadline), ticks).frames == flat(plan.captures).len(),
{
    let f = at_start(plan, deadline);
    assert(plan.captures.take(0) =~= Seq::empty());
    a_flight_fires_captures_in_order(f, ticks);
    lemma_flights_begin_legs_in_order(f, ticks);
    let whole = flat(plan.captures);
    assert(whole.subrange(0, whole.len() as int) =~= whole);
    let begun = legs_begun(tick_events(f, ticks));
    assert(first_legs(0) + begun =~= begun);
}

/// Split fidelity: suspend a survey anywhere between two ticks, build the
/// remainder from its resume snapshot and fly that to completion. Parent and
/// continuation together fire exactly the plan's captures: none twice, none
/// lost. Points of the continuation count their legs from the split on.
pub proof fn split_flights_fire_every_capture_once(
    plan: RasterPlanView,
    deadline: Real,
    ticks: Seq<RasterTick>,
    path_len_m: Real,
    cont_deadline: Real,
    cont_ticks: Seq<RasterTick>,
)
    requires
        plan.valid(),
        !(after_ticks(at_start(plan, deadline), ticks).state is Done),
        ({
            let (leg, fired) = resume_of(after_ticks(at_start(plan, deadline), ticks));
            let rest = crate::mission::remaining_plan(plan, leg, fired, path_len_m)->0;
            after_ticks(at_start(rest, cont_deadline), cont_ticks).state == RasterState::Done(
                FlightOutcome::Completed,
            )
        }),
    ensures
        ({
            let (leg, fired) = resume_of(after_ticks(at_start(plan, deadline), ticks));
            let rest = crate::mission::remaining_plan(plan, leg, fired, path_len_m)->0;
            let parent = captured(tick_events(at_start(plan, deadline), ticks));
            let child = captured(tick_events(at_start(rest, cont_deadline), cont_ticks));
            &&& parent + flat(plan.captures).skip(parent.len() as int) == flat(plan.captures)
            &&& child == crate::mission::relegged_all(
                flat(plan.captures).skip(parent.len() as int),
                leg,
            )
        }),
{
    let f = at_start(plan, deadline);
    assert(plan.captures.take(0) =~= Seq::empty());
    a_flight_fires_captures_in_order(f, ticks);
    let g = after_ticks(f, ticks);
    lemma_fired_bound(g);
    let whole = flat(plan.captures);
    let (leg, fired) = resume_of(g);
    let rest = crate::mission::remaining_plan(plan, leg, fired, path_len_m)->0;
    crate::mission::remainder_is_the_unfired_rest(plan, leg, fired, path_len_m);
    lemma_rest_valid(plan, leg, fired, path_len_m);
    completed_surveys_fire_every_capture(rest, cont_deadline, cont_ticks);
    let n = fired_so_far(g);
    assert(whole.subrange(0, n) + whole.skip(n) =~= whole);
}

/// Where a suspended survey resumes.
pub open spec fn resume_of(f: RasterFlightView) -> (int, int) {
    match f.state {
        RasterState::ToLegStart { leg, .. } => (leg as int, 0),
        RasterState::OnLeg { leg, fired, .. } => (leg as int, fired as int),
        RasterState::Done(_) => (f.plan.legs.len() as int, 0),
    }
}

/// What remains of a valid plan is a valid plan.
pub proof fn lemma_rest_valid(plan: RasterPlanView, leg: int, fired: int, path_len_m: Real)
    requires
        plan.valid(),
        0 <= leg < plan.legs.len(),
        0 <= fired <= plan.captures[leg].len(),
    ensures
        crate::mission::remaining_plan(plan, leg, fired, path_len_m)->0.valid(),
{
    let rest = crate::mission::remaining_plan(plan, leg, fired, path_len_m)->0;
    crate::mission::remainder_is_the_unfired_rest(plan, leg, fired, path_len_m);
    lemma_leg_within(plan.captures, leg);
    assert forall|i: int, j: int|
        0 <= i < rest.captures.len() && 0 <= j < rest.captures[i].len() implies (
    #[trigger] rest.captures[i][j]).leg == i by {
        let off = if i == 0 {
            fired
        } else {
            0
        };
        assert(plan.captures[leg + i][off + j].leg == leg + i);
    }
}

} // verus!
