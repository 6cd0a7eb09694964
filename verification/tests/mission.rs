use minimuas::flight::{Fix, MissionEvent, RasterFlight, RasterTick};
use minimuas::mission::{
    captures_on, plan_raster, survey_speed, takes_captures, CapturePoint, FlightOutcome, Leg, Point,
    RasterPlan, SurveyLeg,
};
use minimuas::patterns::{
    select_investigate_pattern, waypoints_per_pass, OrbitFlight, OrbitState, OrbitTick,
    WaypointFlight, WaypointTick,
};
use minimuas::quantity::Real;
use minimuas::services::{InvestigateRequest, PATTERN_AUTO, PATTERN_FLYOVER, PATTERN_ORBIT};

const ORIGIN: (f64, f64) = (35.0, -90.0);
const M_PER_DEG: f64 = 111_111.0;
const TICK_S: f64 = 0.2;
const RESEND_S: f64 = 2.0;
const ARRIVE_TOL_M: f64 = 2.5;

fn r(x: f64) -> Real {
    Real { bits: x.to_bits() }
}

fn f(x: Real) -> f64 {
    f64::from_bits(x.bits)
}

fn m_per_deg_lon(lat: f64) -> f64 {
    M_PER_DEG * lat.to_radians().cos()
}

fn dist_m(a: (f64, f64), b: (f64, f64)) -> f64 {
    let dn = (a.0 - b.0) * M_PER_DEG;
    let de = (a.1 - b.1) * m_per_deg_lon((a.0 + b.0) / 2.0);
    dn.hypot(de)
}

fn point(p: (f64, f64)) -> Point {
    Point { lat_deg: r(p.0), lon_deg: r(p.1) }
}

fn pair(p: Point) -> (f64, f64) {
    (f(p.lat_deg), f(p.lon_deg))
}

/// A vehicle that flies straight to its target.
struct Sim {
    lat: f64,
    lon: f64,
    agl: f64,
    heading: f64,
    speed: f64,
    target: Option<(f64, f64, f64)>,
}

impl Sim {
    fn new(lat: f64, lon: f64, agl: f64, speed: f64) -> Self {
        Sim { lat, lon, agl, heading: 0.0, speed, target: None }
    }

    fn advance(&mut self, dt: f64) {
        let Some((lat, lon, agl)) = self.target else { return };
        let d = dist_m((self.lat, self.lon), (lat, lon));
        let step = self.speed * dt;
        if d <= step {
            self.lat = lat;
            self.lon = lon;
        } else {
            self.lat += (lat - self.lat) * step / d;
            self.lon += (lon - self.lon) * step / d;
        }
        let climb = (agl - self.agl).clamp(-2.0 * dt, 2.0 * dt);
        self.agl += climb;
    }

    fn at(&self, p: (f64, f64), agl: f64) -> bool {
        dist_m((self.lat, self.lon), p) <= ARRIVE_TOL_M && (self.agl - agl).abs() <= ARRIVE_TOL_M
    }

    fn fix(&self) -> Fix {
        Fix { lat_deg: r(self.lat), lon_deg: r(self.lon), agl_m: r(self.agl) }
    }
}

fn axis(leg: &Leg) -> (f64, f64) {
    let (a, b) = (pair(leg.start), pair(leg.end));
    let dn = (b.0 - a.0) * M_PER_DEG;
    let de = (b.1 - a.1) * m_per_deg_lon((a.0 + b.0) / 2.0);
    let len = dn.hypot(de);
    (dn / len, de / len)
}

fn along(leg: &Leg, lat: f64, lon: f64) -> f64 {
    let (start, ax) = (pair(leg.start), axis(leg));
    (lat - start.0) * M_PER_DEG * ax.0 + (lon - start.1) * m_per_deg_lon(start.0) * ax.1
}

fn corners(width_m: f64, height_m: f64) -> Vec<Point> {
    let dlat = (height_m / 2.0) / M_PER_DEG;
    let dlon = (width_m / 2.0) / m_per_deg_lon(ORIGIN.0);
    vec![
        point((ORIGIN.0 + dlat, ORIGIN.1 - dlon)),
        point((ORIGIN.0 + dlat, ORIGIN.1 + dlon)),
        point((ORIGIN.0 - dlat, ORIGIN.1 + dlon)),
        point((ORIGIN.0 - dlat, ORIGIN.1 - dlon)),
    ]
}

/// East-west lanes over the area, in serpentine order, with captures.
fn survey(width_m: f64, height_m: f64, spacing: f64, step: f64) -> (Vec<SurveyLeg>, f64) {
    let lanes = (height_m / spacing).ceil() as usize + 1;
    let dlon = (width_m / 2.0) / m_per_deg_lon(ORIGIN.0);
    let mut legs = Vec::new();
    let mut len = 0.0;
    let mut prev: Option<(f64, f64)> = None;
    for i in 0..lanes {
        let north = -height_m / 2.0 + height_m * i as f64 / (lanes - 1) as f64;
        let lat = ORIGIN.0 + north / M_PER_DEG;
        let (mut a, mut b) = ((lat, ORIGIN.1 - dlon), (lat, ORIGIN.1 + dlon));
        if i % 2 == 1 {
            std::mem::swap(&mut a, &mut b);
        }
        let leg = Leg { start: point(a), end: point(b) };
        if let Some(p) = prev {
            len += dist_m(p, a);
        }
        prev = Some(b);
        let leg_len = dist_m(a, b);
        len += leg_len;
        let mut captures = Vec::new();
        if step > 0.0 {
            let n = ((leg_len / step).floor() as usize + 1).max(1);
            // Out of order on purpose: planning sorts them.
            for k in (0..n).rev() {
                let frac = if n > 1 { k as f64 / (n - 1) as f64 } else { 0.5 };
                let p = (a.0 + (b.0 - a.0) * frac, a.1 + (b.1 - a.1) * frac);
                captures.push(CapturePoint {
                    lat_deg: r(p.0),
                    lon_deg: r(p.1),
                    heading_deg: r(if i % 2 == 0 { 90.0 } else { 270.0 }),
                    leg: 0,
                    along_m: r(along(&leg, p.0, p.1)),
                });
            }
        }
        legs.push(SurveyLeg { leg, captures });
    }
    (legs, len)
}

fn plan(width_m: f64, height_m: f64, spacing: f64, step: f64) -> RasterPlan {
    let (legs, len) = survey(width_m, height_m, spacing, step);
    plan_raster(&corners(width_m, height_m), legs, r(8.0), r(5.0), r(step), r(len)).unwrap()
}

fn deadline(plan: &RasterPlan, now: f64) -> Real {
    r(now + 3.0 * f(plan.path_len_m) / f(plan.speed_m_s) + 90.0)
}

/// One control tick of a survey over the simulated vehicle.
fn tick(flight: &mut RasterFlight, sim: &mut Sim, now: f64) -> (Option<FlightOutcome>, Vec<MissionEvent>, bool) {
    let target = flight.cruise_target().map(pair).unwrap_or((sim.lat, sim.lon));
    let leg = &flight.plan().legs[flight.leg()];
    let speed = f(flight.plan().speed_m_s);
    let t = RasterTick {
        now: r(now),
        here: sim.fix(),
        along: r(along(leg, sim.lat, sim.lon)),
        fresh_deadline: r(now + dist_m((sim.lat, sim.lon), target) / (0.5 * speed) + 45.0),
        resend_at: r(now + RESEND_S),
        at_target: sim.at(target, f(flight.plan().agl_m)),
        heading: Some(r(sim.heading)),
    };
    let agl = f(flight.plan().agl_m);
    let (outcome, events, send) = flight.tick(t);
    let sent = send.is_some();
    if let Some(p) = send {
        let p = pair(p);
        sim.target = Some((p.0, p.1, agl));
    }
    (outcome, events, sent)
}

fn fired(events: &[MissionEvent]) -> Vec<(u64, u64)> {
    events
        .iter()
        .filter_map(|e| match e {
            MissionEvent::Capture { point, .. } => Some((point.lat_deg.bits, point.lon_deg.bits)),
            _ => None,
        })
        .collect()
}

#[test]
fn plans_keep_the_legs_and_sort_the_captures() {
    let p = plan(150.0, 100.0, 25.0, 20.0);
    assert_eq!(p.legs.len(), 5);
    assert!(f(p.legs[0].start.lon_deg) < f(p.legs[0].end.lon_deg));
    assert!(f(p.legs[1].start.lon_deg) > f(p.legs[1].end.lon_deg));
    // floor(150/20)+1 = 8 points per leg.
    assert_eq!(p.captures[0].len(), 8);
    assert_eq!(p.capture_count(), 40);
    for (i, leg) in p.captures.iter().enumerate() {
        for c in leg {
            assert_eq!(c.leg, i);
        }
        for pair in leg.windows(2) {
            assert!(f(pair[0].along_m) <= f(pair[1].along_m));
        }
    }
    let none: Vec<Point> = Vec::new();
    assert_eq!(
        plan_raster(&none, Vec::new(), r(8.0), r(5.0), r(10.0), r(0.0)).unwrap_err(),
        "no area corners"
    );
    assert_eq!(
        plan_raster(&corners(1.0, 1.0), Vec::new(), r(8.0), r(5.0), r(10.0), r(0.0)).unwrap_err(),
        "empty raster"
    );
}

#[test]
fn raster_flies_all_legs_and_fires_captures_by_along_track_progress() {
    let p = plan(60.0, 30.0, 15.0, 10.0);
    let legs_total = p.legs.len();
    let capture_total = p.capture_count();
    let mut sim = Sim::new(ORIGIN.0, ORIGIN.1, 8.0, 5.0);
    let limit = deadline(&p, 0.0);
    let mut flight = RasterFlight::new(p, limit);
    let mut events = Vec::new();
    let mut gotos = Vec::new();
    let mut now = 0.0;
    let outcome = loop {
        let (outcome, mut new, sent) = tick(&mut flight, &mut sim, now);
        events.append(&mut new);
        if sent {
            gotos.push(now);
        }
        if let Some(outcome) = outcome {
            break outcome;
        }
        sim.advance(TICK_S);
        now += TICK_S;
        assert!(now < 600.0, "raster never completed");
    };
    assert_eq!(outcome, FlightOutcome::Completed);
    assert_eq!(flight.frames() as usize, capture_total, "every capture fired");

    // Legs were started in order 0..n.
    let legs: Vec<usize> = events
        .iter()
        .filter_map(|e| match e {
            MissionEvent::LegStarted { index } => Some(*index),
            _ => None,
        })
        .collect();
    assert_eq!(legs, (0..legs_total).collect::<Vec<_>>());

    // Captures fired near their planned points.
    for event in &events {
        if let MissionEvent::Capture { point, lat_deg, lon_deg, .. } = event {
            let err = dist_m((f(*lat_deg), f(*lon_deg)), (f(point.lat_deg), f(point.lon_deg)));
            assert!(err < 3.0, "capture fired {err:.1} m from its point");
        }
    }

    // The position target was re-sent at most every ~2 s while flying.
    for pair in gotos.windows(2) {
        assert!(pair[1] - pair[0] <= RESEND_S + TICK_S + 1e-9);
    }
    assert!(gotos.len() >= legs_total * 2);

    // A flight that is over keeps its outcome.
    let (again, quiet, _) = tick(&mut flight, &mut sim, now + 1.0);
    assert_eq!(again, Some(FlightOutcome::Completed));
    assert!(quiet.is_empty());
}

#[test]
fn raster_split_remainder_fires_exactly_the_unfired_captures() {
    let p = plan(120.0, 60.0, 20.0, 15.0);
    let total = p.capture_count();
    let all_points: Vec<(u64, u64)> =
        p.captures.iter().flatten().map(|c| (c.lat_deg.bits, c.lon_deg.bits)).collect();
    let mut sim = Sim::new(ORIGIN.0, ORIGIN.1, 8.0, 5.0);

    // Fly the parent until roughly a third of the captures fired, then
    // "preempt" it between ticks (where every interruption lands).
    let limit = deadline(&p, 0.0);
    let mut flight = RasterFlight::new(p, limit);
    let mut events = Vec::new();
    let mut now = 0.0;
    while (flight.frames() as usize) < total / 3 {
        let (outcome, mut new, _) = tick(&mut flight, &mut sim, now);
        assert!(outcome.is_none(), "ended too early");
        events.append(&mut new);
        sim.advance(TICK_S);
        now += TICK_S;
        assert!(now < 600.0, "parent never reached a third of the captures");
    }
    let fired_first = fired(&events);
    assert_eq!(fired_first.len(), flight.frames() as usize);

    let (leg, fired_in_leg) = flight.resume_state();
    let rest = flight.plan().remainder(leg, fired_in_leg, r(1000.0)).expect("work remains");
    assert_eq!(
        rest.capture_count(),
        total - fired_first.len(),
        "remaining captures = total - fired"
    );

    // The continuation flies from wherever the vehicle is now.
    let limit = deadline(&rest, now);
    let mut cont = RasterFlight::new(rest, limit);
    let mut cont_events = Vec::new();
    let outcome = loop {
        let (outcome, mut new, _) = tick(&mut cont, &mut sim, now);
        cont_events.append(&mut new);
        if let Some(outcome) = outcome {
            break outcome;
        }
        sim.advance(TICK_S);
        now += TICK_S;
        assert!(now < 1200.0, "continuation never completed");
    };
    assert_eq!(outcome, FlightOutcome::Completed);

    let mut union = fired_first;
    union.extend(fired(&cont_events));
    assert_eq!(union.len(), total, "every capture fired across the split");
    let mut sorted = union.clone();
    sorted.sort_unstable();
    sorted.dedup();
    assert_eq!(sorted.len(), total, "no capture point fired twice");
    let mut expected = all_points;
    expected.sort_unstable();
    assert_eq!(sorted, expected, "the union is exactly the planned capture set");

    // Degenerate remainders: past the last leg there is nothing left.
    let legs = flight.plan().legs.len();
    assert!(flight.plan().remainder(legs, 0, r(0.0)).is_none());
}

#[test]
fn raster_times_out_when_the_vehicle_cannot_progress() {
    let p = plan(60.0, 30.0, 15.0, 0.0);
    let mut sim = Sim::new(ORIGIN.0, ORIGIN.1, 8.0, 0.0);
    let limit = deadline(&p, 0.0);
    let mut flight = RasterFlight::new(p, limit);
    let mut now = 0.0;
    let outcome = loop {
        let (outcome, _, _) = tick(&mut flight, &mut sim, now);
        if let Some(outcome) = outcome {
            break outcome;
        }
        now += 5.0; // scripted time only; the vehicle is frozen
        assert!(now < 10_000.0);
    };
    assert!(
        outcome == FlightOutcome::TimedOut || outcome == FlightOutcome::Completed,
        "unexpected outcome {outcome:?}"
    );
    // Past its deadline a flight times out at once.
    let p = plan(60.0, 30.0, 15.0, 0.0);
    let mut late = RasterFlight::new(p, r(10.0));
    assert_eq!(tick(&mut late, &mut sim, 10.5).0, Some(FlightOutcome::TimedOut));
}

#[test]
fn orbit_enters_sweeps_and_completes_by_accumulated_bearing() {
    let (radius, speed, turns) = (8.0, 4.0, 1.0);
    let goal = std::f64::consts::TAU * turns;
    let lead = (speed * 1.5 / radius as f64).clamp(0.25, 0.8);
    let mut sim = Sim::new(ORIGIN.0 + 30.0 / M_PER_DEG, ORIGIN.1, 8.0, speed);
    let mut flight = OrbitFlight::new(r(goal));
    let bearing = |lat: f64, lon: f64| {
        let dn = (lat - ORIGIN.0) * M_PER_DEG;
        let de = (lon - ORIGIN.1) * m_per_deg_lon(ORIGIN.0);
        (de.atan2(dn), dn.hypot(de))
    };
    let circle = |ang: f64| {
        (
            ORIGIN.0 + radius * ang.cos() / M_PER_DEG,
            ORIGIN.1 + radius * ang.sin() / m_per_deg_lon(ORIGIN.0),
        )
    };
    let mut entered = 0;
    let mut now = 0.0;
    let outcome = loop {
        let (ang, dist) = bearing(sim.lat, sim.lon);
        let entry = circle(if dist < 1.0 { 0.0 } else { ang });
        let at_entry = match flight.state {
            OrbitState::Entry { cruise, .. } => sim.at(pair(cruise.target), 8.0),
            _ => sim.at(entry, 8.0),
        };
        let (prev, swept_before) = match flight.state {
            OrbitState::Orbiting { bearing, swept, .. } => (f(bearing), f(swept)),
            _ => (ang, 0.0),
        };
        let mut delta = ang - prev;
        while delta > std::f64::consts::PI {
            delta -= std::f64::consts::TAU;
        }
        while delta < -std::f64::consts::PI {
            delta += std::f64::consts::TAU;
        }
        let t = OrbitTick {
            now: r(now),
            entry: point(entry),
            entry_deadline: r(now + dist_m((sim.lat, sim.lon), entry).max(5.0) / (0.5 * speed) + 30.0),
            at_entry,
            resend_at: r(now + RESEND_S),
            bearing: r(ang),
            budget: r(now + (goal + lead) * radius / speed * 3.0 + 60.0),
            next_cmd: r(now + 0.4),
            swept: r(swept_before + delta),
            carrot: point(circle(ang + lead)),
            yaw: r((ang.to_degrees() + 180.0).rem_euclid(360.0)),
        };
        let (outcome, events, command) = flight.tick(t);
        entered += events.len();
        if let Some(c) = command {
            let p = pair(c.target);
            sim.target = Some((p.0, p.1, 8.0));
            if let Some(yaw) = c.yaw {
                sim.heading = f(yaw);
            }
        }
        if let Some(outcome) = outcome {
            break outcome;
        }
        sim.advance(TICK_S);
        now += TICK_S;
        assert!(now < 300.0, "orbit never completed");
    };
    assert_eq!(outcome, FlightOutcome::Completed);
    assert_eq!(entered, 1, "the orbit is entered once");
    assert!(f(flight.swept()) / std::f64::consts::TAU >= 1.0 - 1e-6);

    // The vehicle ended on the circle (carrot chased, not the center).
    let d = dist_m((sim.lat, sim.lon), ORIGIN);
    assert!((d - 8.0).abs() < 3.0, "ended {d:.1} m from center, radius 8");
    // Yaw was commanded to face the center.
    let (ang, _) = bearing(sim.lat, sim.lon);
    let want = (ang.to_degrees() + 180.0).rem_euclid(360.0);
    let diff = (sim.heading - want + 540.0).rem_euclid(360.0) - 180.0;
    assert!(diff.abs() < 25.0, "yaw {:.0} vs facing-center {want:.0}", sim.heading);
}

#[test]
fn waypoint_flight_flies_the_flyover_profile_with_dips() {
    // Flyover 40 m north of the origin: cruise 8, dip 3.5, radius 6, two passes.
    let center = (ORIGIN.0 + 40.0 / M_PER_DEG, ORIGIN.1);
    let mut points = Vec::new();
    for pass in 0..2 {
        let along_ns = pass == 0;
        for (offset, agl) in [(-6.0, 8.0), (-3.0, 5.75), (0.0, 3.5), (3.0, 5.75), (6.0, 8.0)] {
            let (dn, de) = if along_ns { (offset, 0.0) } else { (0.0, offset) };
            points.push(Fix {
                lat_deg: r(center.0 + dn / M_PER_DEG),
                lon_deg: r(center.1 + de / m_per_deg_lon(center.0)),
                agl_m: r(agl),
            });
        }
    }
    assert_eq!(points.len(), 10, "5 waypoints per pass, 2 passes");
    let per_pass = waypoints_per_pass(points.len(), 2);
    assert_eq!(per_pass, 5);

    let mut sim = Sim::new(ORIGIN.0, ORIGIN.1, 8.0, 4.0);
    let mut flight = WaypointFlight::new(points, r(600.0));
    assert_eq!(flight.remaining_passes(per_pass), 2);
    let mut now = 0.0;
    let mut min_agl = f64::MAX;
    let outcome = loop {
        let target = flight.target().unwrap();
        let p = (f(target.lat_deg), f(target.lon_deg));
        // Tight arrival so that the dip is flown, not cut.
        let at_target =
            dist_m((sim.lat, sim.lon), p) < 1.0 && (sim.agl - f(target.agl_m)).abs() < 0.5;
        let (outcome, send) = flight.tick(WaypointTick {
            now: r(now),
            fresh_deadline: r(now + dist_m((sim.lat, sim.lon), p) / 2.0 + 45.0),
            resend_at: r(now + RESEND_S),
            at_target,
        });
        if let Some(s) = send {
            sim.target = Some((f(s.lat_deg), f(s.lon_deg), f(s.agl_m)));
        }
        if let Some(outcome) = outcome {
            break outcome;
        }
        sim.advance(TICK_S);
        now += TICK_S;
        if dist_m((sim.lat, sim.lon), center) < 2.0 {
            min_agl = min_agl.min(sim.agl);
        }
        assert!(now < 600.0, "flyover never completed");
    };
    assert_eq!(outcome, FlightOutcome::Completed);
    assert!(min_agl < 4.5, "no dip over the center (min {min_agl:.1} m)");
    assert!((sim.agl - 8.0).abs() < 1.0, "ended at {:.1} m, expected cruise 8", sim.agl);
    assert_eq!(flight.progress(), (10, 10));
    assert_eq!(flight.remaining_passes(per_pass), 0);
}

fn investigate_req(sensors: &[&str], pattern: &str) -> InvestigateRequest {
    InvestigateRequest {
        lat_deg: r(ORIGIN.0),
        lon_deg: r(ORIGIN.1),
        agl_m: r(8.0),
        radius_m: r(6.0),
        turns: r(1.0),
        sensors: sensors.iter().map(|s| s.to_string()).collect(),
        mission_id: "m-test".into(),
        pattern: pattern.into(),
    }
}

#[test]
fn pattern_selection_by_sensor_and_capability() {
    let pick = |sensors: &[&str], pattern: &str, audio: bool| {
        select_investigate_pattern(&investigate_req(sensors, pattern), audio)
    };
    // auto + audio-only + mic fitted -> flyover
    assert_eq!(pick(&["audio"], "", true), PATTERN_FLYOVER);
    assert_eq!(pick(&["audio"], PATTERN_AUTO, true), PATTERN_FLYOVER);
    // camera (or mixed) keeps the carrot orbit
    assert_eq!(pick(&["camera"], "", true), PATTERN_ORBIT);
    assert_eq!(pick(&["camera", "audio"], "", true), PATTERN_ORBIT);
    // no sensors requested: orbit
    assert_eq!(pick(&[], "", true), PATTERN_ORBIT);
    // audio-only but no mic capability: orbit
    assert_eq!(pick(&["audio"], "", false), PATTERN_ORBIT);
    // explicit pattern always wins
    assert_eq!(pick(&["camera"], PATTERN_FLYOVER, false), PATTERN_FLYOVER);
    assert_eq!(pick(&["audio"], PATTERN_ORBIT, true), PATTERN_ORBIT);
}

#[test]
fn started_passes_are_flown_again() {
    let at = |agl: f64| Fix { lat_deg: r(0.0), lon_deg: r(0.0), agl_m: r(agl) };
    let mut flight = WaypointFlight::new(vec![at(1.0), at(2.0), at(3.0), at(4.0)], r(100.0));
    let step = |now: f64, at_target: bool| WaypointTick {
        now: r(now),
        fresh_deadline: r(now + 10.0),
        resend_at: r(now + 2.0),
        at_target,
    };
    assert_eq!(flight.tick(step(0.0, true)).1, Some(at(1.0)));
    assert_eq!(flight.progress(), (1, 4));
    assert_eq!(flight.remaining_passes(2), 2, "a started pass counts whole");
    // A blocked leg is given up after its own deadline.
    assert_eq!(flight.tick(step(1.0, false)).1, Some(at(2.0)));
    assert_eq!(flight.tick(step(11.5, false)).0, None);
    assert_eq!(flight.progress(), (2, 4));
    assert_eq!(flight.remaining_passes(2), 1);
    assert_eq!(flight.tick(step(100.5, false)).0, Some(FlightOutcome::TimedOut));
}

#[test]
fn outcomes_have_their_words() {
    assert_eq!(FlightOutcome::Completed.as_str(), "completed");
    assert_eq!(FlightOutcome::Aborted.as_str(), "aborted");
    assert_eq!(FlightOutcome::TimedOut.as_str(), "timeout");
}

#[test]
fn surveys_have_a_slowest_speed_and_captures_by_spacing() {
    assert_eq!(survey_speed(r(5.0)), r(5.0));
    assert_eq!(survey_speed(r(0.1)), r(0.3));
    assert_eq!(survey_speed(r(-2.0)), r(0.3));
    assert_eq!(survey_speed(r(f64::NAN)), r(0.3));
    assert!(takes_captures(r(0.5)));
    assert!(!takes_captures(r(0.0)) && !takes_captures(r(-1.0)) && !takes_captures(r(f64::NAN)));
    assert_eq!((captures_on(r(10.0), 4), captures_on(r(10.0), 0), captures_on(r(0.0), 4)), (5, 1, 0));

    // Points that were laid out without a spacing are not taken.
    let (legs, len) = survey(40.0, 20.0, 10.0, 10.0);
    let n = legs.len();
    let blind =
        plan_raster(&corners(40.0, 20.0), legs, r(8.0), r(0.1), r(0.0), r(len)).unwrap();
    assert_eq!((blind.legs.len(), blind.captures.len(), blind.capture_count()), (n, n, 0));
    assert_eq!(blind.speed_m_s, r(0.3));
}
