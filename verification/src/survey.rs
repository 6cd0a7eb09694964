//! The loop of a survey: what each control cycle flies, publishes and
//! journals. The program around it reads the vehicle, sends targets and
//! publishes; it is told here what and when.

use vstd::prelude::*;

use crate::agent::{AgentShared, AgentView};
use crate::driver::{current_leg, snapshot_of, survey_interrupted, with_resume, SurveyStep};
use crate::flight::{at_start, raster_step, MissionEvent, RasterFlight, RasterFlightView, RasterTick};
use crate::mission::{FlightOutcome, Point, RasterPlan};
use crate::quantity::Real;

verus! {

/// A survey that has nothing else to say repeats its status this often (ms).
pub const HEARTBEAT_MS: u64 = 1_000;

/// Something to publish or to journal.
#[derive(Debug)]
pub enum Report {
    /// Journal that a leg begins.
    Leg { index: usize },
    /// Take a frame for a capture event, publish and journal it.
    Frame { event: MissionEvent, frame_index: u64 },
    /// Publish the state of the search.
    Status { state: &'static str, leg: usize, frames: u64, note: &'static str },
    /// Journal that the search is over.
    Finished { outcome: FlightOutcome, frames: u64, legs: usize },
}

/// A report by its values.
#[verifier::ext_equal]
pub enum ReportView {
    Leg { index: int },
    Frame { event: MissionEvent, frame_index: int },
    Status { state: Seq<char>, leg: int, frames: int, note: Seq<char> },
    Finished { outcome: FlightOutcome, frames: int, legs: int },
}

impl View for Report {
    type V = ReportView;

    open spec fn view(&self) -> ReportView {
        match self {
            Report::Leg { index } => ReportView::Leg { index: *index as int },
            Report::Frame { event, frame_index } => ReportView::Frame {
                event: *event,
                frame_index: *frame_index as int,
            },
            Report::Status { state, leg, frames, note } => ReportView::Status {
                state: state@,
                leg: *leg as int,
                frames: *frames as int,
                note: note@,
            },
            Report::Finished { outcome, frames, legs } => ReportView::Finished {
                outcome: *outcome,
                frames: *frames as int,
                legs: *legs as int,
            },
        }
    }
}

/// Reports by their views.
pub open spec fn report_views(v: Seq<Report>) -> Seq<ReportView> {
    v.map_values(|r: Report| r@)
}

/// The status of a survey under way.
pub open spec fn searching(leg: int, frames: int, note: Seq<char>) -> ReportView {
    ReportView::Status { state: "searching"@, leg, frames, note }
}

/// What an event is reported by: a leg by its journal line, a capture by its
/// frame, and either by a fresh status.
pub open spec fn event_reports(e: MissionEvent, leg: int, frames: int) -> Seq<ReportView> {
    match e {
        MissionEvent::LegStarted { index } => seq![
            ReportView::Leg { index: index as int },
            searching(index as int, frames, ""@),
        ],
        MissionEvent::Capture { .. } => seq![
            ReportView::Frame { event: e, frame_index: frames },
            searching(leg, frames, ""@),
        ],
        MissionEvent::OrbitEntered => Seq::empty(),
    }
}

/// The reports of the first `n` events.
pub open spec fn events_reports(events: Seq<MissionEvent>, n: nat, leg: int, frames: int) -> Seq<
    ReportView,
>
    decreases n,
{
    if n == 0 || n > events.len() {
        Seq::empty()
    } else {
        events_reports(events, (n - 1) as nat, leg, frames) + event_reports(
            events[n - 1],
            leg,
            frames,
        )
    }
}

/// What is said at the end of a survey.
pub open spec fn closing(outcome: FlightOutcome, f: RasterFlightView) -> Seq<ReportView> {
    let state = match outcome {
        FlightOutcome::Completed => "done"@,
        FlightOutcome::Aborted => "aborted"@,
        FlightOutcome::TimedOut => "failed"@,
    };
    seq![
        ReportView::Status {
            state,
            leg: current_leg(f),
            frames: f.frames as int,
            note: outcome.text(),
        },
        ReportView::Finished {
            outcome,
            frames: f.frames as int,
            legs: f.plan.legs.len() as int,
        },
    ]
}

/// Whether a status is due that nothing asked for.
pub open spec fn heartbeat(last_ms: u64, now_ms: u64) -> bool {
    now_ms - last_ms >= HEARTBEAT_MS
}

/// What is said while a capture detour owns the vehicle.
pub open spec fn paused_reports(f: RasterFlightView, due: bool) -> Seq<ReportView> {
    if due {
        seq![
            searching(current_leg(f), f.frames as int, "paused: sensor-override detour"@),
        ]
    } else {
        Seq::empty()
    }
}

/// What is said of a tick before its outcome: its events, or a status that is
/// due.
pub open spec fn flown_reports(f: RasterFlightView, events: Seq<MissionEvent>, due: bool) -> Seq<
    ReportView,
> {
    let told = events_reports(events, events.len(), current_leg(f), f.frames as int);
    if told.len() == 0 && due {
        seq![searching(current_leg(f), f.frames as int, ""@)]
    } else {
        told
    }
}

/// What a control cycle decides.
#[verifier::ext_equal]
pub struct CycleView {
    pub outcome: Option<FlightOutcome>,
    pub target: Option<Point>,
    pub flown: bool,
    pub reports: Seq<ReportView>,
}

/// A survey with the time of its last status.
#[verifier::ext_equal]
pub struct SurveyView {
    pub flight: RasterFlightView,
    pub last_status_ms: u64,
}

/// One control cycle: an interruption saves what remains and ends the survey,
/// a detour freezes it, otherwise it ticks and reports.
pub open spec fn survey_cycle(a: AgentView, s: SurveyView, t: RasterTick, now_ms: u64) -> (
    AgentView,
    SurveyView,
    CycleView,
) {
    let f = s.flight;
    let due = heartbeat(s.last_status_ms, now_ms);
    if survey_interrupted(a) {
        (
            with_resume(a, snapshot_of(f)),
            s,
            CycleView {
                outcome: Some(FlightOutcome::Aborted),
                target: None,
                flown: false,
                reports: closing(FlightOutcome::Aborted, f),
            },
        )
    } else if a.detour {
        let said = paused_reports(f, due);
        (
            a,
            SurveyView {
                last_status_ms: if said.len() > 0 {
                    now_ms
                } else {
                    s.last_status_ms
                },
                ..s
            },
            CycleView { outcome: None, target: None, flown: false, reports: said },
        )
    } else {
        let (g, answer) = raster_step(f, t);
        let said = flown_reports(g, answer.events, due);
        (
            a,
            SurveyView {
                flight: g,
                last_status_ms: if said.len() > 0 {
                    now_ms
                } else {
                    s.last_status_ms
                },
            },
            CycleView {
                outcome: answer.outcome,
                target: answer.target,
                flown: true,
                reports: match answer.outcome {
                    Some(o) => said + closing(o, g),
                    None => said,
                },
            },
        )
    }
}

/// What a control cycle decides.
#[derive(Debug)]
pub struct Cycle {
    /// How the survey ended, if it did.
    pub outcome: Option<FlightOutcome>,
    /// Where to send the vehicle.
    pub target: Option<Point>,
    /// Whether the survey ticked, so that its progress is worth reporting.
    pub flown: bool,
    /// What to publish and to journal, in order.
    pub reports: Vec<Report>,
}

impl View for Cycle {
    type V = CycleView;

    open spec fn view(&self) -> CycleView {
        CycleView {
            outcome: self.outcome,
            target: self.target,
            flown: self.flown,
            reports: report_views(self.reports@),
        }
    }
}

/// The status that opens a survey.
pub fn opening() -> (r: Report)
    ensures
        r@ == (ReportView::Status { state: "transit"@, leg: 0, frames: 0, note: "starting"@ }),
{
    Report::Status { state: "transit", leg: 0, frames: 0, note: "starting" }
}

/// The status of a survey that never got off the ground.
pub fn grounded() -> (r: Report)
    ensures
        r@ == (ReportView::Status {
            state: "failed"@,
            leg: 0,
            frames: 0,
            note: "airborne failed"@,
        }),
{
    Report::Status { state: "failed", leg: 0, frames: 0, note: "airborne failed" }
}

/// A survey in flight.
#[derive(Debug)]
pub struct Survey {
    pub flight: RasterFlight,
    pub last_status_ms: u64,
}

impl View for Survey {
    type V = SurveyView;

    open spec fn view(&self) -> SurveyView {
        SurveyView { flight: self.flight@, last_status_ms: self.last_status_ms }
    }
}

fn tell(out: &mut Vec<Report>, report: Report)
    ensures
        report_views(final(out)@) == report_views(old(out)@).push(report@),
{
    out.push(report);
    assert(report_views(out@) =~= report_views(old(out)@).push(report@));
}

fn tell_closing(out: &mut Vec<Report>, outcome: FlightOutcome, flight: &RasterFlight)
    requires
        flight@.valid(),
    ensures
        report_views(final(out)@) == report_views(old(out)@) + closing(outcome, flight@),
{
    let leg: usize = flight.leg();
    let frames: u64 = flight.frames();
    tell(
        out,
        Report::Status { state: outcome.search_state(), leg, frames, note: outcome.as_str() },
    );
    tell(out, Report::Finished { outcome, frames, legs: flight.legs_total() });
    assert(report_views(out@) =~= report_views(old(out)@) + closing(outcome, flight@));
}

fn tell_event(out: &mut Vec<Report>, event: MissionEvent, leg: usize, frames: u64)
    ensures
        report_views(final(out)@) == report_views(old(out)@) + event_reports(
            event,
            leg as int,
            frames as int,
        ),
{
    match event {
        MissionEvent::LegStarted { index } => {
            tell(out, Report::Leg { index });
            tell(out, Report::Status { state: "searching", leg: index, frames, note: "" });
        },
        MissionEvent::Capture { .. } => {
            tell(out, Report::Frame { event, frame_index: frames });
            tell(out, Report::Status { state: "searching", leg, frames, note: "" });
        },
        MissionEvent::OrbitEntered => {},
    }
    assert(report_views(out@) =~= report_views(old(out)@) + event_reports(
        event,
        leg as int,
        frames as int,
    ));
}

fn tell_events(events: &Vec<MissionEvent>, leg: usize, frames: u64) -> (r: Vec<Report>)
    ensures
        report_views(r@) == events_reports(events@, events@.len(), leg as int, frames as int),
{
    let mut out: Vec<Report> = Vec::new();
    assert(report_views(out@) =~= Seq::empty());
    let mut i: usize = 0;
    while i < events.len()
        invariant
            i <= events@.len(),
            report_views(out@) == events_reports(events@, i as nat, leg as int, frames as int),
        decreases events@.len() - i,
    {
        tell_event(&mut out, events[i], leg, frames);
        i = i + 1;
    }
    out
}

fn due(last_ms: u64, now_ms: u64) -> (r: bool)
    ensures
        r == heartbeat(last_ms, now_ms),
{
    now_ms >= last_ms && now_ms - last_ms >= HEARTBEAT_MS
}

impl Survey {
    /// A survey that starts now: on the way to its first leg, with nothing
    /// told yet.
    pub fn new(plan: RasterPlan, deadline: Real, now_ms: u64) -> (r: Self)
        requires
            plan@.valid(),
        ensures
            r@ == (SurveyView { flight: at_start(plan@, deadline), last_status_ms: now_ms }),
            r@.flight.valid(),
    {
        Survey { flight: RasterFlight::new(plan, deadline), last_status_ms: now_ms }
    }

    /// One control cycle of the survey.
    pub fn cycle(&mut self, agent: &mut AgentShared, t: RasterTick, now_ms: u64) -> (r: Cycle)
        requires
            old(agent).valid(),
            old(self)@.flight.valid(),
        ensures
            (final(agent)@, final(self)@, r@) == survey_cycle(old(agent)@, old(self)@, t, now_ms),
            final(self)@.flight.valid(),
            final(agent).same_setup(*old(agent)),
            final(agent).valid(),
    {
        let beat = due(self.last_status_ms, now_ms);
        let ghost want = survey_cycle(agent@, self@, t, now_ms);
        match agent.survey_step(&mut self.flight, t) {
            SurveyStep::Interrupted => {
                let mut reports: Vec<Report> = Vec::new();
                assert(report_views(reports@) =~= Seq::empty());
                tell_closing(&mut reports, FlightOutcome::Aborted, &self.flight);
                assert(report_views(reports@) =~= want.2.reports);
                Cycle { outcome: Some(FlightOutcome::Aborted), target: None, flown: false, reports }
            },
            SurveyStep::Paused => {
                let mut reports: Vec<Report> = Vec::new();
                assert(report_views(reports@) =~= Seq::empty());
                if beat {
                    let leg: usize = self.flight.leg();
                    let frames: u64 = self.flight.frames();
                    tell(
                        &mut reports,
                        Report::Status {
                            state: "searching",
                            leg,
                            frames,
                            note: "paused: sensor-override detour",
                        },
                    );
                    self.last_status_ms = now_ms;
                }
                assert(report_views(reports@) =~= want.2.reports);
                Cycle { outcome: None, target: None, flown: false, reports }
            },
            SurveyStep::Flown { outcome, events, target } => {
                let leg: usize = self.flight.leg();
                let frames: u64 = self.flight.frames();
                let mut reports = tell_events(&events, leg, frames);
                let ghost told = report_views(reports@);
                assert(told.len() == reports@.len());
                if reports.len() == 0 && beat {
                    tell(&mut reports, Report::Status { state: "searching", leg, frames, note: "" });
                    assert(report_views(reports@) =~= flown_reports(self.flight@, events@, beat));
                }
                assert(report_views(reports@).len() == reports@.len());
                if reports.len() > 0 {
                    self.last_status_ms = now_ms;
                }
                match outcome {
                    Some(o) => tell_closing(&mut reports, o, &self.flight),
                    None => {},
                }
                Cycle { outcome, target, flown: true, reports }
            },
        }
    }
}

/// A survey that ends says so last, and only then: the closing lines come with
/// the outcome and with nothing else.
pub proof fn surveys_close_with_their_outcome(
    a: AgentView,
    s: SurveyView,
    t: RasterTick,
    now_ms: u64,
)
    ensures
        ({
            let (_, _, c) = survey_cycle(a, s, t, now_ms);
            let closed = exists|i: int|
                0 <= i < c.reports.len() && #[trigger] c.reports[i] is Finished;
            closed <==> c.outcome is Some
        }),
{
    let (_, next, c) = survey_cycle(a, s, t, now_ms);
    if survey_interrupted(a) {
        assert(c.reports[1] is Finished);
    } else if !a.detour {
        let (g, answer) = raster_step(s.flight, t);
        let said = flown_reports(g, answer.events, heartbeat(s.last_status_ms, now_ms));
        lemma_events_never_close(
            answer.events,
            answer.events.len(),
            current_leg(g),
            g.frames as int,
        );
        match answer.outcome {
            Some(o) => {
                assert(c.reports[said.len() as int + 1] == closing(o, g)[1]);
            },
            None => {},
        }
    }
}

proof fn lemma_events_never_close(events: Seq<MissionEvent>, n: nat, leg: int, frames: int)
    ensures
        forall|i: int|
            0 <= i < events_reports(events, n, leg, frames).len() ==> !((
            #[trigger] events_reports(events, n, leg, frames)[i]) is Finished),
    decreases n,
{
    if 0 < n <= events.len() {
        lemma_events_never_close(events, (n - 1) as nat, leg, frames);
        let head = events_reports(events, (n - 1) as nat, leg, frames);
        let more = event_reports(events[n - 1], leg, frames);
        assert forall|i: int|
            0 <= i < (head + more).len() implies !((#[trigger] (head + more)[i]) is Finished) by {
            if i >= head.len() {
                assert((head + more)[i] == more[i - head.len()]);
            }
        }
    }
}

/// A survey under way is never silent for longer than the heartbeat: once it
/// is due, a cycle that does not end it publishes a status.
pub proof fn surveys_are_never_silent(a: AgentView, s: SurveyView, t: RasterTick, now_ms: u64)
    requires
        heartbeat(s.last_status_ms, now_ms),
    ensures
        survey_cycle(a, s, t, now_ms).2.reports.len() > 0,
        !survey_interrupted(a) ==> survey_cycle(a, s, t, now_ms).1.last_status_ms == now_ms,
{
}

} // verus!
