//! The agent's service decisions: what every vehicle operation does to the
//! vehicle, what it answers and what the program around has to perform.

use vstd::prelude::*;

use crate::mission::{flat, RasterPlan};
use crate::patterns::{pattern_for, select_investigate_pattern};
use crate::policy::{
    agl_guard, agl_verdict, audio_range_guard, busy_guard, default_max_range, range_guard,
    range_verdict, shutdown_code, shutdown_guard, AglBounds, PolicyRejection,
    DEFAULT_MAX_AGL_BITS, DEFAULT_MAX_RANGE_BITS, DEFAULT_MIN_AGL_BITS,
};
use crate::quantity::{Quantity, Real};
use crate::queue::Vehicle;
use crate::queue_laws::{
    abort_by_id_keeps_queue_valid, flush_keeps_queue_valid, reorder_keeps_queue_valid,
    submit_keeps_queue_valid,
};
use crate::queue_model::{
    abort_by_id_step, abort_events, displaces, events, flushed, ids, queue_inv, reordered,
    submit_step, AbortedBy, ById, QueueEvent, QueueEventView, QueueView, Submit, SubmitView,
    TaskParams, TaskParamsView, VehicleView, DEFAULT_QUEUE_DEPTH, FINISHED_TAIL, RTL,
};
use crate::services::{
    accepted_with, refused_with, rejected_by, Ack, AckView, InvestigateRequest, QueueReorderRequest,
    RasterRequest, SensorRequest, SensorRequestView, TakeoffRequest, VideoRequest, MODE_NOW,
    MODE_OPPORTUNISTIC, MODE_OVERRIDE, PATTERN_FLYOVER,
};
use crate::tasks::TaskOrigin;
use crate::text::{cat, dec, dec_text, same, starts_with, strip_prefix, views};

verus! {

/// Commands from the services into the agent's control plumbing.
#[derive(Clone, Copy, Debug, PartialEq, Eq, Structural)]
pub enum AgentCommand {
    /// Engage slot-layered smart return-to-launch.
    SmartRtl,
    /// Cancel a smart return-to-launch in flight.
    AbortRtl,
    /// Authorized shutdown: flush, cancel everything, exit.
    Shutdown,
}

/// What the program around performs, in order.
#[derive(Debug)]
pub enum Effect {
    Send(AgentCommand),
    /// Start the queue driver.
    SpawnDriver,
    StartTakeoff,
    /// Fly a survey outside the queue.
    StartRaster,
    /// Fly an inspection outside the queue.
    StartInvestigate,
    CaptureNow,
    /// Fly to the point, capture, resume `resume_task`.
    FlyOverride { resume_task: String },
    ArmWatchpoint { id: String },
    CancelWatchpoint { id: String },
    /// Journal that the operator cancelled `label`.
    JournalAborted { label: String },
    /// Start a video session, replacing a running one.
    StartVideo { fps: u32 },
    StopVideo,
    JournalShutdown,
    SyncJournal,
}

/// An effect by its values.
#[verifier::ext_equal]
pub enum EffectView {
    Send(AgentCommand),
    SpawnDriver,
    StartTakeoff,
    StartRaster,
    StartInvestigate,
    CaptureNow,
    FlyOverride { resume_task: Seq<char> },
    ArmWatchpoint { id: Seq<char> },
    CancelWatchpoint { id: Seq<char> },
    JournalAborted { label: Seq<char> },
    StartVideo { fps: u32 },
    StopVideo,
    JournalShutdown,
    SyncJournal,
}

impl View for Effect {
    type V = EffectView;

    open spec fn view(&self) -> EffectView {
        match self {
            Effect::Send(c) => EffectView::Send(*c),
            Effect::SpawnDriver => EffectView::SpawnDriver,
            Effect::StartTakeoff => EffectView::StartTakeoff,
            Effect::StartRaster => EffectView::StartRaster,
            Effect::StartInvestigate => EffectView::StartInvestigate,
            Effect::CaptureNow => EffectView::CaptureNow,
            Effect::FlyOverride { resume_task } => EffectView::FlyOverride {
                resume_task: resume_task@,
            },
            Effect::ArmWatchpoint { id } => EffectView::ArmWatchpoint { id: id@ },
            Effect::CancelWatchpoint { id } => EffectView::CancelWatchpoint { id: id@ },
            Effect::JournalAborted { label } => EffectView::JournalAborted { label: label@ },
            Effect::StartVideo { fps } => EffectView::StartVideo { fps: *fps },
            Effect::StopVideo => EffectView::StopVideo,
            Effect::JournalShutdown => EffectView::JournalShutdown,
            Effect::SyncJournal => EffectView::SyncJournal,
        }
    }
}

/// The views of a list of effects.
pub open spec fn effects(v: Seq<Effect>) -> Seq<EffectView> {
    v.map_values(|e: Effect| e@)
}

/// The answer of an operation.
#[derive(Debug)]
pub struct Reply {
    pub ack: Ack,
    pub effects: Vec<Effect>,
    /// What the queue journals.
    pub events: Vec<QueueEvent>,
}

/// An answer by its values.
#[verifier::ext_equal]
pub struct ReplyView {
    pub ack: AckView,
    pub effects: Seq<EffectView>,
    pub events: Seq<QueueEventView>,
}

impl View for Reply {
    type V = ReplyView;

    open spec fn view(&self) -> ReplyView {
        ReplyView { ack: self.ack@, effects: effects(self.effects@), events: events(self.events@) }
    }
}

/// An answer that performs nothing.
pub open spec fn just(ack: AckView) -> ReplyView {
    ReplyView { ack, effects: Seq::empty(), events: Seq::empty() }
}

/// An answer with one effect.
pub open spec fn with_effect(ack: AckView, effect: EffectView) -> ReplyView {
    ReplyView { ack, effects: seq![effect], events: Seq::empty() }
}

/// An answer that performs nothing.
fn just_ack(ack: Ack) -> (r: Reply)
    ensures
        r@ == just(ack@),
{
    let effects: Vec<Effect> = Vec::new();
    let events: Vec<QueueEvent> = Vec::new();
    let r = Reply { ack, effects, events };
    assert(r@.effects =~= Seq::empty());
    assert(r@.events =~= Seq::empty());
    r
}

/// An answer with one effect.
fn ack_with(ack: Ack, effect: Effect) -> (r: Reply)
    ensures
        r@ == with_effect(ack@, effect@),
{
    let mut effects: Vec<Effect> = Vec::new();
    effects.push(effect);
    let events: Vec<QueueEvent> = Vec::new();
    let r = Reply { ack, effects, events };
    assert(r@.effects =~= seq![effect@]);
    assert(r@.events =~= Seq::empty());
    r
}

/// One armed opportunistic watchpoint.
#[derive(Debug)]
pub struct Watchpoint {
    /// Registry id, unique per boot.
    pub id: String,
    /// Which sensor fires.
    pub sensor: String,
}

/// An armed watchpoint by its values.
#[verifier::ext_equal]
pub struct WatchpointView {
    pub id: Seq<char>,
    pub sensor: Seq<char>,
}

impl View for Watchpoint {
    type V = WatchpointView;

    open spec fn view(&self) -> WatchpointView {
        WatchpointView { id: self.id@, sensor: self.sensor@ }
    }
}

/// Armed watchpoints by their views.
pub open spec fn watch_views(v: Seq<Watchpoint>) -> Seq<WatchpointView> {
    v.map_values(|w: Watchpoint| w@)
}

/// The ids of armed watchpoints.
pub open spec fn watch_ids(s: Seq<WatchpointView>) -> Seq<Seq<char>> {
    s.map_values(|w: WatchpointView| w.id)
}

/// The watchpoints without the one of an id, in order.
pub open spec fn unwatched(s: Seq<WatchpointView>, id: Seq<char>) -> Seq<WatchpointView>
    decreases s.len(),
{
    if s.len() == 0 {
        Seq::empty()
    } else if s.last().id == id {
        unwatched(s.drop_last(), id)
    } else {
        unwatched(s.drop_last(), id).push(s.last())
    }
}

/// Bits of the default reach of a microphone, 30 m.
pub const DEFAULT_AUDIO_RANGE_BITS: u64 = 0x403e_0000_0000_0000;

/// State shared between the services and the loops of an agent.
#[derive(Debug)]
pub struct AgentShared {
    pub vehicle_id: String,
    /// Capabilities that the vehicle advertises (`"camera"`, `"audio"`, ...).
    pub extras: Vec<String>,
    /// The task queue and the flags that decide who owns the vehicle.
    pub vehicle: Vehicle,
    /// Busy requests queue; off, they are refused.
    pub queue_enabled: bool,
    /// Pending-depth limit.
    pub queue_depth: usize,
    /// Armed watchpoints.
    pub watchpoints: Vec<Watchpoint>,
    /// Number of watchpoint ids given out.
    pub watchpoint_seq: u64,
    pub agl_bounds: AglBounds,
    pub max_range_m: Quantity,
    pub audio_range_m: Quantity,
    /// Smart return-to-launch is available.
    pub smart_rtl: bool,
    /// A capture detour is flying: mission loops are frozen.
    pub detour: bool,
    /// A remote-control session is engaged.
    pub rc_engaged: bool,
    /// A release of the remote-control session was requested.
    pub rc_disengage: bool,
    /// A sensor feed is fitted.
    pub sensor_feed: bool,
}

/// The part of the shared state that operations change.
#[verifier::ext_equal]
pub struct AgentView {
    pub v: VehicleView,
    pub watchpoints: Seq<WatchpointView>,
    pub watchpoint_seq: nat,
    pub detour: bool,
    pub rc_engaged: bool,
    pub rc_disengage: bool,
}

impl View for AgentShared {
    type V = AgentView;

    open spec fn view(&self) -> AgentView {
        AgentView {
            v: self.vehicle@,
            watchpoints: watch_views(self.watchpoints@),
            watchpoint_seq: self.watchpoint_seq as nat,
            detour: self.detour,
            rc_engaged: self.rc_engaged,
            rc_disengage: self.rc_disengage,
        }
    }
}

/// An idle agent that has done nothing yet.
pub open spec fn fresh() -> AgentView {
    AgentView {
        v: VehicleView {
            q: QueueView {
                seq: 0,
                active: None,
                pending: Seq::empty(),
                finished: Seq::empty(),
                driver_running: false,
                preempt_insert_at: None,
            },
            busy: Seq::empty(),
            abort: false,
            operator_abort: false,
        },
        watchpoints: Seq::empty(),
        watchpoint_seq: 0,
        detour: false,
        rc_engaged: false,
        rc_disengage: false,
    }
}

impl AgentShared {
    /// What was configured stays as it is.
    pub open spec fn same_setup(self, other: AgentShared) -> bool {
        &&& self.vehicle_id == other.vehicle_id
        &&& self.extras == other.extras
        &&& self.queue_enabled == other.queue_enabled
        &&& self.queue_depth == other.queue_depth
        &&& self.agl_bounds == other.agl_bounds
        &&& self.max_range_m == other.max_range_m
        &&& self.audio_range_m == other.audio_range_m
        &&& self.smart_rtl == other.smart_rtl
        &&& self.sensor_feed == other.sensor_feed
    }

    /// What holds of every agent: its queue is well formed.
    pub open spec fn valid(self) -> bool {
        queue_inv(self@.v.q)
    }

    /// An idle vehicle on the bench: no sensors, no fleet, default rails.
    pub fn bench(vehicle_id: &str) -> (r: Self)
        ensures
            r.valid(),
            r.vehicle_id@ == vehicle_id@,
            r.extras@.len() == 0,
            r@ == fresh(),
            r.queue_enabled,
            r.queue_depth == DEFAULT_QUEUE_DEPTH,
            r.max_range_m.value.bits == DEFAULT_MAX_RANGE_BITS,
            r.max_range_m.text@ == "300.0"@,
            r.audio_range_m.value.bits == DEFAULT_AUDIO_RANGE_BITS,
            r.audio_range_m.text@ == "30.0"@,
            r.agl_bounds.min_agl_m.value.bits == DEFAULT_MIN_AGL_BITS,
            r.agl_bounds.min_agl_m.text@ == "3.5"@,
            r.agl_bounds.max_agl_m.value.bits == DEFAULT_MAX_AGL_BITS,
            r.agl_bounds.max_agl_m.text@ == "20.0"@,
            !r.smart_rtl,
            !r.sensor_feed,
    {
        let r = AgentShared {
            vehicle_id: vehicle_id.to_owned(),
            extras: Vec::new(),
            vehicle: Vehicle::new(),
            queue_enabled: true,
            queue_depth: DEFAULT_QUEUE_DEPTH,
            watchpoints: Vec::new(),
            watchpoint_seq: 0,
            agl_bounds: AglBounds::default(),
            max_range_m: default_max_range(),
            audio_range_m: Quantity {
                value: Real { bits: DEFAULT_AUDIO_RANGE_BITS },
                text: "30.0".to_owned(),
            },
            smart_rtl: false,
            detour: false,
            rc_engaged: false,
            rc_disengage: false,
            sensor_feed: false,
        };
        assert(r@ =~= fresh());
        r
    }
}

// ---------------------------------------------------------------------------
// the ladder
// ---------------------------------------------------------------------------

/// The vehicle after a blanket stop: the running task ends within one control
/// cycle, nothing waits, nobody owns the vehicle.
pub open spec fn stopped(v: VehicleView) -> VehicleView {
    VehicleView { q: flushed(v.q), busy: Seq::empty(), abort: true, operator_abort: false }
}

/// The agent after a return-to-launch request.
pub open spec fn rtl_state(a: AgentView, smart: bool) -> AgentView {
    AgentView {
        v: VehicleView {
            busy: if smart {
                RTL@
            } else {
                Seq::empty()
            },
            ..stopped(a.v)
        },
        ..a
    }
}

impl AgentShared {
    /// Raise the abort flag, release the vehicle, flush the queue.
    fn stop_everything(&mut self) -> (r: Vec<QueueEvent>)
        requires
            old(self)@.v.q.finished.len() <= FINISHED_TAIL,
        ensures
            final(self)@ == (AgentView { v: stopped(old(self)@.v), ..old(self)@ }),
            final(self).same_setup(*old(self)),
            events(r@) == abort_events(old(self)@.v.q.pending, AbortedBy::Ladder),
    {
        self.vehicle.operator_abort = false;
        self.vehicle.abort = true;
        self.vehicle.busy = String::new();
        self.vehicle.flush_pending(AbortedBy::Ladder)
    }

    /// Return to launch: never gated. The running task ends within one cycle
    /// and every pending entry is flushed. With smart return-to-launch the
    /// answer is complete; otherwise the autopilot decides, see
    /// [`native_rtl_ack`].
    pub fn flight_rtl(&mut self) -> (r: (Option<Ack>, Vec<Effect>, Vec<QueueEvent>))
        requires
            old(self).valid(),
        ensures
            final(self)@ == rtl_state(old(self)@, old(self).smart_rtl),
            final(self).same_setup(*old(self)),
            final(self).valid(),
            events(r.2@) == abort_events(old(self)@.v.q.pending, AbortedBy::Ladder),
            old(self).smart_rtl ==> {
                &&& r.0 is Some
                &&& r.0->0@ == accepted_with("smart rtl engaged (slot-layered)"@)
                &&& effects(r.1@) == seq![EffectView::Send(AgentCommand::SmartRtl)]
            },
            !old(self).smart_rtl ==> r.0 is None && effects(r.1@) == Seq::<EffectView>::empty(),
            final(self)@.v.q.pending.len() == 0 && final(self)@.v.abort && !final(self)@.v.operator_abort,
            final(self)@.v.busy == (if old(self).smart_rtl {
                "rtl"@
            } else {
                Seq::empty()
            }),
            events(r.2@).len() == old(self)@.v.q.pending.len(),
    {
        proof {
            flush_keeps_queue_valid(self@.v.q);
        }
        let out = self.stop_everything();
        let mut todo: Vec<Effect> = Vec::new();
        if self.smart_rtl {
            self.vehicle.busy = RTL.to_owned();
            todo.push(Effect::Send(AgentCommand::SmartRtl));
            assert(effects(todo@) =~= seq![EffectView::Send(AgentCommand::SmartRtl)]);
            (Some(Ack::ok_detail("smart rtl engaged (slot-layered)")), todo, out)
        } else {
            assert(effects(todo@) =~= Seq::<EffectView>::empty());
            (None, todo, out)
        }
    }

    /// The abort ladder of land and hold: stop everything and stand a smart
    /// return-to-launch down. The autopilot's answer makes the
    /// acknowledgement, see [`land_ack`] and [`hold_ack`].
    pub fn abort_running_task(&mut self) -> (r: (Vec<Effect>, Vec<QueueEvent>))
        requires
            old(self).valid(),
        ensures
            final(self)@ == (AgentView { v: stopped(old(self)@.v), ..old(self)@ }),
            final(self).same_setup(*old(self)),
            final(self).valid(),
            effects(r.0@) == seq![EffectView::Send(AgentCommand::AbortRtl)],
            events(r.1@) == abort_events(old(self)@.v.q.pending, AbortedBy::Ladder),
            final(self)@.v.q.pending.len() == 0 && final(self)@.v.abort && !final(self)@.v.operator_abort,
            final(self)@.v.busy.len() == 0 && events(r.1@).len() == old(self)@.v.q.pending.len(),
    {
        proof {
            flush_keeps_queue_valid(self@.v.q);
        }
        let out = self.stop_everything();
        let mut todo: Vec<Effect> = Vec::new();
        todo.push(Effect::Send(AgentCommand::AbortRtl));
        assert(effects(todo@) =~= seq![EffectView::Send(AgentCommand::AbortRtl)]);
        (todo, out)
    }
}

/// The acknowledgement of a native return to launch.
pub fn native_rtl_ack(accepted: bool) -> (r: Ack)
    ensures
        r@ == (if accepted {
            accepted_with("native rtl"@)
        } else {
            refused_with("backend-refused"@, "autopilot refused RTL"@)
        }),
        r@.accepted == accepted,
        !accepted ==> r@.code == "backend-refused"@,
{
    if accepted {
        Ack::ok_detail("native rtl")
    } else {
        Ack::refuse("backend-refused", "autopilot refused RTL")
    }
}

/// The acknowledgement of a landing.
pub fn land_ack(accepted: bool) -> (r: Ack)
    ensures
        r@ == (if accepted {
            accepted_with(Seq::empty())
        } else {
            refused_with("backend-refused"@, "autopilot refused LAND"@)
        }),
        r@.accepted == accepted,
        !accepted ==> r@.code == "backend-refused"@,
{
    if accepted {
        Ack::ok()
    } else {
        Ack::refuse("backend-refused", "autopilot refused LAND")
    }
}

/// The acknowledgement of a hold.
pub fn hold_ack(accepted: bool) -> (r: Ack)
    ensures
        r@ == (if accepted {
            accepted_with(Seq::empty())
        } else {
            refused_with("backend-refused"@, "autopilot refused HOLD"@)
        }),
        r@.accepted == accepted,
        !accepted ==> r@.code == "backend-refused"@,
{
    if accepted {
        Ack::ok()
    } else {
        Ack::refuse("backend-refused", "autopilot refused HOLD")
    }
}

// ---------------------------------------------------------------------------
// occupying the vehicle
// ---------------------------------------------------------------------------

/// The busy label of a manual takeoff.
pub const TAKEOFF: &'static str = "takeoff";

/// The vehicle owned by a freshly accepted task.
pub open spec fn occupied(v: VehicleView, label: Seq<char>) -> VehicleView {
    VehicleView { busy: label, abort: false, operator_abort: false, ..v }
}

/// The refusal of a busy vehicle.
pub open spec fn busy_ack(busy: Seq<char>) -> AckView {
    refused_with("busy"@, "vehicle busy with task '"@ + busy + "'"@)
}

fn refuse_busy(task: &str) -> (r: Ack)
    ensures
        r@ == busy_ack(task@),
{
    Ack::reject(&PolicyRejection::Busy { task: task.to_owned() })
}

impl AgentShared {
    /// Occupy the vehicle: set the label and clear any stale abort, so the
    /// new task is not cancelled at once.
    pub fn occupy(&mut self, label: &str)
        ensures
            final(self)@ == (AgentView { v: occupied(old(self)@.v, label@), ..old(self)@ }),
            final(self).same_setup(*old(self)),
    {
        self.vehicle.busy = label.to_owned();
        self.vehicle.abort = false;
        self.vehicle.operator_abort = false;
    }

    /// Take off. Gated by the altitude window, then by the busy label; an
    /// accepted takeoff occupies the vehicle for the climb.
    pub fn flight_takeoff(&mut self, req: &TakeoffRequest) -> (r: Reply)
        requires
            old(self).valid(),
        ensures
            ({
                let verdict = agl_verdict(req.agl_m, old(self).agl_bounds);
                let busy = old(self)@.v.busy;
                if verdict is Err {
                    r@ == just(rejected_by(verdict->Err_0)) && final(self)@ == old(self)@
                } else if busy.len() > 0 {
                    r@ == just(busy_ack(busy)) && final(self)@ == old(self)@
                } else {
                    &&& r@ == with_effect(
                        accepted_with("takeoff started"@),
                        EffectView::StartTakeoff,
                    )
                    &&& final(self)@ == (AgentView {
                        v: occupied(old(self)@.v, TAKEOFF@),
                        ..old(self)@
                    })
                }
            }),
            r@.ack.accepted <==> old(self)@.v.busy.len() == 0 && old(self).agl_bounds.min_agl_m.value.at_most(req.agl_m.value) && req.agl_m.value.at_most(
                old(self).agl_bounds.max_agl_m.value,
            ),
            r@.ack.accepted ==> final(self)@.v.busy == "takeoff"@ && !final(self)@.v.abort && r@.effects
                == seq![EffectView::StartTakeoff],
            !r@.ack.accepted ==> final(self)@ == old(self)@ && r@.effects.len() == 0,
            final(self).same_setup(*old(self)),
            final(self).valid(),
    {
        if let Err(rejection) = agl_guard(&req.agl_m, &self.agl_bounds) {
            return just_ack(Ack::reject(&rejection));
        }
        if let Err(rejection) = busy_guard(self.vehicle.busy.as_str()) {
            return just_ack(Ack::reject(&rejection));
        }
        self.occupy(TAKEOFF);
        ack_with(Ack::ok_detail("takeoff started"), Effect::StartTakeoff)
    }
}

// ---------------------------------------------------------------------------
// queued tasks
// ---------------------------------------------------------------------------

/// The note of a queued acceptance.
pub open spec fn queued_note(task_id: Seq<char>, ahead: nat, eta: Seq<char>) -> Seq<char> {
    "task "@ + task_id + " queued at position "@ + dec_text(ahead) + "; starts in ~"@ + eta + " s"@
}

/// The reason of a full queue.
pub open spec fn full_note(depth: nat) -> Seq<char> {
    "task queue depth limit reached ("@ + dec_text(depth) + " pending)"@
}

/// The answer to a submission. `started` is the note of an immediate start;
/// `fallback` is performed when the queue engine is off.
pub open spec fn submit_reply(
    outcome: SubmitView,
    journal: Seq<QueueEventView>,
    started: Seq<char>,
    eta: Seq<char>,
    fallback: EffectView,
) -> ReplyView {
    match outcome {
        SubmitView::Started { task_id, spawn_driver } => ReplyView {
            ack: accepted_with(started),
            effects: if spawn_driver {
                seq![EffectView::SpawnDriver]
            } else {
                Seq::empty()
            },
            events: journal,
        },
        SubmitView::Queued { task_id, ahead } => ReplyView {
            ack: AckView {
                accepted: true,
                code: "queued"@,
                detail: queued_note(task_id, ahead, eta),
            },
            effects: Seq::empty(),
            events: journal,
        },
        SubmitView::Full { depth } => ReplyView {
            ack: refused_with("queue-full"@, full_note(depth)),
            effects: Seq::empty(),
            events: journal,
        },
        SubmitView::RtlOwned => ReplyView {
            ack: busy_ack(RTL@),
            effects: Seq::empty(),
            events: journal,
        },
        SubmitView::Disabled => ReplyView {
            ack: accepted_with(started),
            effects: seq![fallback],
            events: journal,
        },
    }
}

/// What accepting a task does to the agent and what it answers.
pub open spec fn accept_step(
    a: AgentView,
    enabled: bool,
    depth: nat,
    params: TaskParamsView,
    origin: TaskOrigin,
    now_ns: u64,
    est: Real,
    started: Seq<char>,
    eta: Seq<char>,
    fallback: EffectView,
) -> (AgentView, ReplyView) {
    let (v, outcome, journal) = submit_step(a.v, enabled, depth, params, origin, now_ns, est);
    (
        AgentView {
            v: if enabled {
                v
            } else {
                occupied(a.v, params.kind().text())
            },
            ..a
        },
        submit_reply(outcome, journal, started, eta, fallback),
    )
}

impl AgentShared {
    /// Submit a task and answer; with the queue engine off, occupy the
    /// vehicle and start it directly.
    fn accept_task(
        &mut self,
        params: TaskParams,
        origin: TaskOrigin,
        now_ns: u64,
        est: Real,
        started: &str,
        eta: &str,
        fallback: Effect,
    ) -> (r: Reply)
        requires
            old(self).valid(),
            old(self)@.v.q.seq < u64::MAX,
        ensures
            ({
                let step = accept_step(
                    old(self)@,
                    old(self).queue_enabled,
                    old(self).queue_depth as nat,
                    params@,
                    origin,
                    now_ns,
                    est,
                    started@,
                    eta@,
                    fallback@,
                );
                &&& final(self)@ == step.0
                &&& r@ == step.1
            }),
            final(self).same_setup(*old(self)),
            final(self).valid(),
    {
        let kind = params.kind();
        let enabled = self.queue_enabled;
        let depth: usize = self.queue_depth;
        proof {
            submit_keeps_queue_valid(
                self@.v,
                enabled,
                depth as nat,
                params@,
                origin,
                now_ns,
                est,
            );
        }
        let (outcome, journal) = self.vehicle.submit(enabled, depth, params, origin, now_ns, est);
        let mut todo: Vec<Effect> = Vec::new();
        assert(effects(todo@) =~= Seq::<EffectView>::empty());
        let ack = match outcome {
            Submit::Started { task_id, spawn_driver } => {
                if spawn_driver {
                    todo.push(Effect::SpawnDriver);
                    assert(effects(todo@) =~= seq![EffectView::SpawnDriver]);
                }
                Ack::ok_detail(started)
            },
            Submit::Queued { task_id, ahead } => {
                let mut s = cat("task ", task_id.as_str());
                s.append(" queued at position ");
                s.append(dec(ahead as u64).as_str());
                s.append("; starts in ~");
                s.append(eta);
                s.append(" s");
                Ack::queued(s.as_str())
            },
            Submit::Full { depth } => {
                let mut s = cat("task queue depth limit reached (", dec(depth as u64).as_str());
                s.append(" pending)");
                Ack::refuse("queue-full", s.as_str())
            },
            Submit::RtlOwned => refuse_busy(RTL),
            Submit::Disabled => {
                self.occupy(kind.as_str());
                todo.push(fallback);
                assert(effects(todo@) =~= seq![fallback@]);
                Ack::ok_detail(started)
            },
        };
        Reply { ack, effects: todo, events: journal }
    }
}

/// What a gate of a flown task answers: the busy label only when nothing
/// queues, then the altitude window, then the range; `None` when it passes.
pub open spec fn task_gate(
    queue_enabled: bool,
    busy: Seq<char>,
    agl_m: Quantity,
    bounds: AglBounds,
    from_home: Option<Seq<Quantity>>,
    max_range_m: Quantity,
) -> Option<AckView> {
    let agl = agl_verdict(agl_m, bounds);
    let range = range_verdict(from_home, max_range_m);
    if !queue_enabled && busy.len() > 0 {
        Some(busy_ack(busy))
    } else if agl is Err {
        Some(rejected_by(agl->Err_0))
    } else if range is Err {
        Some(rejected_by(range->Err_0))
    } else {
        None
    }
}

/// The distances as a sequence.
pub open spec fn distances(from_home: Option<Vec<Quantity>>) -> Option<Seq<Quantity>> {
    match from_home {
        Some(d) => Some(d@),
        None => None,
    }
}

/// The note of an accepted survey.
pub open spec fn raster_note(legs: nat, captures: nat) -> Seq<char> {
    "raster accepted: "@ + dec_text(legs) + " legs, "@ + dec_text(captures) + " captures"@
}

/// Who asked for an inspection: the mission machine stamps a mission id on
/// what it dispatches.
pub open spec fn investigate_origin(mission_id: Seq<char>) -> TaskOrigin {
    if mission_id.len() == 0 {
        TaskOrigin::Operator
    } else {
        TaskOrigin::Dispatch
    }
}

/// The note of an accepted inspection.
pub open spec fn investigate_note(pattern: Seq<char>) -> Seq<char> {
    if pattern == PATTERN_FLYOVER@ {
        "acoustic flyover accepted"@
    } else {
        "carrot-orbit accepted"@
    }
}

/// The vehicle carries a microphone.
pub open spec fn has_audio(extras: Seq<String>) -> bool {
    exists|i: int| 0 <= i < extras.len() && (#[trigger] extras[i])@ == "audio"@
}

impl AgentShared {
    fn gate(
        &self,
        agl_m: &Quantity,
        from_home: &Option<Vec<Quantity>>,
    ) -> (r: Option<Ack>)
        ensures
            ({
                let verdict = task_gate(
                    self.queue_enabled,
                    self@.v.busy,
                    *agl_m,
                    self.agl_bounds,
                    distances(*from_home),
                    self.max_range_m,
                );
                match r {
                    Some(ack) => verdict == Some(ack@),
                    None => verdict is None,
                }
            }),
    {
        if !self.queue_enabled {
            if let Err(rejection) = busy_guard(self.vehicle.busy.as_str()) {
                return Some(Ack::reject(&rejection));
            }
        }
        if let Err(rejection) = agl_guard(agl_m, &self.agl_bounds) {
            return Some(Ack::reject(&rejection));
        }
        if let Err(rejection) = range_guard(from_home, &self.max_range_m) {
            return Some(Ack::reject(&rejection));
        }
        None
    }

    /// Whether the vehicle advertises a microphone.
    pub fn carries_audio(&self) -> (r: bool)
        ensures
            r == has_audio(self.extras@),
    {
        let mut i: usize = 0;
        while i < self.extras.len()
            invariant
                i <= self.extras@.len(),
                forall|j: int| 0 <= j < i ==> (#[trigger] self.extras@[j])@ != "audio"@,
            decreases self.extras@.len() - i,
        {
            if same(self.extras[i].as_str(), "audio") {
                assert(self.extras@[i as int]@ == "audio"@);
                return true;
            }
            i = i + 1;
        }
        false
    }

    /// Survey an area. `agl_m` is the requested altitude with its printed
    /// form, `plan` the plan of the request, built before, and `eta` how long a
    /// queued survey waits, in printed seconds.
    pub fn raster_search(
        &mut self,
        req: RasterRequest,
        agl_m: &Quantity,
        from_home: &Option<Vec<Quantity>>,
        plan: &Result<RasterPlan, String>,
        now_ns: u64,
        est: Real,
        eta: &str,
    ) -> (r: Reply)
        requires
            old(self).valid(),
            old(self)@.v.q.seq < u64::MAX,
            agl_m.value == req@.agl_m,
            plan matches Ok(p) ==> p@.valid(),
        ensures
            ({
                let gate = task_gate(
                    old(self).queue_enabled,
                    old(self)@.v.busy,
                    *agl_m,
                    old(self).agl_bounds,
                    distances(*from_home),
                    old(self).max_range_m,
                );
                match gate {
                    Some(ack) => r@ == just(ack) && final(self)@ == old(self)@,
                    None => match plan {
                        Err(why) => {
                            &&& r@ == just(refused_with("bad-raster"@, why@))
                            &&& final(self)@ == old(self)@
                        },
                        Ok(p) => {
                            let step = accept_step(
                                old(self)@,
                                old(self).queue_enabled,
                                old(self).queue_depth as nat,
                                TaskParamsView::Raster { req: req@, start_leg: 0, skip_captures: 0 },
                                TaskOrigin::Operator,
                                now_ns,
                                est,
                                raster_note(p@.legs.len(), flat(p@.captures).len()),
                                eta@,
                                EffectView::StartRaster,
                            );
                            final(self)@ == step.0 && r@ == step.1
                        },
                    },
                }
            }),
            r@.ack.accepted ==> {
                &&& plan is Ok
                &&& !agl_m.value.below(old(self).agl_bounds.min_agl_m.value)
                &&& !old(self).agl_bounds.max_agl_m.value.below(agl_m.value)
                &&& old(self).queue_enabled || old(self)@.v.busy.len() == 0
            },
            !r@.ack.accepted ==> final(self)@ == old(self)@ && r@.effects.len() == 0,
            r@.ack.accepted && old(self).queue_enabled ==> {
                let idle = old(self)@.v.busy.len() == 0 && old(self)@.v.q.active is None;
                let e = if idle {
                    final(self)@.v.q.active->0
                } else {
                    final(self)@.v.q.pending.last()
                };
                &&& e.params == (TaskParamsView::Raster {
                    req: req@,
                    start_leg: 0,
                    skip_captures: 0,
                })
                &&& e.origin == TaskOrigin::Operator
            },
            r@.ack.accepted && !old(self).queue_enabled ==> r@.effects == seq![
                EffectView::StartRaster,
            ] && final(self)@.v.busy == "raster-search"@,
            final(self).same_setup(*old(self)),
            final(self).valid(),
    {
        if let Some(ack) = self.gate(agl_m, from_home) {
            return just_ack(ack);
        }
        match plan {
            Err(why) => just_ack(Ack::refuse("bad-raster", why.as_str())),
            Ok(p) => {
                let mut note = cat("raster accepted: ", dec(p.legs.len() as u64).as_str());
                note.append(" legs, ");
                note.append(dec(p.capture_count() as u64).as_str());
                note.append(" captures");
                self.accept_task(
                    TaskParams::Raster { req, start_leg: 0, skip_captures: 0 },
                    TaskOrigin::Operator,
                    now_ns,
                    est,
                    note.as_str(),
                    eta,
                    Effect::StartRaster,
                )
            },
        }
    }

    /// Inspect a point. The pattern follows from the requested sensors and
    /// the vehicle's capabilities, and the note names it. A radius that is not
    /// positive is refused; a turn count that is not positive is not: an absent
    /// one is zero, and it is flown as one turn.
    pub fn investigate(
        &mut self,
        req: InvestigateRequest,
        agl_m: &Quantity,
        from_home: &Option<Vec<Quantity>>,
        now_ns: u64,
        est: Real,
        eta: &str,
    ) -> (r: Reply)
        requires
            old(self).valid(),
            old(self)@.v.q.seq < u64::MAX,
            agl_m.value == req@.agl_m,
        ensures
            ({
                let gate = task_gate(
                    old(self).queue_enabled,
                    old(self)@.v.busy,
                    *agl_m,
                    old(self).agl_bounds,
                    distances(*from_home),
                    old(self).max_range_m,
                );
                match gate {
                    Some(ack) => r@ == just(ack) && final(self)@ == old(self)@,
                    None => if req@.radius_m.at_most(crate::quantity::zero()) {
                        &&& r@ == just(
                            refused_with(
                                "bad-orbit"@,
                                "invalid request geometry (radius_m <= 0)"@,
                            ),
                        )
                        &&& final(self)@ == old(self)@
                    } else {
                        let step = accept_step(
                            old(self)@,
                            old(self).queue_enabled,
                            old(self).queue_depth as nat,
                            TaskParamsView::Investigate { req: req@ },
                            investigate_origin(req@.mission_id),
                            now_ns,
                            est,
                            investigate_note(
                                pattern_for(req@, has_audio(old(self).extras@)),
                            ),
                            eta@,
                            EffectView::StartInvestigate,
                        );
                        final(self)@ == step.0 && r@ == step.1
                    },
                }
            }),
            r@.ack.accepted ==> {
                &&& !req@.radius_m.at_most(crate::quantity::zero())
                &&& !agl_m.value.below(old(self).agl_bounds.min_agl_m.value)
                &&& !old(self).agl_bounds.max_agl_m.value.below(agl_m.value)
                &&& old(self).queue_enabled || old(self)@.v.busy.len() == 0
            },
            !r@.ack.accepted ==> final(self)@ == old(self)@ && r@.effects.len() == 0,
            r@.ack.accepted && old(self).queue_enabled ==> {
                let idle = old(self)@.v.busy.len() == 0 && old(self)@.v.q.active is None;
                let e = if idle {
                    final(self)@.v.q.active->0
                } else {
                    final(self)@.v.q.pending.last()
                };
                &&& e.params == (TaskParamsView::Investigate { req: req@ })
                &&& e.origin == TaskOrigin::Operator <==> req@.mission_id.len() == 0
                &&& e.origin == TaskOrigin::Dispatch <==> req@.mission_id.len() > 0
            },
            r@.ack.accepted && !old(self).queue_enabled ==> r@.effects == seq![
                EffectView::StartInvestigate,
            ] && final(self)@.v.busy == "investigate"@,
            final(self).same_setup(*old(self)),
            final(self).valid(),
    {
        if let Some(ack) = self.gate(agl_m, from_home) {
            return just_ack(ack);
        }
        if req.radius_m.le(&crate::quantity::real_zero()) {
            return just_ack(
                Ack::refuse("bad-orbit", "invalid request geometry (radius_m <= 0)"),
            );
        }
        let pattern = select_investigate_pattern(&req, self.carries_audio());
        let note = if same(pattern, PATTERN_FLYOVER) {
            "acoustic flyover accepted"
        } else {
            "carrot-orbit accepted"
        };
        let origin = if req.mission_id.as_str().is_empty() {
            TaskOrigin::Operator
        } else {
            TaskOrigin::Dispatch
        };
        self.accept_task(
            TaskParams::Investigate { req },
            origin,
            now_ns,
            est,
            note,
            eta,
            Effect::StartInvestigate,
        )
    }
}

// ---------------------------------------------------------------------------
// captures
// ---------------------------------------------------------------------------

/// The busy label of a capture flown by override.
pub const SENSOR_OVERRIDE: &'static str = "sensor-override";

/// The busy label of a survey.
pub const RASTER_SEARCH: &'static str = "raster-search";

/// The busy label of an inspection.
pub const INVESTIGATE: &'static str = "investigate";

/// Bits of 1.0: an armed vehicle at least this high, in metres, is airborne.
pub const AIRBORNE_AGL_BITS: u64 = 0x3ff0_0000_0000_0000;

/// What the caller measured for a capture request.
#[derive(Debug)]
pub struct CaptureFacts {
    /// Distance of the point from home, when home is known.
    pub from_home: Option<Vec<Quantity>>,
    /// Distance of the point from the vehicle.
    pub from_vehicle: Quantity,
    pub armed: bool,
    /// Altitude above ground, when the position is known.
    pub agl_m: Option<Real>,
    /// Flight time to the point, in printed seconds.
    pub fly_eta: String,
    /// Wait of a queued capture, in printed seconds.
    pub queue_eta: String,
    /// Leg that the survey in flight last reported.
    pub search_leg: Option<u64>,
    /// Watchpoint radius in effect, in printed metres.
    pub watch_radius: String,
    /// Watchpoint expiry in effect, in printed seconds.
    pub watch_expiry: String,
}

/// How a capture request is answered: an override stays in range of home,
/// and a tasked audio capture within reach of the microphone.
pub open spec fn capture_gate(
    req: SensorRequestView,
    from_home: Option<Seq<Quantity>>,
    max_range_m: Quantity,
    from_vehicle: Quantity,
    audio_range_m: Quantity,
) -> Option<AckView> {
    let range = range_verdict(from_home, max_range_m);
    if req.mode == MODE_OVERRIDE@ && range is Err {
        Some(rejected_by(range->Err_0))
    } else if req.sensor == "audio"@ && req.mode != MODE_NOW@ && audio_range_m.value.below(
        from_vehicle.value,
    ) {
        Some(
            rejected_by(
                PolicyRejection::AudioOutOfRange { distance_m: from_vehicle, audio_range_m },
            ),
        )
    } else {
        None
    }
}

/// Something owns the vehicle that an override cannot suspend.
pub open spec fn override_blocked(a: AgentView) -> bool {
    ||| a.v.busy == INVESTIGATE@
    ||| a.v.busy == RTL@
    ||| a.v.busy == TAKEOFF@
    ||| a.v.busy == SENSOR_OVERRIDE@
    ||| a.detour
}

/// What an override resumes afterwards.
pub open spec fn resume_note(busy: Seq<char>, search_leg: Option<u64>) -> Seq<char> {
    if busy != RASTER_SEARCH@ {
        "holding here"@
    } else {
        match search_leg {
            Some(leg) => "resuming raster leg "@ + dec_text(leg as nat),
            None => "resuming raster"@,
        }
    }
}

/// The vehicle flies: armed, and high enough.
pub open spec fn airborne(armed: bool, agl_m: Option<Real>) -> bool {
    armed && agl_m is Some && (Real { bits: AIRBORNE_AGL_BITS }).at_most(agl_m->0)
}

/// The id of the `n`-th watchpoint of a boot.
pub open spec fn watch_id(n: nat) -> Seq<char> {
    "wp-"@ + dec_text(n)
}

/// What a capture request does to an agent that a gate let through, and what
/// it answers.
pub open spec fn capture_step(
    a: AgentView,
    queue_enabled: bool,
    queue_depth: nat,
    sensor_feed: bool,
    req: SensorRequestView,
    armed: bool,
    agl_m: Option<Real>,
    fly_eta: Seq<char>,
    queue_eta: Seq<char>,
    search_leg: Option<u64>,
    watch_radius: Seq<char>,
    watch_expiry: Seq<char>,
    now_ns: u64,
    est: Real,
) -> (AgentView, ReplyView) {
    let busy = a.v.busy;
    if req.mode == MODE_OVERRIDE@ && override_blocked(a) {
        if queue_enabled && busy.len() > 0 && busy != RTL@ {
            accept_step(
                a,
                true,
                queue_depth,
                TaskParamsView::SensorOverride { req },
                TaskOrigin::Operator,
                now_ns,
                est,
                "flying to point, capturing "@ + req.sensor,
                queue_eta,
                EffectView::CaptureNow,
            )
        } else {
            (
                a,
                just(
                    busy_ack(
                        if busy.len() == 0 {
                            SENSOR_OVERRIDE@
                        } else {
                            busy
                        },
                    ),
                ),
            )
        }
    } else if !sensor_feed {
        (a, just(accepted_with("accepted; capture execution stubbed (no sensor feed)"@)))
    } else if req.mode == MODE_NOW@ {
        (
            a,
            with_effect(
                accepted_with("capturing "@ + req.sensor + " here now"@),
                EffectView::CaptureNow,
            ),
        )
    } else if req.mode == MODE_OVERRIDE@ {
        if !airborne(armed, agl_m) {
            (
                a,
                just(
                    refused_with(
                        "not-airborne"@,
                        "override capture needs an airborne vehicle"@,
                    ),
                ),
            )
        } else {
            (
                AgentView {
                    v: if busy.len() == 0 {
                        occupied(a.v, SENSOR_OVERRIDE@)
                    } else {
                        a.v
                    },
                    detour: true,
                    ..a
                },
                with_effect(
                    accepted_with(
                        "flying to point (~"@ + fly_eta + " s), capturing "@ + req.sensor + ", "@
                            + resume_note(busy, search_leg) + " after"@,
                    ),
                    EffectView::FlyOverride {
                        resume_task: if busy.len() == 0 {
                            SENSOR_OVERRIDE@
                        } else {
                            busy
                        },
                    },
                ),
            )
        }
    } else if req.mode == MODE_OPPORTUNISTIC@ {
        let id = watch_id(a.watchpoint_seq + 1);
        (
            AgentView {
                watchpoints: a.watchpoints.push(WatchpointView { id, sensor: req.sensor }),
                watchpoint_seq: a.watchpoint_seq + 1,
                ..a
            },
            with_effect(
                accepted_with(
                    "watchpoint "@ + id + " armed: "@ + req.sensor + " fires within "@
                        + watch_radius + " m, expires in "@ + watch_expiry + " s"@,
                ),
                EffectView::ArmWatchpoint { id },
            ),
        )
    } else {
        (
            a,
            just(
                refused_with(
                    "bad-mode"@,
                    "unknown capture mode '"@ + req.mode + "' (now|override|opportunistic)"@,
                ),
            ),
        )
    }
}

impl AgentShared {
    fn gate_capture(&self, req: &SensorRequest, facts: &CaptureFacts) -> (r: Option<Ack>)
        ensures
            ({
                let verdict = capture_gate(
                    req@,
                    distances(facts.from_home),
                    self.max_range_m,
                    facts.from_vehicle,
                    self.audio_range_m,
                );
                match r {
                    Some(ack) => verdict == Some(ack@),
                    None => verdict is None,
                }
            }),
    {
        if same(req.mode.as_str(), MODE_OVERRIDE) {
            if let Err(rejection) = range_guard(&facts.from_home, &self.max_range_m) {
                return Some(Ack::reject(&rejection));
            }
        }
        if same(req.sensor.as_str(), "audio") && !same(req.mode.as_str(), MODE_NOW) {
            if let Err(rejection) = audio_range_guard(&facts.from_vehicle, &self.audio_range_m) {
                return Some(Ack::reject(&rejection));
            }
        }
        None
    }

    /// What an override resumes afterwards, for its note.
    fn override_resume_note(&self, search_leg: Option<u64>) -> (r: String)
        ensures
            r@ == resume_note(self@.v.busy, search_leg),
    {
        if !same(self.vehicle.busy.as_str(), RASTER_SEARCH) {
            return "holding here".to_owned();
        }
        match search_leg {
            Some(leg) => cat("resuming raster leg ", dec(leg).as_str()),
            None => "resuming raster".to_owned(),
        }
    }

    /// One tasked capture. Mode `now` captures here, `override` flies to the
    /// point and resumes, `opportunistic` arms a watchpoint. An override that
    /// finds the vehicle taken queues behind its owner, except behind a
    /// return to launch.
    pub fn sensor_capture(
        &mut self,
        req: SensorRequest,
        facts: &CaptureFacts,
        now_ns: u64,
        est: Real,
    ) -> (r: Reply)
        requires
            old(self).valid(),
            old(self)@.v.q.seq < u64::MAX,
            old(self)@.watchpoint_seq < u64::MAX,
        ensures
            ({
                let gate = capture_gate(
                    req@,
                    distances(facts.from_home),
                    old(self).max_range_m,
                    facts.from_vehicle,
                    old(self).audio_range_m,
                );
                match gate {
                    Some(ack) => r@ == just(ack) && final(self)@ == old(self)@,
                    None => {
                        let step = capture_step(
                            old(self)@,
                            old(self).queue_enabled,
                            old(self).queue_depth as nat,
                            old(self).sensor_feed,
                            req@,
                            facts.armed,
                            facts.agl_m,
                            facts.fly_eta@,
                            facts.queue_eta@,
                            facts.search_leg,
                            facts.watch_radius@,
                            facts.watch_expiry@,
                            now_ns,
                            est,
                        );
                        final(self)@ == step.0 && r@ == step.1
                    },
                }
            }),
            final(self).same_setup(*old(self)),
            final(self).valid(),
    {
        if let Some(ack) = self.gate_capture(&req, facts) {
            return just_ack(ack);
        }
        let mode_override = same(req.mode.as_str(), MODE_OVERRIDE);
        let idle = self.vehicle.busy.as_str().is_empty();
        let blocked = same(self.vehicle.busy.as_str(), INVESTIGATE) || same(
            self.vehicle.busy.as_str(),
            RTL,
        ) || same(self.vehicle.busy.as_str(), TAKEOFF) || same(
            self.vehicle.busy.as_str(),
            SENSOR_OVERRIDE,
        ) || self.detour;
        if mode_override && blocked {
            if self.queue_enabled && !idle && !same(self.vehicle.busy.as_str(), RTL) {
                let started = cat("flying to point, capturing ", req.sensor.as_str());
                return self.accept_task(
                    TaskParams::SensorOverride { req },
                    TaskOrigin::Operator,
                    now_ns,
                    est,
                    started.as_str(),
                    facts.queue_eta.as_str(),
                    Effect::CaptureNow,
                );
            }
            let ack = if idle {
                refuse_busy(SENSOR_OVERRIDE)
            } else {
                refuse_busy(self.vehicle.busy.as_str())
            };
            return just_ack(ack);
        }
        if !self.sensor_feed {
            return just_ack(
                Ack::ok_detail("accepted; capture execution stubbed (no sensor feed)"),
            );
        }
        if same(req.mode.as_str(), MODE_NOW) {
            let mut note = cat("capturing ", req.sensor.as_str());
            note.append(" here now");
            return ack_with(Ack::ok_detail(note.as_str()), Effect::CaptureNow);
        }
        if mode_override {
            let flying = facts.armed && match facts.agl_m {
                Some(agl) => (Real { bits: AIRBORNE_AGL_BITS }).le(&agl),
                None => false,
            };
            if !flying {
                return just_ack(
                    Ack::refuse("not-airborne", "override capture needs an airborne vehicle"),
                );
            }
            let mut note = cat("flying to point (~", facts.fly_eta.as_str());
            note.append(" s), capturing ");
            note.append(req.sensor.as_str());
            note.append(", ");
            note.append(self.override_resume_note(facts.search_leg).as_str());
            note.append(" after");
            let resume_task: String = if idle {
                self.occupy(SENSOR_OVERRIDE);
                SENSOR_OVERRIDE.to_owned()
            } else {
                self.vehicle.busy.clone()
            };
            self.detour = true;
            return ack_with(
                Ack::ok_detail(note.as_str()),
                Effect::FlyOverride { resume_task },
            );
        }
        if same(req.mode.as_str(), MODE_OPPORTUNISTIC) {
            self.watchpoint_seq = self.watchpoint_seq + 1;
            let id = cat("wp-", dec(self.watchpoint_seq).as_str());
            let ghost before = self.watchpoints@;
            let armed = Watchpoint { id: id.clone(), sensor: req.sensor.clone() };
            self.watchpoints.push(armed);
            assert(watch_views(self.watchpoints@) =~= watch_views(before).push(armed@));
            let mut note = cat("watchpoint ", id.as_str());
            note.append(" armed: ");
            note.append(req.sensor.as_str());
            note.append(" fires within ");
            note.append(facts.watch_radius.as_str());
            note.append(" m, expires in ");
            note.append(facts.watch_expiry.as_str());
            note.append(" s");
            return ack_with(Ack::ok_detail(note.as_str()), Effect::ArmWatchpoint { id });
        }
        let mut why = cat("unknown capture mode '", req.mode.as_str());
        why.append("' (now|override|opportunistic)");
        just_ack(Ack::refuse("bad-mode", why.as_str()))
    }

    /// The live-video knob: with a sensor feed fitted a session starts (a
    /// running one restarts with the new parameters) or stops.
    pub fn video_control(&self, req: &VideoRequest) -> (r: Reply)
        ensures
            r@ == (if !self.sensor_feed {
                just(accepted_with("accepted; video pipeline stubbed (no sensor feed)"@))
            } else if req.enabled {
                with_effect(
                    accepted_with("video started (sensor feed)"@),
                    EffectView::StartVideo { fps: req.fps },
                )
            } else {
                with_effect(accepted_with("video stopped"@), EffectView::StopVideo)
            }),
    {
        if !self.sensor_feed {
            return just_ack(Ack::ok_detail("accepted; video pipeline stubbed (no sensor feed)"));
        }
        if req.enabled {
            ack_with(
                Ack::ok_detail("video started (sensor feed)"),
                Effect::StartVideo { fps: req.fps },
            )
        } else {
            ack_with(Ack::ok_detail("video stopped"), Effect::StopVideo)
        }
    }
}

// ---------------------------------------------------------------------------
// aborts
// ---------------------------------------------------------------------------

/// What a scoped cancel of the active task does: the label must be the busy
/// label exactly.
pub open spec fn abort_active_step(a: AgentView, label: Seq<char>) -> (AgentView, ReplyView) {
    let busy = a.v.busy;
    if label.len() == 0 || busy != label {
        (
            a,
            just(
                refused_with(
                    "no-such-task"@,
                    if busy.len() == 0 {
                        "no active task '"@ + label + "' (vehicle idle)"@
                    } else {
                        "active task is '"@ + busy + "', not '"@ + label + "'"@
                    },
                ),
            ),
        )
    } else {
        let pending = a.v.q.pending.len();
        let journal = EffectView::JournalAborted { label };
        (
            AgentView {
                v: VehicleView {
                    busy: Seq::empty(),
                    abort: true,
                    operator_abort: true,
                    ..a.v
                },
                ..a
            },
            ReplyView {
                ack: accepted_with(
                    if pending > 0 {
                        "task '"@ + label + "' aborted; next queued task takes over ("@
                            + dec_text(pending) + " pending)"@
                    } else {
                        "task '"@ + label
                            + "' aborted; vehicle idle (idle policy takes over, no RTL)"@
                    },
                ),
                effects: if label == RTL@ {
                    seq![EffectView::Send(AgentCommand::AbortRtl), journal]
                } else {
                    seq![journal]
                },
                events: Seq::empty(),
            },
        )
    }
}

/// The label prefix that names a watchpoint.
pub const WATCHPOINT_PREFIX: &'static str = "watchpoint:";

/// The id prefix of queue entries.
pub const TASK_PREFIX: &'static str = "tsk-";

/// What a scoped cancel does: `watchpoint:<id>` disarms a watchpoint without
/// touching the vehicle's task, a queue id removes a waiting entry or cancels
/// the active one, anything else is a label of the active task.
pub open spec fn abort_step(a: AgentView, label: Seq<char>) -> (AgentView, ReplyView) {
    if WATCHPOINT_PREFIX@.is_prefix_of(label) {
        let id = label.skip(WATCHPOINT_PREFIX@.len() as int);
        if watch_ids(a.watchpoints).contains(id) {
            (
                a,
                ReplyView {
                    ack: accepted_with("watchpoint "@ + id + " cancelled"@),
                    effects: seq![
                        EffectView::CancelWatchpoint { id },
                        EffectView::JournalAborted { label },
                    ],
                    events: Seq::empty(),
                },
            )
        } else {
            (
                a,
                just(refused_with("no-such-task"@, "no armed watchpoint '"@ + id + "'"@)),
            )
        }
    } else if TASK_PREFIX@.is_prefix_of(label) {
        let (q, found, journal) = abort_by_id_step(a.v.q, label);
        match found {
            ById::Pending => (
                AgentView { v: VehicleView { q, ..a.v }, ..a },
                ReplyView {
                    ack: accepted_with(
                        "pending task "@ + label + " removed from the queue"@,
                    ),
                    effects: Seq::empty(),
                    events: journal,
                },
            ),
            ById::Active(kind) => abort_active_step(a, kind.text()),
            ById::Unknown => (
                a,
                just(refused_with("no-such-task"@, "no queue task '"@ + label + "'"@)),
            ),
        }
    } else {
        abort_active_step(a, label)
    }
}

impl AgentShared {
    /// Scoped cancel of the active task. A label that is not the busy label
    /// is refused: the task the operator looks at already ended. Both abort
    /// flags rise together with the release, so whoever observes the release
    /// also sees that the operator asked for it.
    pub fn abort_active_task(&mut self, label: &str) -> (r: Reply)
        requires
            old(self).valid(),
        ensures
            final(self)@ == abort_active_step(old(self)@, label@).0,
            r@ == abort_active_step(old(self)@, label@).1,
            final(self).same_setup(*old(self)),
            final(self).valid(),
    {
        if label.is_empty() || !same(self.vehicle.busy.as_str(), label) {
            let why: String = if self.vehicle.busy.as_str().is_empty() {
                let mut s = cat("no active task '", label);
                s.append("' (vehicle idle)");
                s
            } else {
                let mut s = cat("active task is '", self.vehicle.busy.as_str());
                s.append("', not '");
                s.append(label);
                s.append("'");
                s
            };
            return just_ack(Ack::refuse("no-such-task", why.as_str()));
        }
        self.vehicle.operator_abort = true;
        self.vehicle.abort = true;
        self.vehicle.busy = String::new();
        let mut todo: Vec<Effect> = Vec::new();
        let rtl = same(label, RTL);
        if rtl {
            todo.push(Effect::Send(AgentCommand::AbortRtl));
        }
        let journal = Effect::JournalAborted { label: label.to_owned() };
        todo.push(journal);
        proof {
            if rtl {
                assert(effects(todo@) =~= seq![
                    EffectView::Send(AgentCommand::AbortRtl),
                    journal@,
                ]);
            } else {
                assert(effects(todo@) =~= seq![journal@]);
            }
        }
        let pending: usize = self.vehicle.tasks.pending_len();
        let mut note = cat("task '", label);
        if pending > 0 {
            note.append("' aborted; next queued task takes over (");
            note.append(dec(pending as u64).as_str());
            note.append(" pending)");
        } else {
            note.append("' aborted; vehicle idle (idle policy takes over, no RTL)");
        }
        let out: Vec<QueueEvent> = Vec::new();
        assert(events(out@) =~= Seq::empty());
        Reply { ack: Ack::ok_detail(note.as_str()), effects: todo, events: out }
    }

    /// Whether a watchpoint with the id is armed.
    fn is_armed(&self, id: &str) -> (r: bool)
        ensures
            r == watch_ids(self@.watchpoints).contains(id@),
    {
        let mut i: usize = 0;
        while i < self.watchpoints.len()
            invariant
                i <= self.watchpoints@.len(),
                forall|j: int|
                    0 <= j < i ==> (#[trigger] watch_ids(self@.watchpoints)[j]) != id@,
            decreases self.watchpoints@.len() - i,
        {
            assert(watch_ids(self@.watchpoints)[i as int] == self.watchpoints@[i as int].id@);
            if same(self.watchpoints[i].id.as_str(), id) {
                return true;
            }
            i = i + 1;
        }
        false
    }

    /// Cancel by label: a watchpoint, a queue entry or the active task.
    pub fn task_abort(&mut self, label: &str) -> (r: Reply)
        requires
            old(self).valid(),
        ensures
            final(self)@ == abort_step(old(self)@, label@).0,
            r@ == abort_step(old(self)@, label@).1,
            final(self).same_setup(*old(self)),
            final(self).valid(),
    {
        if let Some(id) = strip_prefix(label, WATCHPOINT_PREFIX) {
            assert(id@ =~= label@.skip(WATCHPOINT_PREFIX@.len() as int));
            if self.is_armed(id) {
                let mut todo: Vec<Effect> = Vec::new();
                let cancel = Effect::CancelWatchpoint { id: id.to_owned() };
                let journal = Effect::JournalAborted { label: label.to_owned() };
                todo.push(cancel);
                todo.push(journal);
                assert(effects(todo@) =~= seq![cancel@, journal@]);
                let mut note = cat("watchpoint ", id);
                note.append(" cancelled");
                let out: Vec<QueueEvent> = Vec::new();
                assert(events(out@) =~= Seq::empty());
                return Reply { ack: Ack::ok_detail(note.as_str()), effects: todo, events: out };
            }
            let mut why = cat("no armed watchpoint '", id);
            why.append("'");
            return just_ack(Ack::refuse("no-such-task", why.as_str()));
        }
        if starts_with(label, TASK_PREFIX) {
            proof {
                abort_by_id_keeps_queue_valid(self@.v.q, label@);
            }
            let (found, out) = self.vehicle.tasks.abort_by_id(label);
            return match found {
                ById::Pending => {
                    let mut note = cat("pending task ", label);
                    note.append(" removed from the queue");
                    let todo: Vec<Effect> = Vec::new();
                    assert(effects(todo@) =~= Seq::<EffectView>::empty());
                    Reply { ack: Ack::ok_detail(note.as_str()), effects: todo, events: out }
                },
                ById::Active(kind) => self.abort_active_task(kind.as_str()),
                ById::Unknown => {
                    let mut why = cat("no queue task '", label);
                    why.append("'");
                    just_ack(Ack::refuse("no-such-task", why.as_str()))
                },
            };
        }
        self.abort_active_task(label)
    }

    /// Apply a complete new order of the queue.
    pub fn queue_reorder(&mut self, req: &QueueReorderRequest) -> (r: Reply)
        requires
            old(self).valid(),
        ensures
            ({
                let order = views(req.ordered_task_ids@);
                let q = old(self)@.v.q;
                let current = ids(q.run_order());
                if !old(self).queue_enabled {
                    &&& r@ == just(
                        refused_with(
                            "queue-disabled"@,
                            "task queue engine is disabled (--no-queue)"@,
                        ),
                    )
                    &&& final(self)@ == old(self)@
                } else if current.len() == 0 {
                    &&& r@ == just(refused_with("bad-reorder"@, "queue is empty"@))
                    &&& final(self)@ == old(self)@
                } else if order.to_multiset() != current.to_multiset() {
                    &&& r@ == just(
                        refused_with(
                            "bad-reorder"@,
                            "ordered_task_ids must be a permutation of the current queue ["@
                                + crate::queue_model::id_list_text(current) + "]"@,
                        ),
                    )
                    &&& final(self)@ == old(self)@
                } else {
                    let split = displaces(q, order);
                    &&& reordered(q, order, final(self)@.v.q)
                    &&& final(self)@ == (AgentView {
                        v: VehicleView {
                            q: final(self)@.v.q,
                            abort: old(self)@.v.abort || split,
                            ..old(self)@.v
                        },
                        ..old(self)@
                    })
                    &&& r@.ack == accepted_with(
                        if split {
                            "queue reordered; active task splits — its remainder resumes at the new position"@
                        } else {
                            "queue reordered"@
                        },
                    )
                    &&& r@.effects == Seq::<EffectView>::empty()
                    &&& r@.events == seq![QueueEventView::QueueReordered { order, split }]
                }
            }),
            r@.ack.accepted <==> old(self).queue_enabled && old(self)@.v.q.run_order().len() > 0
                && views(req.ordered_task_ids@).to_multiset() == ids(
                old(self)@.v.q.run_order(),
            ).to_multiset(),
            !r@.ack.accepted ==> final(self)@ == old(self)@ && r@.events.len() == 0,
            final(self)@.v.q.active == old(self)@.v.q.active && final(self)@.v.busy == old(self)@.v.busy,
            final(self).same_setup(*old(self)),
            final(self).valid(),
    {
        if !self.queue_enabled {
            return just_ack(
                Ack::refuse("queue-disabled", "task queue engine is disabled (--no-queue)"),
            );
        }
        match self.vehicle.reorder(&req.ordered_task_ids) {
            Ok((split, out)) => {
                proof {
                    reorder_keeps_queue_valid(
                        old(self)@.v.q,
                        views(req.ordered_task_ids@),
                        self@.v.q,
                    );
                }
                let todo: Vec<Effect> = Vec::new();
                assert(effects(todo@) =~= Seq::<EffectView>::empty());
                let ack = if split {
                    Ack::ok_detail(
                        "queue reordered; active task splits — its remainder resumes at the new position",
                    )
                } else {
                    Ack::ok_detail("queue reordered")
                };
                Reply { ack, effects: todo, events: out }
            },
            Err(e) => just_ack(Ack::refuse("bad-reorder", e.detail().as_str())),
        }
    }

    /// Ask an engaged remote-control session to release.
    pub fn rc_disengage(&mut self) -> (r: Reply)
        requires
            old(self).valid(),
        ensures
            r@ == just(
                if old(self).rc_engaged {
                    accepted_with("rc disengage requested; override releasing"@)
                } else {
                    refused_with("rc-not-engaged"@, "no rc-over-ndn session is engaged"@)
                },
            ),
            final(self)@ == (AgentView {
                rc_disengage: old(self).rc_disengage || old(self).rc_engaged,
                ..old(self)@
            }),
            r@.ack.accepted <==> old(self).rc_engaged,
            r@.effects.len() == 0 && r@.events.len() == 0,
            final(self).same_setup(*old(self)),
            final(self).valid(),
    {
        if self.rc_engaged {
            self.rc_disengage = true;
            just_ack(Ack::ok_detail("rc disengage requested; override releasing"))
        } else {
            just_ack(Ack::refuse("rc-not-engaged", "no rc-over-ndn session is engaged"))
        }
    }

    /// Shut the system down. Authorized twice: on what was read at the
    /// acknowledgement and on what is read at the commit. The journal is
    /// synced before the shutdown is sent.
    pub fn system_shutdown(
        &self,
        confirm: &str,
        armed_at_ack: bool,
        busy_at_ack: &str,
        armed: bool,
    ) -> (r: Reply)
        ensures
            ({
                let id = self.vehicle_id@;
                let first = shutdown_code(confirm@, id, armed_at_ack, busy_at_ack@);
                let second = shutdown_code(confirm@, id, armed, self@.v.busy);
                match (first, second) {
                    (None, None) => {
                        &&& r@.ack == accepted_with(
                            "shutdown accepted: journal synced; agent process exiting (no poweroff in v3 dev build)"@,
                        )
                        &&& r@.effects == seq![
                            EffectView::JournalShutdown,
                            EffectView::SyncJournal,
                            EffectView::Send(AgentCommand::Shutdown),
                        ]
                        &&& r@.events == Seq::<QueueEventView>::empty()
                    },
                    (Some(code), _) => r@ == just(
                        refused_with(code, shutdown_reason(code, busy_at_ack@)),
                    ),
                    (None, Some(code)) => r@ == just(
                        refused_with(code, shutdown_reason(code, self@.v.busy)),
                    ),
                }
            }),
            r@.ack.accepted <==> confirm@ == self.vehicle_id@ && !armed_at_ack && !armed
                && busy_at_ack@.len() == 0 && self@.v.busy.len() == 0,
            r@.effects.contains(EffectView::Send(AgentCommand::Shutdown)) <==> r@.ack.accepted,
    {
        proof {
            lemma_shutdown_codes();
        }
        if let Err(rejection) = shutdown_guard(
            confirm,
            self.vehicle_id.as_str(),
            armed_at_ack,
            busy_at_ack,
        ) {
            return just_ack(Ack::reject(&rejection));
        }
        if let Err(rejection) = shutdown_guard(
            confirm,
            self.vehicle_id.as_str(),
            armed,
            self.vehicle.busy.as_str(),
        ) {
            return just_ack(Ack::reject(&rejection));
        }
        let mut todo: Vec<Effect> = Vec::new();
        todo.push(Effect::JournalShutdown);
        todo.push(Effect::SyncJournal);
        todo.push(Effect::Send(AgentCommand::Shutdown));
        assert(effects(todo@) =~= seq![
            EffectView::JournalShutdown,
            EffectView::SyncJournal,
            EffectView::Send(AgentCommand::Shutdown),
        ]);
        let out: Vec<QueueEvent> = Vec::new();
        assert(events(out@) =~= Seq::empty());
        Reply {
            ack: Ack::ok_detail(
                "shutdown accepted: journal synced; agent process exiting (no poweroff in v3 dev build)",
            ),
            effects: todo,
            events: out,
        }
    }
}

/// The reason of a refused shutdown.
pub open spec fn shutdown_reason(code: Seq<char>, busy: Seq<char>) -> Seq<char> {
    if code == "shutdown-confirm-mismatch"@ {
        "shutdown confirm phrase does not match the vehicle id"@
    } else if code == "shutdown-while-armed"@ {
        "shutdown refused: vehicle is armed"@
    } else {
        "shutdown refused: vehicle busy with task '"@ + busy + "'"@
    }
}

proof fn lemma_shutdown_codes()
    ensures
        "shutdown-confirm-mismatch"@ != "shutdown-while-armed"@,
        "shutdown-confirm-mismatch"@ != "shutdown-while-busy"@,
        "shutdown-while-armed"@ != "shutdown-while-busy"@,
{
    reveal_strlit("shutdown-confirm-mismatch");
    reveal_strlit("shutdown-while-armed");
    reveal_strlit("shutdown-while-busy");
    assert("shutdown-confirm-mismatch"@.len() == 25);
    assert("shutdown-while-armed"@.len() == 20);
    assert("shutdown-while-busy"@.len() == 19);
}

} // verus!
