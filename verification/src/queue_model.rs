//! The task queue as a state machine over mathematical values: what every
//! operation of the queue does to a vehicle, what it answers and what it
//! journals.

use vstd::prelude::*;

use crate::mission::FlightOutcome;
use crate::quantity::Real;
use crate::services::{
    InvestigateRequest, InvestigateRequestView, RasterRequest, RasterRequestView, SensorRequest,
    SensorRequestView,
};
use crate::tasks::{TaskKind, TaskOrigin, TaskProgress, TaskProgressView, TaskState};
use crate::text::{dec_text, views};

verus! {

/// Pending-depth limit of a vehicle that none was configured for.
pub const DEFAULT_QUEUE_DEPTH: usize = 4;

/// How many finished entries stay visible.
pub const FINISHED_TAIL: usize = 8;

/// The busy label of an engaged remote-control session.
pub const RC_MANUAL: &'static str = "rc-manual";

/// The busy label of a return to launch.
pub const RTL: &'static str = "rtl";

/// Bits of 0.02: an inspection with no more turns left than this is finished.
pub const TURNS_FINISHED_BITS: u64 = 0x3f94_7ae1_47ae_147b;

// ---------------------------------------------------------------------------
// task parameters and resume snapshots
// ---------------------------------------------------------------------------

/// What a queue entry runs. A survey carries its remainder coordinates, so a
/// split continuation is just another survey entry.
#[allow(inconsistent_fields)]
#[derive(Debug)]
pub enum TaskParams {
    Raster {
        req: RasterRequest,
        /// First plan leg still to fly (0 = the whole survey).
        start_leg: usize,
        /// Capture points already fired on `start_leg`.
        skip_captures: usize,
    },
    Investigate { req: InvestigateRequest },
    SensorOverride { req: SensorRequest },
}

/// Task parameters by their values.
#[allow(inconsistent_fields)]
#[verifier::ext_equal]
pub enum TaskParamsView {
    Raster { req: RasterRequestView, start_leg: nat, skip_captures: nat },
    Investigate { req: InvestigateRequestView },
    SensorOverride { req: SensorRequestView },
}

impl TaskParamsView {
    /// Kind of the task.
    pub open spec fn kind(self) -> TaskKind {
        match self {
            TaskParamsView::Raster { .. } => TaskKind::RasterSearch,
            TaskParamsView::Investigate { .. } => TaskKind::Investigate,
            TaskParamsView::SensorOverride { .. } => TaskKind::SensorOverride,
        }
    }
}

impl View for TaskParams {
    type V = TaskParamsView;

    open spec fn view(&self) -> TaskParamsView {
        match self {
            TaskParams::Raster { req, start_leg, skip_captures } => TaskParamsView::Raster {
                req: req@,
                start_leg: *start_leg as nat,
                skip_captures: *skip_captures as nat,
            },
            TaskParams::Investigate { req } => TaskParamsView::Investigate { req: req@ },
            TaskParams::SensorOverride { req } => TaskParamsView::SensorOverride { req: req@ },
        }
    }
}

impl Clone for TaskParams {
    fn clone(&self) -> (r: Self)
        ensures
            r@ == self@,
    {
        match self {
            TaskParams::Raster { req, start_leg, skip_captures } => TaskParams::Raster {
                req: req.clone(),
                start_leg: *start_leg,
                skip_captures: *skip_captures,
            },
            TaskParams::Investigate { req } => TaskParams::Investigate { req: req.clone() },
            TaskParams::SensorOverride { req } => TaskParams::SensorOverride { req: req.clone() },
        }
    }
}

impl TaskParams {
    /// Kind of the task.
    pub fn kind(&self) -> (r: TaskKind)
        ensures
            r == self@.kind(),
    {
        match self {
            TaskParams::Raster { .. } => TaskKind::RasterSearch,
            TaskParams::Investigate { .. } => TaskKind::Investigate,
            TaskParams::SensorOverride { .. } => TaskKind::SensorOverride,
        }
    }
}

/// What remains of the active task, written by its runner at the interruption
/// point and refreshed with every progress report.
#[derive(Clone, Copy, Debug, PartialEq, Eq, Structural)]
pub enum ResumeSnapshot {
    /// First leg still to fly (index into the current plan) and captures
    /// already fired on it.
    Raster { leg: usize, fired_in_leg: usize },
    /// Turns (orbit) or passes (flyover) still to fly.
    Investigate { remaining_turns: Real },
}

// ---------------------------------------------------------------------------
// queue entries and queue state
// ---------------------------------------------------------------------------

/// One queue entry.
#[derive(Debug)]
pub struct TaskEntry {
    pub task_id: String,
    pub kind: TaskKind,
    pub params: TaskParams,
    pub state: TaskState,
    pub origin: TaskOrigin,
    pub parent: Option<String>,
    pub enqueued_ns: u64,
    pub started_ns: Option<u64>,
    pub progress: Option<TaskProgress>,
    pub resume: Option<ResumeSnapshot>,
    pub est_duration_s: Real,
}

/// A queue entry by its values.
#[verifier::ext_equal]
pub struct TaskEntryView {
    pub task_id: Seq<char>,
    pub kind: TaskKind,
    pub params: TaskParamsView,
    pub state: TaskState,
    pub origin: TaskOrigin,
    pub parent: Option<Seq<char>>,
    pub enqueued_ns: u64,
    pub started_ns: Option<u64>,
    pub progress: Option<TaskProgressView>,
    pub resume: Option<ResumeSnapshot>,
    pub est_duration_s: Real,
}

impl View for TaskEntry {
    type V = TaskEntryView;

    open spec fn view(&self) -> TaskEntryView {
        TaskEntryView {
            task_id: self.task_id@,
            kind: self.kind,
            params: self.params@,
            state: self.state,
            origin: self.origin,
            parent: match self.parent {
                Some(p) => Some(p@),
                None => None,
            },
            enqueued_ns: self.enqueued_ns,
            started_ns: self.started_ns,
            progress: match self.progress {
                Some(p) => Some(p@),
                None => None,
            },
            resume: self.resume,
            est_duration_s: self.est_duration_s,
        }
    }
}

/// The views of a list of entries.
pub open spec fn entries(v: Seq<TaskEntry>) -> Seq<TaskEntryView> {
    v.map_values(|e: TaskEntry| e@)
}

/// The ids of a list of entries.
pub open spec fn ids(v: Seq<TaskEntryView>) -> Seq<Seq<char>> {
    v.map_values(|e: TaskEntryView| e.task_id)
}

/// The id of the `n`-th task of a boot.
pub open spec fn id_text(n: nat) -> Seq<char> {
    "tsk-"@ + dec_text(n)
}

/// The entry with another state.
pub open spec fn with_state(e: TaskEntryView, state: TaskState) -> TaskEntryView {
    TaskEntryView { state, ..e }
}

/// The entry as it starts flying.
pub open spec fn starting(e: TaskEntryView, now_ns: u64) -> TaskEntryView {
    TaskEntryView { state: TaskState::Active, started_ns: Some(now_ns), ..e }
}

/// The last `n` items.
pub open spec fn last_of<A>(s: Seq<A>, n: nat) -> Seq<A> {
    if s.len() > n {
        s.skip(s.len() - n)
    } else {
        s
    }
}

/// A queue by its values.
#[verifier::ext_equal]
pub struct QueueView {
    /// Number of ids given out.
    pub seq: nat,
    /// The task that flies.
    pub active: Option<TaskEntryView>,
    /// Tasks that wait, in run order.
    pub pending: Seq<TaskEntryView>,
    /// Recent terminal entries, oldest first.
    pub finished: Seq<TaskEntryView>,
    /// A driver loop is running the active task.
    pub driver_running: bool,
    /// Where the continuation of a displaced task lands.
    pub preempt_insert_at: Option<nat>,
}

impl QueueView {
    /// Tasks in run order: the active one first.
    pub open spec fn run_order(self) -> Seq<TaskEntryView> {
        match self.active {
            Some(e) => seq![e] + self.pending,
            None => self.pending,
        }
    }
}

/// Who cancelled a task.
#[derive(Clone, Copy, Debug, PartialEq, Eq, Structural)]
pub enum AbortedBy {
    Operator,
    Ladder,
    RcFailsafe,
}

impl AbortedBy {
    /// The journaled word.
    pub open spec fn text(self) -> Seq<char> {
        match self {
            AbortedBy::Operator => "operator"@,
            AbortedBy::Ladder => "ladder"@,
            AbortedBy::RcFailsafe => "rc-failsafe"@,
        }
    }

    /// The journaled word.
    pub fn as_str(&self) -> (r: &'static str)
        ensures
            r@ == self.text(),
    {
        match self {
            AbortedBy::Operator => "operator",
            AbortedBy::Ladder => "ladder",
            AbortedBy::RcFailsafe => "rc-failsafe",
        }
    }
}

/// What the queue journals.
#[derive(Debug)]
pub enum QueueEvent {
    TaskRefused { kind: TaskKind, depth: usize },
    TaskQueued { task_id: String, kind: TaskKind, origin: TaskOrigin, position: usize },
    TaskStarted { task_id: String, kind: TaskKind },
    TaskAborted { task_id: String, kind: TaskKind, by: AbortedBy },
    TaskCompleted { task_id: String, kind: TaskKind, outcome: FlightOutcome, split: bool },
    TaskSplit { task_id: String, continuation: String, insert_at: usize },
    QueueReordered { order: Vec<String>, split: bool },
}

/// A journaled event by its values.
#[verifier::ext_equal]
pub enum QueueEventView {
    TaskRefused { kind: TaskKind, depth: nat },
    TaskQueued { task_id: Seq<char>, kind: TaskKind, origin: TaskOrigin, position: nat },
    TaskStarted { task_id: Seq<char>, kind: TaskKind },
    TaskAborted { task_id: Seq<char>, kind: TaskKind, by: AbortedBy },
    TaskCompleted { task_id: Seq<char>, kind: TaskKind, outcome: FlightOutcome, split: bool },
    TaskSplit { task_id: Seq<char>, continuation: Seq<char>, insert_at: nat },
    QueueReordered { order: Seq<Seq<char>>, split: bool },
}

impl View for QueueEvent {
    type V = QueueEventView;

    open spec fn view(&self) -> QueueEventView {
        match self {
            QueueEvent::TaskRefused { kind, depth } => QueueEventView::TaskRefused {
                kind: *kind,
                depth: *depth as nat,
            },
            QueueEvent::TaskQueued { task_id, kind, origin, position } =>
                QueueEventView::TaskQueued {
                task_id: task_id@,
                kind: *kind,
                origin: *origin,
                position: *position as nat,
            },
            QueueEvent::TaskStarted { task_id, kind } => QueueEventView::TaskStarted {
                task_id: task_id@,
                kind: *kind,
            },
            QueueEvent::TaskAborted { task_id, kind, by } => QueueEventView::TaskAborted {
                task_id: task_id@,
                kind: *kind,
                by: *by,
            },
            QueueEvent::TaskCompleted { task_id, kind, outcome, split } =>
                QueueEventView::TaskCompleted {
                task_id: task_id@,
                kind: *kind,
                outcome: *outcome,
                split: *split,
            },
            QueueEvent::TaskSplit { task_id, continuation, insert_at } =>
                QueueEventView::TaskSplit {
                task_id: task_id@,
                continuation: continuation@,
                insert_at: *insert_at as nat,
            },
            QueueEvent::QueueReordered { order, split } => QueueEventView::QueueReordered {
                order: views(order@),
                split: *split,
            },
        }
    }
}

/// The views of a list of events.
pub open spec fn events(v: Seq<QueueEvent>) -> Seq<QueueEventView> {
    v.map_values(|e: QueueEvent| e@)
}

impl QueueEvent {
    /// The journal kind of the event.
    pub fn journal_kind(&self) -> (r: &'static str)
        ensures
            r@ == (match self {
                QueueEvent::TaskRefused { .. } => "task.refused"@,
                QueueEvent::TaskQueued { .. } => "task.queued"@,
                QueueEvent::TaskStarted { .. } => "task.started"@,
                QueueEvent::TaskAborted { .. } => "task.aborted"@,
                QueueEvent::TaskCompleted { .. } => "task.completed"@,
                QueueEvent::TaskSplit { .. } => "task.split"@,
                QueueEvent::QueueReordered { .. } => "queue.reordered"@,
            }),
    {
        match self {
            QueueEvent::TaskRefused { .. } => "task.refused",
            QueueEvent::TaskQueued { .. } => "task.queued",
            QueueEvent::TaskStarted { .. } => "task.started",
            QueueEvent::TaskAborted { .. } => "task.aborted",
            QueueEvent::TaskCompleted { .. } => "task.completed",
            QueueEvent::TaskSplit { .. } => "task.split",
            QueueEvent::QueueReordered { .. } => "queue.reordered",
        }
    }
}

/// A vehicle by its values.
#[verifier::ext_equal]
pub struct VehicleView {
    pub q: QueueView,
    pub busy: Seq<char>,
    pub abort: bool,
    pub operator_abort: bool,
}

// ---------------------------------------------------------------------------
// submission
// ---------------------------------------------------------------------------

/// Outcome of a submission.
#[derive(Debug)]
pub enum Submit {
    /// The vehicle was idle: the task is active (busy label set);
    /// `spawn_driver` asks for a driver loop.
    Started { task_id: String, spawn_driver: bool },
    /// Accepted behind `ahead` tasks, the active one included.
    Queued { task_id: String, ahead: usize },
    /// The pending-depth limit is reached.
    Full { depth: usize },
    /// The vehicle flies the ladder: nothing queues behind a return to launch.
    RtlOwned,
    /// The queue engine is off.
    Disabled,
}

/// A submission outcome by its values.
#[verifier::ext_equal]
pub enum SubmitView {
    Started { task_id: Seq<char>, spawn_driver: bool },
    Queued { task_id: Seq<char>, ahead: nat },
    Full { depth: nat },
    RtlOwned,
    Disabled,
}

impl View for Submit {
    type V = SubmitView;

    open spec fn view(&self) -> SubmitView {
        match self {
            Submit::Started { task_id, spawn_driver } => SubmitView::Started {
                task_id: task_id@,
                spawn_driver: *spawn_driver,
            },
            Submit::Queued { task_id, ahead } => SubmitView::Queued {
                task_id: task_id@,
                ahead: *ahead as nat,
            },
            Submit::Full { depth } => SubmitView::Full { depth: *depth as nat },
            Submit::RtlOwned => SubmitView::RtlOwned,
            Submit::Disabled => SubmitView::Disabled,
        }
    }
}

/// A fresh entry for `params`.
pub open spec fn fresh_entry(
    seq: nat,
    params: TaskParamsView,
    state: TaskState,
    origin: TaskOrigin,
    parent: Option<Seq<char>>,
    enqueued_ns: u64,
    started_ns: Option<u64>,
    est_duration_s: Real,
) -> TaskEntryView {
    TaskEntryView {
        task_id: id_text(seq),
        kind: params.kind(),
        params,
        state,
        origin,
        parent,
        enqueued_ns,
        started_ns,
        progress: None,
        resume: None,
        est_duration_s,
    }
}

/// What a submission does.
pub open spec fn submit_step(
    v: VehicleView,
    enabled: bool,
    depth: nat,
    params: TaskParamsView,
    origin: TaskOrigin,
    now_ns: u64,
    est: Real,
) -> (VehicleView, SubmitView, Seq<QueueEventView>) {
    let kind = params.kind();
    let idle = v.q.active is None && v.busy.len() == 0;
    let id = id_text(v.q.seq + 1);
    if !enabled {
        (v, SubmitView::Disabled, Seq::empty())
    } else if v.busy == RTL@ {
        (v, SubmitView::RtlOwned, Seq::empty())
    } else if idle {
        let entry = fresh_entry(
            v.q.seq + 1,
            params,
            TaskState::Active,
            origin,
            None,
            now_ns,
            Some(now_ns),
            est,
        );
        (
            VehicleView {
                q: QueueView {
                    seq: v.q.seq + 1,
                    active: Some(entry),
                    driver_running: true,
                    ..v.q
                },
                busy: kind.text(),
                abort: false,
                operator_abort: false,
            },
            SubmitView::Started { task_id: id, spawn_driver: !v.q.driver_running },
            seq![
                QueueEventView::TaskQueued { task_id: id, kind, origin, position: 0 },
                QueueEventView::TaskStarted { task_id: id, kind },
            ],
        )
    } else if v.q.pending.len() >= depth {
        (v, SubmitView::Full { depth }, seq![QueueEventView::TaskRefused { kind, depth }])
    } else {
        let entry = fresh_entry(
            v.q.seq + 1,
            params,
            TaskState::Pending,
            origin,
            None,
            now_ns,
            None,
            est,
        );
        (
            VehicleView {
                q: QueueView { seq: v.q.seq + 1, pending: v.q.pending.push(entry), ..v.q },
                ..v
            },
            SubmitView::Queued { task_id: id, ahead: v.q.pending.len() + 1 },
            seq![
                QueueEventView::TaskQueued {
                    task_id: id,
                    kind,
                    origin,
                    position: v.q.pending.len() + 1,
                },
            ],
        )
    }
}

// ---------------------------------------------------------------------------
// flush, abort, promotion
// ---------------------------------------------------------------------------

/// The entries, cancelled.
pub open spec fn aborted(s: Seq<TaskEntryView>) -> Seq<TaskEntryView> {
    s.map_values(|e: TaskEntryView| with_state(e, TaskState::Aborted))
}

/// What cancelling the entries journals.
pub open spec fn abort_events(s: Seq<TaskEntryView>, by: AbortedBy) -> Seq<QueueEventView> {
    s.map_values(
        |e: TaskEntryView|
            QueueEventView::TaskAborted { task_id: e.task_id, kind: e.kind, by },
    )
}

/// The queue with nothing waiting: every pending entry is cancelled.
pub open spec fn flushed(q: QueueView) -> QueueView {
    QueueView {
        pending: Seq::empty(),
        finished: last_of(q.finished + aborted(q.pending), FINISHED_TAIL as nat),
        preempt_insert_at: None,
        ..q
    }
}

/// What starting the front entry after a non-queue owner released the vehicle
/// does.
pub open spec fn kick_step(v: VehicleView, now_ns: u64) -> (
    VehicleView,
    Option<bool>,
    Seq<QueueEventView>,
) {
    if v.q.active is Some || v.q.pending.len() == 0 || v.abort || v.busy.len() > 0 {
        (v, None, Seq::empty())
    } else {
        let next = starting(v.q.pending[0], now_ns);
        (
            VehicleView {
                q: QueueView {
                    active: Some(next),
                    pending: v.q.pending.skip(1),
                    driver_running: true,
                    ..v.q
                },
                busy: next.kind.text(),
                operator_abort: false,
                ..v
            },
            Some(!v.q.driver_running),
            seq![QueueEventView::TaskStarted { task_id: next.task_id, kind: next.kind }],
        )
    }
}

/// What an id names.
#[derive(Clone, Copy, Debug, PartialEq, Eq, Structural)]
pub enum ById {
    /// A pending entry was removed.
    Pending,
    /// The active entry: treat like a label abort of its kind.
    Active(TaskKind),
    /// No entry of the queue.
    Unknown,
}

/// First entry with the id, or the length.
pub open spec fn position_of(s: Seq<TaskEntryView>, id: Seq<char>) -> int
    decreases s.len(),
{
    if s.len() == 0 {
        0
    } else if s[0].task_id == id {
        0
    } else {
        1 + position_of(s.skip(1), id)
    }
}

/// What an abort by id does.
pub open spec fn abort_by_id_step(q: QueueView, id: Seq<char>) -> (
    QueueView,
    ById,
    Seq<QueueEventView>,
) {
    let k = position_of(q.pending, id);
    if q.active is Some && q.active->0.task_id == id {
        (q, ById::Active(q.active->0.kind), Seq::empty())
    } else if k < q.pending.len() {
        let e = q.pending[k];
        (
            QueueView {
                pending: q.pending.remove(k),
                finished: last_of(
                    q.finished.push(with_state(e, TaskState::Aborted)),
                    FINISHED_TAIL as nat,
                ),
                ..q
            },
            ById::Pending,
            seq![
                QueueEventView::TaskAborted {
                    task_id: e.task_id,
                    kind: e.kind,
                    by: AbortedBy::Operator,
                },
            ],
        )
    } else {
        (q, ById::Unknown, Seq::empty())
    }
}

// ---------------------------------------------------------------------------
// remote-control arbitration
// ---------------------------------------------------------------------------

/// Why remote control may not engage.
#[derive(Clone, Copy, Debug, PartialEq, Eq, Structural)]
pub enum SeizeRefusal {
    ArmGestureRequired,
    RtlOwnsVehicle,
    PreemptDenied,
    UnpausableOwner,
}

impl SeizeRefusal {
    /// The journaled word.
    pub open spec fn text(self) -> Seq<char> {
        match self {
            SeizeRefusal::ArmGestureRequired => "arm-gesture-required"@,
            SeizeRefusal::RtlOwnsVehicle => "rtl-owns-vehicle"@,
            SeizeRefusal::PreemptDenied => "preempt-denied"@,
            SeizeRefusal::UnpausableOwner => "unpausable-owner"@,
        }
    }

    /// The journaled word.
    pub fn as_str(&self) -> (r: &'static str)
        ensures
            r@ == self.text(),
    {
        match self {
            SeizeRefusal::ArmGestureRequired => "arm-gesture-required",
            SeizeRefusal::RtlOwnsVehicle => "rtl-owns-vehicle",
            SeizeRefusal::PreemptDenied => "preempt-denied",
            SeizeRefusal::UnpausableOwner => "unpausable-owner",
        }
    }
}

/// Outcome of an engage attempt.
#[derive(Debug)]
pub enum RcSeize {
    /// Idle vehicle: the claim is taken.
    Engaged,
    /// The active task is suspended; its remainder will wait at the front.
    EngagedPaused { paused_task_id: String },
    /// Something owns the vehicle and the rules refuse.
    Refused { busy: String, reason: SeizeRefusal },
}

/// An engage outcome by its values.
#[verifier::ext_equal]
pub enum RcSeizeView {
    Engaged,
    EngagedPaused { paused_task_id: Seq<char> },
    Refused { busy: Seq<char>, reason: SeizeRefusal },
}

impl View for RcSeize {
    type V = RcSeizeView;

    open spec fn view(&self) -> RcSeizeView {
        match self {
            RcSeize::Engaged => RcSeizeView::Engaged,
            RcSeize::EngagedPaused { paused_task_id } => RcSeizeView::EngagedPaused {
                paused_task_id: paused_task_id@,
            },
            RcSeize::Refused { busy, reason } => RcSeizeView::Refused {
                busy: busy@,
                reason: *reason,
            },
        }
    }
}

/// What an engage attempt does.
pub open spec fn rc_seize_step(v: VehicleView, arm_gesture: bool, pause_allowed: bool) -> (
    VehicleView,
    RcSeizeView,
) {
    if v.busy.len() == 0 {
        (
            VehicleView { busy: RC_MANUAL@, abort: false, operator_abort: false, ..v },
            RcSeizeView::Engaged,
        )
    } else if !arm_gesture {
        (v, RcSeizeView::Refused { busy: v.busy, reason: SeizeRefusal::ArmGestureRequired })
    } else if v.busy == RTL@ {
        (v, RcSeizeView::Refused { busy: v.busy, reason: SeizeRefusal::RtlOwnsVehicle })
    } else if !pause_allowed {
        (v, RcSeizeView::Refused { busy: v.busy, reason: SeizeRefusal::PreemptDenied })
    } else if v.q.active is Some && v.q.active->0.kind.text() == v.busy {
        (
            VehicleView {
                q: QueueView { preempt_insert_at: Some(0), ..v.q },
                busy: RC_MANUAL@,
                abort: true,
                operator_abort: false,
            },
            RcSeizeView::EngagedPaused { paused_task_id: v.q.active->0.task_id },
        )
    } else {
        (v, RcSeizeView::Refused { busy: v.busy, reason: SeizeRefusal::UnpausableOwner })
    }
}

// ---------------------------------------------------------------------------
// the end of a task
// ---------------------------------------------------------------------------

/// What remains of a preempted task; `None` = nothing left to resume.
pub open spec fn remainder_of(e: TaskEntryView) -> Option<TaskParamsView> {
    match (e.params, e.resume) {
        (
            TaskParamsView::Raster { req, start_leg, skip_captures },
            Some(ResumeSnapshot::Raster { leg, fired_in_leg }),
        ) => Some(
            TaskParamsView::Raster {
                req,
                start_leg: start_leg + leg as nat,
                skip_captures: if leg == 0 {
                    skip_captures + fired_in_leg as nat
                } else {
                    fired_in_leg as nat
                },
            },
        ),
        (
            TaskParamsView::Investigate { req },
            Some(ResumeSnapshot::Investigate { remaining_turns }),
        ) => if remaining_turns.at_most(Real { bits: TURNS_FINISHED_BITS }) {
            None
        } else {
            Some(
                TaskParamsView::Investigate {
                    req: InvestigateRequestView { turns: remaining_turns, ..req },
                },
            )
        },
        (params, _) => Some(params),
    }
}

/// The remainder coordinates of a survey stay machine integers.
pub open spec fn remainder_fits(e: TaskEntryView) -> bool {
    match (e.params, e.resume) {
        (
            TaskParamsView::Raster { req, start_leg, skip_captures },
            Some(ResumeSnapshot::Raster { leg, fired_in_leg }),
        ) => start_leg + leg <= usize::MAX && skip_captures + fired_in_leg <= usize::MAX,
        _ => true,
    }
}

/// What the driver does after a task.
#[derive(Clone, Copy, Debug, PartialEq, Eq, Structural)]
pub enum AfterTask {
    /// Another entry is active (busy label already swapped).
    Next,
    /// Queue empty, vehicle released: the idle policy takes over.
    Idle(TaskKind),
    /// Another command owns the vehicle.
    Stop,
}

/// Whether an aborted flight was a scoped operator cancel.
pub open spec fn by_operator(v: VehicleView, outcome: FlightOutcome) -> bool {
    outcome == FlightOutcome::Aborted && v.operator_abort
}

/// Where the continuation of a displaced task lands, when one does.
pub open spec fn preempted_at(v: VehicleView, outcome: FlightOutcome) -> Option<nat> {
    if outcome == FlightOutcome::Aborted && !v.operator_abort {
        v.q.preempt_insert_at
    } else {
        None
    }
}

/// The terminal state of a task.
pub open spec fn end_state(v: VehicleView, outcome: FlightOutcome) -> TaskState {
    match outcome {
        FlightOutcome::Completed => TaskState::Done,
        FlightOutcome::TimedOut => TaskState::Failed,
        FlightOutcome::Aborted => if by_operator(v, outcome) {
            TaskState::Aborted
        } else if preempted_at(v, outcome) is Some {
            TaskState::Done
        } else {
            TaskState::Aborted
        },
    }
}

/// The ladder interrupted the task: the queue does not go on.
pub open spec fn by_ladder(v: VehicleView, outcome: FlightOutcome) -> bool {
    outcome == FlightOutcome::Aborted && !v.operator_abort && v.q.preempt_insert_at is None
}

/// `s` with `e` at position `at`, or at the end when `at` is beyond it.
pub open spec fn inserted(s: Seq<TaskEntryView>, at: nat, e: TaskEntryView) -> Seq<TaskEntryView> {
    s.insert(
        if at < s.len() {
            at as int
        } else {
            s.len() as int
        },
        e,
    )
}

/// The vehicle after the ended task left the active slot: state recorded, the
/// continuation of a displaced task queued, the consumed flags lowered.
pub open spec fn settle(
    v: VehicleView,
    outcome: FlightOutcome,
    now_ns: u64,
    est: Real,
) -> (VehicleView, Seq<QueueEventView>)
    recommends
        v.q.active is Some,
{
    let entry = v.q.active->0;
    let state = end_state(v, outcome);
    let preempt = preempted_at(v, outcome);
    let operator = by_operator(v, outcome);
    let ended = if state == TaskState::Aborted {
        QueueEventView::TaskAborted {
            task_id: entry.task_id,
            kind: entry.kind,
            by: if operator {
                AbortedBy::Operator
            } else {
                AbortedBy::Ladder
            },
        }
    } else {
        QueueEventView::TaskCompleted {
            task_id: entry.task_id,
            kind: entry.kind,
            outcome,
            split: preempt is Some,
        }
    };
    let rest = if preempt is Some {
        remainder_of(entry)
    } else {
        None
    };
    let finished = last_of(
        v.q.finished.push(with_state(entry, state)),
        FINISHED_TAIL as nat,
    );
    let lowered = VehicleView {
        q: QueueView { active: None, preempt_insert_at: None, finished, ..v.q },
        busy: v.busy,
        abort: v.abort && preempt is None && !operator,
        operator_abort: v.operator_abort && outcome != FlightOutcome::Aborted,
    };
    match rest {
        None => (lowered, seq![ended]),
        Some(params) => {
            let cont = TaskEntryView {
                kind: entry.kind,
                ..fresh_entry(
                    v.q.seq + 1,
                    params,
                    TaskState::Pending,
                    TaskOrigin::Split,
                    Some(entry.task_id),
                    now_ns,
                    None,
                    est,
                )
            };
            (
                VehicleView {
                    q: QueueView {
                        seq: v.q.seq + 1,
                        pending: inserted(v.q.pending, preempt->0, cont),
                        ..lowered.q
                    },
                    ..lowered
                },
                seq![
                    ended,
                    QueueEventView::TaskSplit {
                        task_id: entry.task_id,
                        continuation: id_text(v.q.seq + 1),
                        insert_at: preempt->0,
                    },
                ],
            )
        },
    }
}

/// The hand-over after a settled task of kind `kind`.
pub open spec fn hand_over(v: VehicleView, kind: TaskKind, stop: bool, now_ns: u64) -> (
    VehicleView,
    AfterTask,
    Seq<QueueEventView>,
) {
    let flush = (
        VehicleView { q: flushed(v.q), ..v },
        AfterTask::Stop,
        abort_events(v.q.pending, AbortedBy::Ladder),
    );
    if stop || v.abort {
        flush
    } else if v.busy.len() > 0 && v.busy != kind.text() {
        if v.busy == RC_MANUAL@ {
            (v, AfterTask::Stop, Seq::empty())
        } else {
            flush
        }
    } else if v.q.pending.len() > 0 {
        let next = starting(v.q.pending[0], now_ns);
        (
            VehicleView {
                q: QueueView { active: Some(next), pending: v.q.pending.skip(1), ..v.q },
                busy: next.kind.text(),
                operator_abort: false,
                ..v
            },
            AfterTask::Next,
            seq![QueueEventView::TaskStarted { task_id: next.task_id, kind: next.kind }],
        )
    } else {
        (VehicleView { busy: Seq::empty(), ..v }, AfterTask::Idle(kind), Seq::empty())
    }
}

/// What the end of the active task does.
pub open spec fn task_end_step(
    v: VehicleView,
    outcome: FlightOutcome,
    cancelled: bool,
    now_ns: u64,
    est: Real,
) -> (VehicleView, AfterTask, Seq<QueueEventView>) {
    if v.q.active is None {
        (
            VehicleView {
                operator_abort: v.operator_abort && outcome != FlightOutcome::Aborted,
                ..v
            },
            AfterTask::Stop,
            Seq::empty(),
        )
    } else {
        let (settled, first) = settle(v, outcome, now_ns, est);
        let (done, after, then_events) = hand_over(
            settled,
            v.q.active->0.kind,
            by_ladder(v, outcome) || cancelled,
            now_ns,
        );
        (done, after, first + then_events)
    }
}

// ---------------------------------------------------------------------------
// reorder
// ---------------------------------------------------------------------------

/// What holds of every reachable queue: at most [`FINISHED_TAIL`] finished
/// entries are kept, the ids of the tasks in run order are distinct and were
/// given out, the active entry is marked active and the others pending.
pub open spec fn queue_inv(q: QueueView) -> bool {
    &&& q.finished.len() <= FINISHED_TAIL
    &&& ids(q.run_order()).no_duplicates()
    &&& forall|i: int|
        0 <= i < q.run_order().len() ==> given_out(#[trigger] q.run_order()[i].task_id, q.seq)
    &&& q.active matches Some(e) ==> e.state == TaskState::Active && e.kind == e.params.kind()
    &&& forall|i: int|
        0 <= i < q.pending.len() ==> (#[trigger] q.pending[i]).state == TaskState::Pending
            && q.pending[i].kind == q.pending[i].params.kind()
}

/// The id is one of the first `seq` ids.
pub open spec fn given_out(id: Seq<char>, seq: nat) -> bool {
    exists|n: nat| 1 <= n <= seq && id == #[trigger] id_text(n)
}

/// The id of the active task.
pub open spec fn active_id(q: QueueView) -> Option<Seq<char>> {
    match q.active {
        Some(e) => Some(e.task_id),
        None => None,
    }
}

/// `s` without the items equal to `x`.
pub open spec fn without(s: Seq<Seq<char>>, x: Option<Seq<char>>) -> Seq<Seq<char>>
    decreases s.len(),
{
    if s.len() == 0 {
        Seq::empty()
    } else if Some(s.last()) == x {
        without(s.drop_last(), x)
    } else {
        without(s.drop_last(), x).push(s.last())
    }
}

/// First place of `x` in `s`, or the length.
pub open spec fn place_of(s: Seq<Seq<char>>, x: Seq<char>) -> int
    decreases s.len(),
{
    if s.len() == 0 {
        0
    } else if s[0] == x {
        0
    } else {
        1 + place_of(s.skip(1), x)
    }
}

/// The order asks for something else at the front than the active task.
pub open spec fn displaces(q: QueueView, order: Seq<Seq<char>>) -> bool {
    q.active is Some && order.len() > 0 && order[0] != q.active->0.task_id
}

/// The queue `q1` is `q0` in the new order: the same waiting tasks, in the
/// order of their ids, and a place for the remainder of a displaced one.
pub open spec fn reordered(q0: QueueView, order: Seq<Seq<char>>, q1: QueueView) -> bool {
    &&& q1.pending.to_multiset() == q0.pending.to_multiset()
    &&& ids(q1.pending) == without(order, active_id(q0))
    &&& q1 == (QueueView {
        pending: q1.pending,
        preempt_insert_at: if displaces(q0, order) {
            Some(place_of(order, q0.active->0.task_id) as nat)
        } else {
            q0.preempt_insert_at
        },
        ..q0
    })
}

/// The ids as they are listed in a refusal.
pub open spec fn id_list_text(s: Seq<Seq<char>>) -> Seq<char>
    decreases s.len(),
{
    if s.len() == 0 {
        Seq::empty()
    } else if s.len() == 1 {
        "\""@ + s[0] + "\""@
    } else {
        id_list_text(s.drop_last()) + ", "@ + "\""@ + s.last() + "\""@
    }
}

} // verus!
