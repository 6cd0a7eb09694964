//! The queue driver: what an entry runs, the control step of a survey under
//! the queue, and the queue snapshot a vehicle publishes.

use vstd::prelude::*;

use crate::agent::{AgentShared, AgentView, RASTER_SEARCH};
use crate::clock::{hash_text, text_hash};
use crate::flight::{
    fired_so_far, raster_step, resume_of, MissionEvent, RasterAnswer, RasterFlight,
    RasterFlightView, RasterTick,
};
use crate::mission::{
    captures_before, flat, relegged_all, remainder_is_the_unfired_rest, remainders_compose,
    remaining_plan, FlightOutcome, Point, RasterPlan, RasterPlanView,
};
use crate::quantity::Real;
use crate::queue::QueueState;
use crate::queue_model::{
    queue_inv, remainder_of, QueueView, ResumeSnapshot, TaskEntry, TaskEntryView, TaskParams,
    TaskParamsView, VehicleView,
};
use crate::services::RasterRequestView;
use crate::tasks::{TaskKind, TaskOrigin, TaskProgress, TaskProgressView, TaskState};
use crate::text::{cat, dec, dec_text};

verus! {

// ---------------------------------------------------------------------------
// what an entry runs
// ---------------------------------------------------------------------------

/// What the driver does with an entry.
#[derive(Debug)]
pub enum Run {
    /// Fly this part of a survey.
    Survey(RasterPlan),
    /// Fly an inspection.
    Investigate,
    /// Fly a capture by override.
    SensorOverride,
    /// The plan failed: the task ends as timed out.
    PlanFailed(String),
    /// The earlier part of the survey finished everything.
    NothingLeft,
}

impl Run {
    /// The outcome of an entry that does not fly.
    pub fn ended(&self) -> (r: Option<FlightOutcome>)
        ensures
            r == (match self {
                Run::PlanFailed(_) => Some(FlightOutcome::TimedOut),
                Run::NothingLeft => Some(FlightOutcome::Completed),
                _ => None,
            }),
    {
        match self {
            Run::PlanFailed(_) => Some(FlightOutcome::TimedOut),
            Run::NothingLeft => Some(FlightOutcome::Completed),
            _ => None,
        }
    }
}

/// What an entry runs. `plan` is the plan of a survey's request, and
/// `path_len_m` the length of its remaining legs.
pub fn run_task(params: &TaskParams, plan: Result<RasterPlan, String>, path_len_m: Real) -> (r: Run)
    requires
        plan matches Ok(p) ==> p@.valid(),
    ensures
        match params@ {
            TaskParamsView::Investigate { .. } => r is Investigate,
            TaskParamsView::SensorOverride { .. } => r is SensorOverride,
            TaskParamsView::Raster { req, start_leg, skip_captures } => match plan {
                Err(e) => r matches Run::PlanFailed(f) && f@ == e@,
                Ok(p) => match remaining_plan(
                    p@,
                    start_leg as int,
                    skip_captures as int,
                    path_len_m,
                ) {
                    None => r is NothingLeft,
                    Some(rest) => r matches Run::Survey(s) && s@ == rest,
                },
            },
        },
{
    match params {
        TaskParams::Investigate { .. } => Run::Investigate,
        TaskParams::SensorOverride { .. } => Run::SensorOverride,
        TaskParams::Raster { req, start_leg, skip_captures } => match plan {
            Err(e) => Run::PlanFailed(e),
            Ok(p) => match p.remainder(*start_leg, *skip_captures, path_len_m) {
                None => Run::NothingLeft,
                Some(rest) => Run::Survey(rest),
            },
        },
    }
}

// ---------------------------------------------------------------------------
// the control step of a survey
// ---------------------------------------------------------------------------

/// How a control step of a survey went.
#[derive(Debug)]
pub enum SurveyStep {
    /// Another command took the vehicle; what remains was saved.
    Interrupted,
    /// A capture detour owns the vehicle: nothing moved.
    Paused,
    /// The survey ticked.
    Flown {
        outcome: Option<FlightOutcome>,
        events: Vec<MissionEvent>,
        target: Option<Point>,
    },
}

/// The queue with a snapshot of what remains of its active task.
pub open spec fn with_resume(a: AgentView, resume: ResumeSnapshot) -> AgentView {
    AgentView {
        v: VehicleView {
            q: QueueView {
                active: match a.v.q.active {
                    Some(e) => Some(TaskEntryView { resume: Some(resume), ..e }),
                    None => None,
                },
                ..a.v.q
            },
            ..a.v
        },
        ..a
    }
}

/// The snapshot of a survey in flight.
pub open spec fn snapshot_of(f: RasterFlightView) -> ResumeSnapshot {
    ResumeSnapshot::Raster {
        leg: resume_of(f).0 as usize,
        fired_in_leg: resume_of(f).1 as usize,
    }
}

/// A survey must end: an abort is up, or the vehicle is no longer its own.
pub open spec fn survey_interrupted(a: AgentView) -> bool {
    a.v.abort || a.v.busy != RASTER_SEARCH@
}

/// A snapshot in the active entry keeps the queue well formed.
proof fn lemma_resume_keeps_valid(q: QueueView, w: QueueView)
    requires
        queue_inv(q),
        w == (QueueView { active: w.active, ..q }),
        q.active is Some <==> w.active is Some,
        q.active is Some ==> w.active->0.task_id == q.active->0.task_id && w.active->0.state
            == q.active->0.state && w.active->0.kind == q.active->0.kind && w.active->0.params
            == q.active->0.params,
    ensures
        queue_inv(w),
{
    assert(crate::queue_model::ids(w.run_order()) =~= crate::queue_model::ids(q.run_order()));
    assert forall|i: int| 0 <= i < w.run_order().len() implies crate::queue_model::given_out(
        #[trigger] w.run_order()[i].task_id,
        w.seq,
    ) by {
        assert(w.run_order()[i].task_id == q.run_order()[i].task_id);
    }
}

impl AgentShared {
    /// Save what remains of the active task.
    pub fn save_resume(&mut self, resume: ResumeSnapshot)
        requires
            old(self).valid(),
        ensures
            final(self)@ == with_resume(old(self)@, resume),
            final(self).same_setup(*old(self)),
            final(self).valid(),
    {
        self.vehicle.tasks.save_resume(resume);
        proof {
            lemma_resume_keeps_valid(old(self)@.v.q, self@.v.q);
        }
    }

    /// Report progress of the active task, with what remains of it.
    pub fn note_progress(&mut self, progress: TaskProgress, resume: ResumeSnapshot)
        requires
            old(self).valid(),
        ensures
            final(self)@.v.q == (QueueView {
                active: match old(self)@.v.q.active {
                    Some(e) => Some(
                        TaskEntryView {
                            progress: Some(progress@),
                            resume: Some(resume),
                            ..e
                        },
                    ),
                    None => None,
                },
                ..old(self)@.v.q
            }),
            final(self)@ == (AgentView {
                v: VehicleView { q: final(self)@.v.q, ..old(self)@.v },
                ..old(self)@
            }),
            final(self).same_setup(*old(self)),
            final(self).valid(),
    {
        self.vehicle.tasks.note_progress(progress, Some(resume));
        proof {
            lemma_resume_keeps_valid(old(self)@.v.q, self@.v.q);
        }
    }

    /// One control step of a survey: an interruption saves what remains and
    /// ends the flight, a detour freezes it, otherwise it ticks.
    pub fn survey_step(&mut self, flight: &mut RasterFlight, t: RasterTick) -> (r: SurveyStep)
        requires
            old(self).valid(),
            old(flight)@.valid(),
        ensures
            ({
                let a = old(self)@;
                let f = old(flight)@;
                if survey_interrupted(a) {
                    &&& r is Interrupted
                    &&& final(self)@ == with_resume(a, snapshot_of(f))
                    &&& final(flight)@ == f
                } else if a.detour {
                    r is Paused && final(self)@ == a && final(flight)@ == f
                } else {
                    &&& final(self)@ == a
                    &&& final(flight)@ == raster_step(f, t).0
                    &&& match r {
                        SurveyStep::Flown { outcome, events, target } => raster_step(f, t).1 == (
                        RasterAnswer { outcome, events: events@, target }),
                        _ => false,
                    }
                }
            }),
            final(flight)@.valid(),
            final(self).same_setup(*old(self)),
            final(self).valid(),
    {
        if self.interrupted(RASTER_SEARCH) {
            let (leg, fired_in_leg) = flight.resume_state();
            self.save_resume(ResumeSnapshot::Raster { leg, fired_in_leg });
            return SurveyStep::Interrupted;
        }
        if self.detour {
            return SurveyStep::Paused;
        }
        let (outcome, events, target) = flight.tick(t);
        SurveyStep::Flown { outcome, events, target }
    }

    /// Report the progress of a survey after a tick.
    pub fn survey_progress(&mut self, flight: &RasterFlight, pct: Real, eta_s: Real)
        requires
            old(self).valid(),
            flight@.valid(),
        ensures
            final(self)@.v.q == (QueueView {
                active: match old(self)@.v.q.active {
                    Some(e) => Some(
                        TaskEntryView {
                            progress: Some(
                                TaskProgressView { pct, detail: survey_note(flight@), eta_s },
                            ),
                            resume: Some(snapshot_of(flight@)),
                            ..e
                        },
                    ),
                    None => None,
                },
                ..old(self)@.v.q
            }),
            final(self)@ == (AgentView {
                v: VehicleView { q: final(self)@.v.q, ..old(self)@.v },
                ..old(self)@
            }),
            final(self).same_setup(*old(self)),
            final(self).valid(),
    {
        let (leg, fired_in_leg) = flight.resume_state();
        let total: usize = flight.legs_total();
        let mut detail = cat("leg ", dec(flight.leg() as u64 + 1).as_str());
        detail.append("/");
        detail.append(dec(total as u64).as_str());
        detail.append(", ");
        detail.append(dec(flight.frames()).as_str());
        detail.append(" frames");
        self.note_progress(
            TaskProgress { pct, detail, eta_s },
            ResumeSnapshot::Raster { leg, fired_in_leg },
        );
    }
}

/// The leg that a survey flies or flew last.
pub open spec fn current_leg(f: RasterFlightView) -> int {
    match f.state {
        crate::flight::RasterState::ToLegStart { leg, .. } => leg as int,
        crate::flight::RasterState::OnLeg { leg, .. } => leg as int,
        crate::flight::RasterState::Done(_) => f.plan.legs.len() - 1,
    }
}

/// The progress note of a survey.
pub open spec fn survey_note(f: RasterFlightView) -> Seq<char> {
    "leg "@ + dec_text((current_leg(f) + 1) as nat) + "/"@ + dec_text(f.plan.legs.len()) + ", "@
        + dec_text(f.frames) + " frames"@
}

/// A survey that is displaced anywhere between two ticks continues with
/// exactly the captures that it had not fired: what the queue computes from
/// the saved snapshot, re-planned, is the unfired rest of the plan in flight.
pub proof fn continuations_fly_the_unfired_rest(
    full: RasterPlanView,
    e: TaskEntryView,
    req: RasterRequestView,
    start_leg: int,
    skip: int,
    mid_len: Real,
    f: RasterFlightView,
    path_len_m: Real,
)
    requires
        full.valid(),
        0 <= start_leg < full.legs.len(),
        0 <= skip,
        e.params == (TaskParamsView::Raster {
            req,
            start_leg: start_leg as nat,
            skip_captures: skip as nat,
        }),
        remaining_plan(full, start_leg, skip, mid_len) == Some(f.plan),
        f.valid(),
        !(f.state is Done),
    ensures
        ({
            let saved = TaskEntryView { resume: Some(snapshot_of(f)), ..e };
            match remainder_of(saved) {
                Some(TaskParamsView::Raster { req: r2, start_leg: leg2, skip_captures: skip2 }) => {
                    let rest = remaining_plan(full, leg2 as int, skip2 as int, path_len_m);
                    &&& r2 == req
                    &&& rest is Some
                    &&& flat(rest->0.captures) == relegged_all(
                        flat(f.plan.captures).skip(fired_so_far(f)),
                        resume_of(f).0,
                    )
                },
                _ => false,
            }
        }),
{
    let (leg, fired) = resume_of(f);
    remainder_is_the_unfired_rest(f.plan, leg, fired, path_len_m);
    remainders_compose(full, start_leg, skip, leg, fired, mid_len, path_len_m);
    assert(captures_before(f.plan.captures, leg) + fired == fired_so_far(f));
}

// ---------------------------------------------------------------------------
// digests
// ---------------------------------------------------------------------------

/// The resume part of a survey's summary.
pub open spec fn resume_part(start_leg: nat, skip_captures: nat) -> Seq<char> {
    if start_leg > 0 || skip_captures > 0 {
        " (resume leg "@ + dec_text(start_leg) + "+"@ + dec_text(skip_captures) + ")"@
    } else {
        Seq::empty()
    }
}

/// One-line summary of a survey; the spacing and the altitude are printed
/// already.
pub fn survey_summary(
    corners: usize,
    spacing: &str,
    agl: &str,
    start_leg: usize,
    skip_captures: usize,
) -> (r: String)
    ensures
        r@ == "area "@ + dec_text(corners as nat) + " corners, "@ + spacing@ + " m spacing @ "@
            + agl@ + " m agl"@ + resume_part(start_leg as nat, skip_captures as nat),
{
    let mut s = cat("area ", dec(corners as u64).as_str());
    s.append(" corners, ");
    s.append(spacing);
    s.append(" m spacing @ ");
    s.append(agl);
    s.append(" m agl");
    if start_leg > 0 || skip_captures > 0 {
        let ghost head = s@;
        s.append(" (resume leg ");
        s.append(dec(start_leg as u64).as_str());
        s.append("+");
        s.append(dec(skip_captures as u64).as_str());
        s.append(")");
        assert(s@ =~= head + resume_part(start_leg as nat, skip_captures as nat));
    } else {
        assert(s@ =~= s@ + resume_part(start_leg as nat, skip_captures as nat));
    }
    s
}

/// The eight lowercase hex digits of the low half of a hash.
pub open spec fn short_hash(hash: u64) -> Seq<char> {
    Seq::new(
        8,
        |k: int| crate::blocks::hex_char(nibble(hash, 7 - k)),
    )
}

/// Hex digit `k` of `n`, least significant first.
pub open spec fn nibble(n: u64, k: int) -> int
    decreases k,
{
    if k <= 0 {
        (n % 16) as int
    } else {
        nibble(n / 16, k - 1)
    }
}

fn nibble_at(n: u64, k: usize) -> (r: u8)
    ensures
        r == nibble(n, k as int),
        r < 16,
    decreases k,
{
    if k == 0 {
        (n % 16) as u8
    } else {
        nibble_at(n / 16, k - 1)
    }
}

/// The published digest of a task: its summary and a short content hash.
pub fn digest(summary: &str, hash: u64) -> (r: String)
    ensures
        r@ == summary@ + " ["@ + short_hash(hash) + "]"@,
{
    let mut s = cat(summary, " [");
    let ghost head = s@;
    let mut k: usize = 0;
    assert(s@ =~= head + short_hash(hash).take(0));
    while k < 8
        invariant
            k <= 8,
            s@ == head + short_hash(hash).take(k as int),
        decreases 8 - k,
    {
        let d: u8 = nibble_at(hash, 7 - k);
        s.push(crate::blocks::hex_digit(d));
        assert(s@ =~= head + short_hash(hash).take(k + 1));
        k = k + 1;
    }
    assert(short_hash(hash).take(8) =~= short_hash(hash));
    s.append("]");
    s
}

/// The published digest of a task: its summary and a short hash of its
/// canonical form.
pub fn task_digest(summary: &str, canonical: &str) -> (r: String)
    ensures
        r@ == summary@ + " ["@ + short_hash(text_hash(canonical@)) + "]"@,
{
    let hash: u64 = hash_text(canonical);
    digest(summary, hash)
}

// ---------------------------------------------------------------------------
// the published snapshot
// ---------------------------------------------------------------------------

/// Progress alone publishes the queue this often at most (ms); changes of the
/// queue are published at once.
pub const PROGRESS_PERIOD_MS: u64 = 1_000;

/// Whether progress is published, given the time since the queue was last
/// published, if it was.
pub fn progress_due(since_last_ms: Option<u64>) -> (r: bool)
    ensures
        r == (match since_last_ms {
            Some(t) => t >= PROGRESS_PERIOD_MS,
            None => true,
        }),
        !r <==> since_last_ms is Some && since_last_ms->0 < 1_000,
{
    match since_last_ms {
        Some(t) => t >= PROGRESS_PERIOD_MS,
        None => true,
    }
}

/// One queue entry as published.
#[derive(Debug)]
pub struct QueuedTaskInfo {
    pub task_id: String,
    pub kind: TaskKind,
    /// Summary of the request and a short content hash.
    pub params_digest: String,
    pub state: TaskState,
    pub origin: TaskOrigin,
    pub parent: Option<String>,
    pub enqueued_ns: u64,
    pub started_ns: Option<u64>,
    pub progress: Option<TaskProgress>,
    /// Estimated seconds until a waiting task starts.
    pub eta_to_start_s: Option<Real>,
    pub est_duration_s: Real,
}

/// A published entry by its values.
#[verifier::ext_equal]
pub struct InfoView {
    pub task_id: Seq<char>,
    pub kind: TaskKind,
    pub params_digest: Seq<char>,
    pub state: TaskState,
    pub origin: TaskOrigin,
    pub parent: Option<Seq<char>>,
    pub enqueued_ns: u64,
    pub started_ns: Option<u64>,
    pub progress: Option<TaskProgressView>,
    pub eta_to_start_s: Option<Real>,
    pub est_duration_s: Real,
}

impl View for QueuedTaskInfo {
    type V = InfoView;

    open spec fn view(&self) -> InfoView {
        InfoView {
            task_id: self.task_id@,
            kind: self.kind,
            params_digest: self.params_digest@,
            state: self.state,
            origin: self.origin,
            parent: match self.parent {
                Some(p) => Some(p@),
                None => None,
            },
            enqueued_ns: self.enqueued_ns,
            started_ns: self.started_ns,
            progress: match self.progress {
                Some(p) => Some(p@),
                None => None,
            },
            eta_to_start_s: self.eta_to_start_s,
            est_duration_s: self.est_duration_s,
        }
    }
}

/// What is published of an entry.
pub open spec fn info_of(e: TaskEntryView, digest: Seq<char>, eta: Option<Real>) -> InfoView {
    InfoView {
        task_id: e.task_id,
        kind: e.kind,
        params_digest: digest,
        state: e.state,
        origin: e.origin,
        parent: e.parent,
        enqueued_ns: e.enqueued_ns,
        started_ns: e.started_ns,
        progress: e.progress,
        eta_to_start_s: eta,
        est_duration_s: e.est_duration_s,
    }
}

impl TaskEntry {
    /// What is published of this entry.
    pub fn info(&self, params_digest: String, eta_to_start_s: Option<Real>) -> (r: QueuedTaskInfo)
        ensures
            r@ == info_of(self@, params_digest@, eta_to_start_s),
    {
        QueuedTaskInfo {
            task_id: self.task_id.clone(),
            kind: self.kind,
            params_digest,
            state: self.state,
            origin: self.origin,
            parent: match &self.parent {
                Some(p) => Some(p.clone()),
                None => None,
            },
            enqueued_ns: self.enqueued_ns,
            started_ns: self.started_ns,
            progress: match &self.progress {
                Some(p) => Some(p.clone()),
                None => None,
            },
            eta_to_start_s,
            est_duration_s: self.est_duration_s,
        }
    }
}

/// The whole queue snapshot: the active task, then the waiting ones in run
/// order, then the recently finished.
#[derive(Debug)]
pub struct TaskQueueStatus {
    pub vehicle_id: String,
    pub gps_time_ns: u64,
    /// Pending-depth limit in force.
    pub depth_limit: u32,
    pub tasks: Vec<QueuedTaskInfo>,
}

/// The views of a list of published entries.
pub open spec fn infos(v: Seq<QueuedTaskInfo>) -> Seq<InfoView> {
    v.map_values(|i: QueuedTaskInfo| i@)
}

/// The listed entries of a queue.
pub open spec fn listed(q: QueueView) -> Seq<TaskEntryView> {
    q.run_order() + q.finished
}

/// The estimated start of the listed entry `i`: waiting entries have one.
pub open spec fn eta_of(q: QueueView, etas: Seq<Real>, i: int) -> Option<Real> {
    let first = if q.active is Some {
        1
    } else {
        0int
    };
    if first <= i < first + q.pending.len() {
        Some(etas[i - first])
    } else {
        None
    }
}

impl QueueState {
    /// Number of entries in a snapshot.
    pub fn listed_len(&self) -> (r: usize)
        requires
            listed(self@).len() <= usize::MAX,
        ensures
            r == listed(self@).len(),
    {
        let mut n: usize = self.pending_len();
        if self.active().is_some() {
            n = n + 1;
        }
        let ghost base = n;
        let mut i: usize = 0;
        while self.finished_at(i).is_some()
            invariant
                i <= self@.finished.len(),
                n == base + i,
                base + self@.finished.len() == listed(self@).len() <= usize::MAX,
            decreases self@.finished.len() - i,
        {
            i = i + 1;
            n = n + 1;
        }
        n
    }

    /// The listed entry at a position.
    pub fn listed_at(&self, i: usize) -> (r: Option<&TaskEntry>)
        requires
            self@.pending.len() < usize::MAX,
        ensures
            r is Some <==> i < listed(self@).len(),
            r matches Some(e) ==> e@ == listed(self@)[i as int],
    {
        let n: usize = self.pending_len();
        if let Some(e) = self.active() {
            if i == 0 {
                return Some(e);
            }
            if i <= n {
                return self.pending_at(i - 1);
            }
            return self.finished_at(i - n - 1);
        }
        if i < n {
            self.pending_at(i)
        } else {
            self.finished_at(i - n)
        }
    }

    /// The published snapshot. `digests` are those of the listed entries,
    /// `etas` the estimated starts of the waiting ones.
    pub fn snapshot(
        &self,
        vehicle_id: &str,
        gps_time_ns: u64,
        depth_limit: u32,
        digests: Vec<String>,
        etas: &Vec<Real>,
    ) -> (r: TaskQueueStatus)
        requires
            self@.pending.len() < usize::MAX,
            digests@.len() == listed(self@).len(),
            etas@.len() == self@.pending.len(),
        ensures
            r.vehicle_id@ == vehicle_id@,
            r.gps_time_ns == gps_time_ns,
            r.depth_limit == depth_limit,
            infos(r.tasks@) == Seq::new(
                listed(self@).len(),
                |i: int| info_of(listed(self@)[i], digests@[i]@, eta_of(self@, etas@, i)),
            ),
    {
        let first: usize = if self.active().is_some() {
            1
        } else {
            0
        };
        let n: usize = self.pending_len();
        let ghost want = Seq::new(
            listed(self@).len(),
            |i: int| info_of(listed(self@)[i], digests@[i]@, eta_of(self@, etas@, i)),
        );
        let mut tasks: Vec<QueuedTaskInfo> = Vec::new();
        let mut i: usize = 0;
        assert(infos(tasks@) =~= want.take(0));
        while i < digests.len()
            invariant
                i <= digests@.len() == listed(self@).len(),
                n == self@.pending.len() < usize::MAX,
                etas@.len() == n,
                first == (if self@.active is Some {
                    1int
                } else {
                    0int
                }),
                want == Seq::new(
                    listed(self@).len(),
                    |i: int| info_of(listed(self@)[i], digests@[i]@, eta_of(self@, etas@, i)),
                ),
                infos(tasks@) == want.take(i as int),
            decreases digests@.len() - i,
        {
            let eta = if first <= i && i - first < n {
                Some(etas[i - first])
            } else {
                None
            };
            if let Some(e) = self.listed_at(i) {
                let ghost before = tasks@;
                let info = e.info(digests[i].clone(), eta);
                tasks.push(info);
                assert(infos(tasks@) =~= infos(before).push(info@));
                assert(infos(tasks@) =~= want.take(i + 1));
            }
            i = i + 1;
        }
        assert(want.take(i as int) =~= want);
        TaskQueueStatus { vehicle_id: vehicle_id.to_owned(), gps_time_ns, depth_limit, tasks }
    }
}

// ---------------------------------------------------------------------------
// mission time
// ---------------------------------------------------------------------------

/// A clock that stands still while a capture detour owns the vehicle, so that
/// the deadlines of a suspended mission do not run out.
#[derive(Clone, Copy, Debug, PartialEq, Eq, Structural)]
pub struct MissionClock {
    pub last_ns: u64,
    pub elapsed_ns: u64,
}

impl MissionClock {
    /// A clock that starts now.
    pub fn start(now_ns: u64) -> (r: Self)
        ensures
            r == (MissionClock { last_ns: now_ns, elapsed_ns: 0 }),
    {
        MissionClock { last_ns: now_ns, elapsed_ns: 0 }
    }

    /// The clock after a tick: a paused interval adds nothing.
    pub open spec fn ticked(self, now_ns: u64, paused: bool) -> MissionClock {
        MissionClock {
            last_ns: now_ns,
            elapsed_ns: if paused {
                self.elapsed_ns
            } else {
                (self.elapsed_ns + (now_ns - self.last_ns)) as u64
            },
        }
    }

    /// Advance and return mission time.
    pub fn tick(&mut self, now_ns: u64, paused: bool) -> (r: u64)
        requires
            old(self).elapsed_ns <= old(self).last_ns <= now_ns,
        ensures
            *final(self) == old(self).ticked(now_ns, paused),
            r == final(self).elapsed_ns,
            final(self).elapsed_ns <= final(self).last_ns,
    {
        if !paused {
            self.elapsed_ns = self.elapsed_ns + (now_ns - self.last_ns);
        }
        self.last_ns = now_ns;
        self.elapsed_ns
    }
}

} // verus!
