//! The per-vehicle task queue.
//!
//! - One active task at a time: flight is exclusive, and the busy label is the
//!   kind of the active task.
//! - Requests that find the vehicle busy are accepted and queued, up to a
//!   pending-depth limit.
//! - A reorder that displaces the active task suspends it; the runner saves
//!   what remains, and a continuation enters the queue at the displaced
//!   position.
//! - The abort ladder stops the active task and flushes every pending entry.
//! - Remote control may pause the active task: the queue then stays put until
//!   the session releases the vehicle.
//!
//! Each operation is a transition of [`Vehicle`]; what it journals comes back
//! as a list of [`QueueEvent`].

use vstd::prelude::*;

use crate::mission::FlightOutcome;
use crate::quantity::Real;
use crate::queue_model::{
    AbortedBy, AfterTask, ById, FINISHED_TAIL, QueueEvent, QueueEventView, QueueView, RC_MANUAL,
    RTL, RcSeize, ResumeSnapshot, SeizeRefusal, Submit, TURNS_FINISHED_BITS, TaskEntry,
    TaskEntryView, TaskParams, VehicleView, abort_by_id_step, abort_events, aborted, active_id,
    displaces, entries, events, flushed, hand_over, id_list_text, id_text, ids, kick_step, last_of,
    place_of, position_of, queue_inv, rc_seize_step, remainder_fits, remainder_of, reordered,
    settle, starting, submit_step, task_end_step, without,
};
use crate::services::copy_strings;
use crate::tasks::{TaskKind, TaskOrigin, TaskProgress, TaskState};
use crate::text::{cat, dec, same, views};

verus! {

/// The vehicle's queue.
#[derive(Debug)]
pub struct QueueState {
    seq: u64,
    active: Option<TaskEntry>,
    pending: Vec<TaskEntry>,
    finished: Vec<TaskEntry>,
    driver_running: bool,
    preempt_insert_at: Option<usize>,
}

impl View for QueueState {
    type V = QueueView;

    closed spec fn view(&self) -> QueueView {
        QueueView {
            seq: self.seq as nat,
            active: match self.active {
                Some(e) => Some(e@),
                None => None,
            },
            pending: entries(self.pending@),
            finished: entries(self.finished@),
            driver_running: self.driver_running,
            preempt_insert_at: match self.preempt_insert_at {
                Some(i) => Some(i as nat),
                None => None,
            },
        }
    }
}

/// The queue together with the flags that decide who owns the vehicle.
#[derive(Debug)]
pub struct Vehicle {
    pub tasks: QueueState,
    /// Label of the owner; empty = idle.
    pub busy: String,
    /// Raised by the ladder and by a displacing reorder; every mission loop
    /// ends within one control cycle of it.
    pub abort: bool,
    /// Raised together with `abort` by a scoped operator cancel.
    pub operator_abort: bool,
}

impl View for Vehicle {
    type V = VehicleView;

    open spec fn view(&self) -> VehicleView {
        VehicleView {
            q: self.tasks@,
            busy: self.busy@,
            abort: self.abort,
            operator_abort: self.operator_abort,
        }
    }
}

// ---------------------------------------------------------------------------
// operations
// ---------------------------------------------------------------------------

/// Views of a list of entries with one more.
pub proof fn lemma_entries_push(v: Seq<TaskEntry>, e: TaskEntry)
    ensures
        entries(v.push(e)) == entries(v).push(e@),
{
    assert(entries(v.push(e)) =~= entries(v).push(e@));
}

/// Views of a list of entries with one removed.
pub proof fn lemma_entries_remove(v: Seq<TaskEntry>, i: int)
    requires
        0 <= i < v.len(),
    ensures
        entries(v.remove(i)) == entries(v).remove(i),
{
    assert(entries(v.remove(i)) =~= entries(v).remove(i));
}

/// Views of a list of entries with one inserted.
pub proof fn lemma_entries_insert(v: Seq<TaskEntry>, i: int, e: TaskEntry)
    requires
        0 <= i <= v.len(),
    ensures
        entries(v.insert(i, e)) == entries(v).insert(i, e@),
{
    assert(entries(v.insert(i, e)) =~= entries(v).insert(i, e@));
}

/// Views of a list of events with one more.
pub proof fn lemma_events_push(v: Seq<QueueEvent>, e: QueueEvent)
    ensures
        events(v.push(e)) == events(v).push(e@),
{
    assert(events(v.push(e)) =~= events(v).push(e@));
}

/// Keeping the last `n` after every addition is keeping the last `n` at the
/// end.
pub proof fn lemma_last_of_push<A>(s: Seq<A>, e: A, n: nat)
    requires
        n > 0,
    ensures
        last_of(last_of(s, n).push(e), n) == last_of(s.push(e), n),
{
    assert(last_of(last_of(s, n).push(e), n) =~= last_of(s.push(e), n));
}

impl QueueState {
    /// An empty queue.
    pub fn new() -> (r: Self)
        ensures
            r@ == (QueueView {
                seq: 0,
                active: None,
                pending: Seq::empty(),
                finished: Seq::empty(),
                driver_running: false,
                preempt_insert_at: None,
            }),
    {
        let r = QueueState {
            seq: 0,
            active: None,
            pending: Vec::new(),
            finished: Vec::new(),
            driver_running: false,
            preempt_insert_at: None,
        };
        assert(r@.pending =~= Seq::empty());
        assert(r@.finished =~= Seq::empty());
        r
    }

    /// The next id.
    fn next_id(&mut self) -> (r: String)
        requires
            old(self)@.seq < u64::MAX,
        ensures
            r@ == id_text(old(self)@.seq + 1),
            final(self)@ == (QueueView { seq: old(self)@.seq + 1, ..old(self)@ }),
    {
        self.seq = self.seq + 1;
        let digits = dec(self.seq);
        cat("tsk-", digits.as_str())
    }

    /// Record a terminal entry; only the most recent stay.
    fn retire(&mut self, entry: TaskEntry)
        ensures
            final(self)@ == (QueueView {
                finished: last_of(old(self)@.finished.push(entry@), FINISHED_TAIL as nat),
                ..old(self)@
            }),
    {
        proof {
            lemma_entries_push(self.finished@, entry);
        }
        let ghost all = entries(self.finished@).push(entry@);
        self.finished.push(entry);
        assert(all.skip(0) =~= all);
        while self.finished.len() > FINISHED_TAIL
            invariant
                self.finished@.len() <= all.len(),
                entries(self.finished@) == all.skip(all.len() - self.finished@.len()),
                self.finished@.len() >= FINISHED_TAIL || self.finished@.len() == all.len(),
                all == old(self)@.finished.push(entry@),
                self@ == (QueueView { finished: entries(self.finished@), ..old(self)@ }),
            decreases self.finished@.len(),
        {
            let ghost before = self.finished@;
            let _ = self.finished.remove(0);
            proof {
                lemma_entries_remove(before, 0);
                assert(entries(self.finished@) =~= all.skip(all.len() - self.finished@.len()));
            }
        }
        assert(entries(self.finished@) =~= last_of(all, FINISHED_TAIL as nat));
    }

    /// Whether there are task ids left to give out.
    pub fn ids_left(&self) -> (r: bool)
        ensures
            r == (self@.seq < u64::MAX),
    {
        self.seq < u64::MAX
    }

    /// Number of waiting tasks.
    pub fn pending_len(&self) -> (r: usize)
        ensures
            r == self@.pending.len(),
    {
        self.pending.len()
    }

    /// Id and kind of the active task.
    pub fn active_brief(&self) -> (r: Option<(String, TaskKind)>)
        ensures
            r is Some <==> self@.active is Some,
            r matches Some(b) ==> b.0@ == self@.active->0.task_id && b.1 == self@.active->0.kind,
    {
        match &self.active {
            Some(e) => Some((e.task_id.clone(), e.kind)),
            None => None,
        }
    }

    /// Ids in run order: active first, then pending.
    pub fn queue_ids(&self) -> (r: Vec<String>)
        ensures
            views(r@) == ids(self@.run_order()),
    {
        let mut out: Vec<String> = Vec::new();
        match &self.active {
            Some(e) => {
                out.push(e.task_id.clone());
            },
            None => {},
        }
        let ghost head = out@;
        let mut i: usize = 0;
        while i < self.pending.len()
            invariant
                i <= self.pending@.len(),
                out@ == head + self.pending@.take(i as int).map_values(|e: TaskEntry| e.task_id),
            decreases self.pending@.len() - i,
        {
            out.push(self.pending[i].task_id.clone());
            assert(out@ =~= head + self.pending@.take(i + 1).map_values(
                |e: TaskEntry| e.task_id,
            ));
            i = i + 1;
        }
        assert(views(out@) =~= ids(self@.run_order()));
        out
    }

    /// The durations whose sum is the time until the pending entry `upto`
    /// starts: what remains of the active task, then the estimates ahead.
    pub open spec fn eta_terms_of(q: QueueView, upto: nat) -> Seq<Real> {
        let first: Seq<Real> = match q.active {
            Some(a) => seq![
                match a.progress {
                    Some(p) => p.eta_s,
                    None => a.est_duration_s,
                },
            ],
            None => Seq::empty(),
        };
        first + q.pending.take(upto as int).map_values(|e: TaskEntryView| e.est_duration_s)
    }

    /// The durations whose sum is the time until the pending entry `upto`
    /// starts.
    pub fn eta_terms(&self, upto: usize) -> (r: Vec<Real>)
        requires
            upto <= self@.pending.len(),
        ensures
            r@ == QueueState::eta_terms_of(self@, upto as nat),
    {
        let mut out: Vec<Real> = Vec::new();
        match &self.active {
            Some(a) => {
                match &a.progress {
                    Some(p) => {
                        out.push(p.eta_s);
                    },
                    None => {
                        out.push(a.est_duration_s);
                    },
                }
            },
            None => {},
        }
        let ghost head = out@;
        let mut i: usize = 0;
        while i < upto
            invariant
                i <= upto <= self.pending@.len(),
                out@ == head + self.pending@.take(i as int).map_values(
                    |e: TaskEntry| e.est_duration_s,
                ),
            decreases upto - i,
        {
            out.push(self.pending[i].est_duration_s);
            assert(out@ =~= head + self.pending@.take(i + 1).map_values(
                |e: TaskEntry| e.est_duration_s,
            ));
            i = i + 1;
        }
        assert(out@ =~= QueueState::eta_terms_of(self@, upto as nat));
        out
    }

    /// The entry that flies.
    pub fn active(&self) -> (r: Option<&TaskEntry>)
        ensures
            r is Some <==> self@.active is Some,
            r matches Some(e) ==> e@ == self@.active->0,
    {
        match &self.active {
            Some(e) => Some(e),
            None => None,
        }
    }

    /// The waiting entry at a position.
    pub fn pending_at(&self, i: usize) -> (r: Option<&TaskEntry>)
        ensures
            r is Some <==> i < self@.pending.len(),
            r matches Some(e) ==> e@ == self@.pending[i as int],
    {
        if i < self.pending.len() {
            Some(&self.pending[i])
        } else {
            None
        }
    }

    /// The finished entry at a position, oldest first.
    pub fn finished_at(&self, i: usize) -> (r: Option<&TaskEntry>)
        ensures
            r is Some <==> i < self@.finished.len(),
            r matches Some(e) ==> e@ == self@.finished[i as int],
    {
        if i < self.finished.len() {
            Some(&self.finished[i])
        } else {
            None
        }
    }

    /// Update the live progress of the active entry, and what remains of it
    /// where the runner says so.
    pub fn note_progress(&mut self, progress: TaskProgress, resume: Option<ResumeSnapshot>) -> (r:
        bool)
        ensures
            r == old(self)@.active is Some,
            final(self)@ == (QueueView {
                active: match old(self)@.active {
                    Some(e) => Some(
                        TaskEntryView {
                            progress: Some(progress@),
                            resume: if resume is Some {
                                resume
                            } else {
                                e.resume
                            },
                            ..e
                        },
                    ),
                    None => None,
                },
                ..old(self)@
            }),
    {
        match self.active.take() {
            Some(mut e) => {
                e.progress = Some(progress);
                match resume {
                    Some(s) => {
                        e.resume = Some(s);
                    },
                    None => {},
                }
                self.active = Some(e);
                true
            },
            None => false,
        }
    }

    /// What remains of the active task, at the moment its runner observes an
    /// interruption.
    pub fn save_resume(&mut self, resume: ResumeSnapshot)
        ensures
            final(self)@ == (QueueView {
                active: match old(self)@.active {
                    Some(e) => Some(TaskEntryView { resume: Some(resume), ..e }),
                    None => None,
                },
                ..old(self)@
            }),
    {
        match self.active.take() {
            Some(mut e) => {
                e.resume = Some(resume);
                self.active = Some(e);
            },
            None => {},
        }
    }

    /// Cancel every pending entry.
    fn flush(&mut self, by: AbortedBy, out: &mut Vec<QueueEvent>)
        requires
            old(self)@.finished.len() <= FINISHED_TAIL,
        ensures
            final(self)@ == flushed(old(self)@),
            events(final(out)@) == events(old(out)@) + abort_events(old(self)@.pending, by),
    {
        let ghost all = self@.pending;
        let ghost fin = self@.finished;
        let ghost start = events(out@);
        self.preempt_insert_at = None;
        let ghost mut done: int = 0;
        proof {
            assert(all.skip(0) =~= all);
            assert(fin + aborted(all.take(0)) =~= fin);
            assert(start + abort_events(all.take(0), by) =~= start);
        }
        while self.pending.len() > 0
            invariant
                0 <= done <= all.len(),
                entries(self.pending@) == all.skip(done),
                self@ == (QueueView {
                    pending: all.skip(done),
                    finished: last_of(fin + aborted(all.take(done)), FINISHED_TAIL as nat),
                    preempt_insert_at: None,
                    ..old(self)@
                }),
                events(out@) == start + abort_events(all.take(done), by),
                all == old(self)@.pending,
            decreases self.pending@.len(),
        {
            let ghost before = self.pending@;
            let mut entry = self.pending.remove(0);
            proof {
                lemma_entries_remove(before, 0);
                assert(all.skip(done).remove(0) =~= all.skip(done + 1));
                assert(entries(before)[0] == all.skip(done)[0]);
                assert(entry@ == all[done]);
            }
            entry.state = TaskState::Aborted;
            let event = QueueEvent::TaskAborted {
                task_id: entry.task_id.clone(),
                kind: entry.kind,
                by,
            };
            proof {
                lemma_events_push(out@, event);
                assert(abort_events(all.take(done + 1), by) =~= abort_events(
                    all.take(done),
                    by,
                ).push(event@));
                assert((start + abort_events(all.take(done), by)).push(event@) =~= start
                    + abort_events(all.take(done + 1), by));
                lemma_last_of_push(fin + aborted(all.take(done)), entry@, FINISHED_TAIL as nat);
                assert((fin + aborted(all.take(done))).push(entry@) =~= fin + aborted(
                    all.take(done + 1),
                ));
            }
            out.push(event);
            self.retire(entry);
            proof {
                done = done + 1;
            }
        }
        proof {
            assert(done == all.len());
            assert(all.take(done) =~= all);
            assert(all.skip(done) =~= Seq::empty());
        }
    }

    /// Remove a pending entry by id, or identify the active one.
    pub fn abort_by_id(&mut self, task_id: &str) -> (r: (ById, Vec<QueueEvent>))
        ensures
            ({
                let step = abort_by_id_step(old(self)@, task_id@);
                &&& final(self)@ == step.0
                &&& r.0 == step.1
                &&& events(r.1@) == step.2
            }),
    {
        let mut out: Vec<QueueEvent> = Vec::new();
        assert(events(out@) =~= Seq::empty());
        match &self.active {
            Some(active) => {
                if same(active.task_id.as_str(), task_id) {
                    return (ById::Active(active.kind), out);
                }
            },
            None => {},
        }
        let mut i: usize = 0;
        assert(self@.pending.skip(0) =~= self@.pending);
        while i < self.pending.len()
            invariant
                i <= self.pending@.len(),
                *self == *old(self),
                events(out@) == Seq::<QueueEventView>::empty(),
                !(self@.active is Some && self@.active->0.task_id == task_id@),
                position_of(self@.pending, task_id@) == i + position_of(
                    self@.pending.skip(i as int),
                    task_id@,
                ),
            decreases self.pending@.len() - i,
        {
            assert(self@.pending.skip(i as int)[0] == self@.pending[i as int]);
            if same(self.pending[i].task_id.as_str(), task_id) {
                let ghost before = self.pending@;
                let mut entry = self.pending.remove(i);
                proof {
                    lemma_entries_remove(before, i as int);
                }
                entry.state = TaskState::Aborted;
                let event = QueueEvent::TaskAborted {
                    task_id: entry.task_id.clone(),
                    kind: entry.kind,
                    by: AbortedBy::Operator,
                };
                proof {
                    lemma_events_push(out@, event);
                    assert(Seq::<QueueEventView>::empty().push(event@) =~= seq![event@]);
                }
                out.push(event);
                self.retire(entry);
                return (ById::Pending, out);
            }
            assert(self@.pending.skip(i as int).skip(1) =~= self@.pending.skip(i + 1));
            i = i + 1;
        }
        (ById::Unknown, out)
    }

    /// The driver looks for work: the active task, or it stands down.
    pub fn next_runnable(&mut self) -> (r: Option<(String, TaskParams)>)
        ensures
            r is Some <==> old(self)@.active is Some,
            r matches Some(t) ==> t.0@ == old(self)@.active->0.task_id && t.1@
                == old(self)@.active->0.params,
            final(self)@ == (QueueView {
                driver_running: old(self)@.driver_running && old(self)@.active is Some,
                ..old(self)@
            }),
    {
        match &self.active {
            Some(e) => Some((e.task_id.clone(), e.params.clone())),
            None => {
                self.driver_running = false;
                None
            },
        }
    }

    /// The driver stands down.
    pub fn driver_stopped(&mut self)
        ensures
            final(self)@ == (QueueView { driver_running: false, ..old(self)@ }),
    {
        self.driver_running = false;
    }

    /// What would remain of the active task if it were displaced now.
    pub fn continuation_params(&self) -> (r: Option<TaskParams>)
        requires
            self@.active is Some ==> remainder_fits(self@.active->0),
        ensures
            self@.active is None ==> r is None,
            self@.active is Some ==> (r is Some <==> remainder_of(self@.active->0) is Some),
            r matches Some(p) ==> remainder_of(self@.active->0) == Some(p@),
    {
        match &self.active {
            Some(e) => remainder(e),
            None => None,
        }
    }
}

/// What remains of a preempted task.
fn remainder(entry: &TaskEntry) -> (r: Option<TaskParams>)
    requires
        remainder_fits(entry@),
    ensures
        r is Some <==> remainder_of(entry@) is Some,
        r matches Some(p) ==> remainder_of(entry@) == Some(p@),
{
    match (&entry.params, entry.resume) {
        (
            TaskParams::Raster { req, start_leg, skip_captures },
            Some(ResumeSnapshot::Raster { leg, fired_in_leg }),
        ) => Some(
            TaskParams::Raster {
                req: req.clone(),
                start_leg: *start_leg + leg,
                skip_captures: if leg == 0 {
                    *skip_captures + fired_in_leg
                } else {
                    fired_in_leg
                },
            },
        ),
        (
            TaskParams::Investigate { req },
            Some(ResumeSnapshot::Investigate { remaining_turns }),
        ) => {
            if remaining_turns.le(&(Real { bits: TURNS_FINISHED_BITS })) {
                None
            } else {
                let mut rest = req.clone();
                rest.turns = remaining_turns;
                Some(TaskParams::Investigate { req: rest })
            }
        },
        (params, _) => Some(params.clone()),
    }
}

impl Vehicle {
    /// An idle vehicle with an empty queue.
    pub fn new() -> (r: Self)
        ensures
            r@.q.seq == 0,
            r@.q.active is None,
            r@.q.pending == Seq::<TaskEntryView>::empty(),
            r@.q.finished == Seq::<TaskEntryView>::empty(),
            !r@.q.driver_running,
            r@.q.preempt_insert_at is None,
            r@.busy == Seq::<char>::empty(),
            !r@.abort,
            !r@.operator_abort,
    {
        Vehicle {
            tasks: QueueState::new(),
            busy: String::new(),
            abort: false,
            operator_abort: false,
        }
    }

    /// Submit a task. On an idle vehicle this occupies it: busy label set,
    /// abort flags cleared, so the acceptance is a race-free claim.
    pub fn submit(
        &mut self,
        enabled: bool,
        depth: usize,
        params: TaskParams,
        origin: TaskOrigin,
        now_ns: u64,
        est: Real,
    ) -> (r: (Submit, Vec<QueueEvent>))
        requires
            old(self)@.q.seq < u64::MAX,
        ensures
            ({
                let step = submit_step(
                    old(self)@,
                    enabled,
                    depth as nat,
                    params@,
                    origin,
                    now_ns,
                    est,
                );
                &&& final(self)@ == step.0
                &&& r.0@ == step.1
                &&& events(r.1@) == step.2
            }),
    {
        let mut out: Vec<QueueEvent> = Vec::new();
        assert(events(out@) =~= Seq::empty());
        if !enabled {
            return (Submit::Disabled, out);
        }
        if same(self.busy.as_str(), RTL) {
            return (Submit::RtlOwned, out);
        }
        let kind = params.kind();
        let idle = self.tasks.active.is_none() && self.busy.as_str().is_empty();
        if !idle && self.tasks.pending.len() >= depth {
            out.push(QueueEvent::TaskRefused { kind, depth });
            assert(events(out@) =~= seq![
                QueueEventView::TaskRefused { kind, depth: depth as nat },
            ]);
            return (Submit::Full { depth }, out);
        }
        let position: usize = self.tasks.pending.len();
        let task_id = self.tasks.next_id();
        let entry = TaskEntry {
            task_id: task_id.clone(),
            kind,
            params,
            state: if idle {
                TaskState::Active
            } else {
                TaskState::Pending
            },
            origin,
            parent: None,
            enqueued_ns: now_ns,
            started_ns: if idle {
                Some(now_ns)
            } else {
                None
            },
            progress: None,
            resume: None,
            est_duration_s: est,
        };
        if idle {
            out.push(
                QueueEvent::TaskQueued { task_id: task_id.clone(), kind, origin, position: 0 },
            );
            out.push(QueueEvent::TaskStarted { task_id: task_id.clone(), kind });
            assert(events(out@) =~= seq![
                QueueEventView::TaskQueued { task_id: task_id@, kind, origin, position: 0 },
                QueueEventView::TaskStarted { task_id: task_id@, kind },
            ]);
            self.busy = kind.as_str().to_owned();
            self.abort = false;
            self.operator_abort = false;
            self.tasks.active = Some(entry);
            let spawn_driver = !self.tasks.driver_running;
            self.tasks.driver_running = true;
            (Submit::Started { task_id, spawn_driver }, out)
        } else {
            proof {
                lemma_entries_push(self.tasks.pending@, entry);
            }
            self.tasks.pending.push(entry);
            let ahead: usize = self.tasks.pending.len();
            out.push(
                QueueEvent::TaskQueued { task_id: task_id.clone(), kind, origin, position: ahead },
            );
            assert(events(out@) =~= seq![
                QueueEventView::TaskQueued {
                    task_id: task_id@,
                    kind,
                    origin,
                    position: ahead as nat,
                },
            ]);
            (Submit::Queued { task_id, ahead }, out)
        }
    }

    /// Start the front entry after a non-queue owner released the vehicle.
    /// `Some(spawn_driver)` when a task started.
    pub fn kick(&mut self, now_ns: u64) -> (r: (Option<bool>, Vec<QueueEvent>))
        ensures
            ({
                let step = kick_step(old(self)@, now_ns);
                &&& final(self)@ == step.0
                &&& r.0 == step.1
                &&& events(r.1@) == step.2
            }),
    {
        let mut out: Vec<QueueEvent> = Vec::new();
        assert(events(out@) =~= Seq::empty());
        if self.tasks.active.is_some() || self.tasks.pending.len() == 0 || self.abort
            || !self.busy.as_str().is_empty() {
            return (None, out);
        }
        self.start_front(now_ns, &mut out);
        let spawn_driver = !self.tasks.driver_running;
        self.tasks.driver_running = true;
        (Some(spawn_driver), out)
    }

    /// Move the front pending entry to the active slot.
    fn start_front(&mut self, now_ns: u64, out: &mut Vec<QueueEvent>)
        requires
            old(self)@.q.pending.len() > 0,
        ensures
            ({
                let next = starting(old(self)@.q.pending[0], now_ns);
                &&& final(self)@ == (VehicleView {
                    q: QueueView {
                        active: Some(next),
                        pending: old(self)@.q.pending.skip(1),
                        ..old(self)@.q
                    },
                    busy: next.kind.text(),
                    operator_abort: false,
                    ..old(self)@
                })
                &&& events(final(out)@) == events(old(out)@) + seq![
                    QueueEventView::TaskStarted { task_id: next.task_id, kind: next.kind },
                ]
            }),
    {
        let ghost before = self.tasks.pending@;
        let mut next = self.tasks.pending.remove(0);
        proof {
            lemma_entries_remove(before, 0);
            assert(entries(before).remove(0) =~= entries(before).skip(1));
            assert(entries(before)[0] == before[0]@);
        }
        self.busy = next.kind.as_str().to_owned();
        self.operator_abort = false;
        next.state = TaskState::Active;
        next.started_ns = Some(now_ns);
        let event = QueueEvent::TaskStarted { task_id: next.task_id.clone(), kind: next.kind };
        proof {
            lemma_events_push(out@, event);
            assert(events(out@).push(event@) =~= events(out@) + seq![event@]);
        }
        out.push(event);
        self.tasks.active = Some(next);
    }

    /// Cancel every pending entry: the ladder is a blanket stop.
    pub fn flush_pending(&mut self, by: AbortedBy) -> (r: Vec<QueueEvent>)
        requires
            old(self)@.q.finished.len() <= FINISHED_TAIL,
        ensures
            final(self)@ == (VehicleView { q: flushed(old(self)@.q), ..old(self)@ }),
            events(r@) == abort_events(old(self)@.q.pending, by),
    {
        let mut out: Vec<QueueEvent> = Vec::new();
        self.tasks.flush(by, &mut out);
        assert(events(Seq::<QueueEvent>::empty()) + abort_events(old(self)@.q.pending, by)
            =~= abort_events(old(self)@.q.pending, by));
        out
    }

    /// Remote-control engage arbitration.
    pub fn rc_seize(&mut self, arm_gesture: bool, pause_allowed: bool) -> (r: RcSeize)
        ensures
            ({
                let step = rc_seize_step(old(self)@, arm_gesture, pause_allowed);
                &&& final(self)@ == step.0
                &&& r@ == step.1
            }),
    {
        if self.busy.as_str().is_empty() {
            self.busy = RC_MANUAL.to_owned();
            self.abort = false;
            self.operator_abort = false;
            return RcSeize::Engaged;
        }
        if !arm_gesture {
            return RcSeize::Refused {
                busy: self.busy.clone(),
                reason: SeizeRefusal::ArmGestureRequired,
            };
        }
        if same(self.busy.as_str(), RTL) {
            return RcSeize::Refused {
                busy: self.busy.clone(),
                reason: SeizeRefusal::RtlOwnsVehicle,
            };
        }
        if !pause_allowed {
            return RcSeize::Refused {
                busy: self.busy.clone(),
                reason: SeizeRefusal::PreemptDenied,
            };
        }
        let paused: Option<String> = match &self.tasks.active {
            Some(active) => if same(active.kind.as_str(), self.busy.as_str()) {
                Some(active.task_id.clone())
            } else {
                None
            },
            None => None,
        };
        match paused {
            Some(paused_task_id) => {
                self.tasks.preempt_insert_at = Some(0);
                self.operator_abort = false;
                self.abort = true;
                self.busy = RC_MANUAL.to_owned();
                RcSeize::EngagedPaused { paused_task_id }
            },
            None => RcSeize::Refused {
                busy: self.busy.clone(),
                reason: SeizeRefusal::UnpausableOwner,
            },
        }
    }

    /// Terminal bookkeeping for the active task and the hand-over to the next
    /// one. `est` is the estimated duration of the continuation, should one
    /// be queued; `cancelled` says that the agent shuts down.
    pub fn on_task_end(
        &mut self,
        outcome: FlightOutcome,
        cancelled: bool,
        now_ns: u64,
        est: Real,
    ) -> (r: (AfterTask, Vec<QueueEvent>))
        requires
            old(self)@.q.seq < u64::MAX,
            old(self)@.q.active is Some ==> remainder_fits(old(self)@.q.active->0),
        ensures
            ({
                let step = task_end_step(old(self)@, outcome, cancelled, now_ns, est);
                &&& final(self)@ == step.0
                &&& r.0 == step.1
                &&& events(r.1@) == step.2
            }),
    {
        let mut out: Vec<QueueEvent> = Vec::new();
        assert(events(out@) =~= Seq::empty());
        let operator = outcome == FlightOutcome::Aborted && self.operator_abort;
        if outcome == FlightOutcome::Aborted {
            self.operator_abort = false;
        }
        let mut entry = match self.tasks.active.take() {
            Some(e) => e,
            None => {
                assert(self@ =~= task_end_step(old(self)@, outcome, cancelled, now_ns, est).0);
                return (AfterTask::Stop, out);
            },
        };
        let kind = entry.kind;
        let preempt: Option<usize> = if outcome == FlightOutcome::Aborted && !operator {
            self.tasks.preempt_insert_at
        } else {
            None
        };
        self.tasks.preempt_insert_at = None;
        let (state, continue_queue) = match outcome {
            FlightOutcome::Completed => (TaskState::Done, true),
            FlightOutcome::TimedOut => (TaskState::Failed, true),
            FlightOutcome::Aborted => if operator {
                (TaskState::Aborted, true)
            } else if preempt.is_some() {
                (TaskState::Done, true)
            } else {
                (TaskState::Aborted, false)
            },
        };
        let rest: Option<TaskParams> = if preempt.is_some() {
            remainder(&entry)
        } else {
            None
        };
        entry.state = state;
        let ended = if state == TaskState::Aborted {
            QueueEvent::TaskAborted {
                task_id: entry.task_id.clone(),
                kind,
                by: if operator {
                    AbortedBy::Operator
                } else {
                    AbortedBy::Ladder
                },
            }
        } else {
            QueueEvent::TaskCompleted {
                task_id: entry.task_id.clone(),
                kind,
                outcome,
                split: preempt.is_some(),
            }
        };
        proof {
            lemma_events_push(out@, ended);
        }
        out.push(ended);
        if preempt.is_some() || operator {
            self.abort = false;
        }
        match (preempt, rest) {
            (Some(insert_at), Some(params)) => {
                let continuation = self.tasks.next_id();
                let split = QueueEvent::TaskSplit {
                    task_id: entry.task_id.clone(),
                    continuation: continuation.clone(),
                    insert_at,
                };
                proof {
                    lemma_events_push(out@, split);
                }
                out.push(split);
                let cont = TaskEntry {
                    task_id: continuation,
                    kind,
                    params,
                    state: TaskState::Pending,
                    origin: TaskOrigin::Split,
                    parent: Some(entry.task_id.clone()),
                    enqueued_ns: now_ns,
                    started_ns: None,
                    progress: None,
                    resume: None,
                    est_duration_s: est,
                };
                let at: usize = if insert_at < self.tasks.pending.len() {
                    insert_at
                } else {
                    self.tasks.pending.len()
                };
                proof {
                    lemma_entries_insert(self.tasks.pending@, at as int, cont);
                }
                self.tasks.pending.insert(at, cont);
            },
            _ => {},
        }
        self.tasks.retire(entry);
        let ghost settled = settle(old(self)@, outcome, now_ns, est);
        proof {
            assert(self@ =~= settled.0);
            assert(events(out@) =~= settled.1);
        }
        let after = self.hand_over_after(kind, !continue_queue || cancelled, now_ns, &mut out);
        (after, out)
    }

    /// The hand-over after a settled task.
    fn hand_over_after(
        &mut self,
        kind: TaskKind,
        stop: bool,
        now_ns: u64,
        out: &mut Vec<QueueEvent>,
    ) -> (r: AfterTask)
        requires
            old(self)@.q.finished.len() <= FINISHED_TAIL,
        ensures
            ({
                let step = hand_over(old(self)@, kind, stop, now_ns);
                &&& final(self)@ == step.0
                &&& r == step.1
                &&& events(final(out)@) == events(old(out)@) + step.2
            }),
    {
        assert(events(out@) + Seq::<QueueEventView>::empty() =~= events(out@));
        if stop || self.abort {
            self.tasks.flush(AbortedBy::Ladder, out);
            return AfterTask::Stop;
        }
        if !self.busy.as_str().is_empty() && !same(self.busy.as_str(), kind.as_str()) {
            if !same(self.busy.as_str(), RC_MANUAL) {
                self.tasks.flush(AbortedBy::Ladder, out);
            }
            return AfterTask::Stop;
        }
        if self.tasks.pending.len() > 0 {
            self.start_front(now_ns, out);
            AfterTask::Next
        } else {
            self.busy = String::new();
            AfterTask::Idle(kind)
        }
    }
}

// ---------------------------------------------------------------------------
// reorder
// ---------------------------------------------------------------------------

/// Why a reorder is refused.
#[derive(Debug)]
pub enum ReorderError {
    Empty,
    /// The ids given are not exactly those of the queue.
    NotPermutation { current: Vec<String> },
}

impl ReorderError {
    /// Human-readable reason.
    pub open spec fn detail_text(self) -> Seq<char> {
        match self {
            ReorderError::Empty => "queue is empty"@,
            ReorderError::NotPermutation { current } =>
                "ordered_task_ids must be a permutation of the current queue ["@ + id_list_text(
                    views(current@),
                ) + "]"@,
        }
    }

    /// Human-readable reason.
    pub fn detail(&self) -> (r: String)
        ensures
            r@ == self.detail_text(),
    {
        match self {
            ReorderError::Empty => "queue is empty".to_owned(),
            ReorderError::NotPermutation { current } => {
                let mut list = String::new();
                let ghost all = views(current@);
                let mut i: usize = 0;
                assert(all.take(0) =~= Seq::empty());
                while i < current.len()
                    invariant
                        i <= current@.len(),
                        all == views(current@),
                        list@ == id_list_text(all.take(i as int)),
                    decreases current@.len() - i,
                {
                    if i > 0 {
                        list.append(", ");
                    }
                    list.append("\"");
                    list.append(current[i].as_str());
                    list.append("\"");
                    proof {
                        assert(all.take(i + 1).drop_last() =~= all.take(i as int));
                        assert(all.take(i + 1).last() == current@[i as int]@);
                        if i == 0 {
                            assert(list@ =~= "\""@ + current@[0]@ + "\""@);
                        }
                    }
                    i = i + 1;
                }
                assert(all.take(i as int) =~= all);
                let mut s = cat(
                    "ordered_task_ids must be a permutation of the current queue [",
                    list.as_str(),
                );
                s.append("]");
                s
            },
        }
    }
}

/// Moving an item from one list to the end of another keeps what they hold
/// together.
proof fn lemma_move<A>(a: Seq<A>, pool: Seq<A>, j: int)
    requires
        0 <= j < pool.len(),
    ensures
        a.push(pool[j]).to_multiset().add(pool.remove(j).to_multiset()) == a.to_multiset().add(
            pool.to_multiset(),
        ),
{
    broadcast use vstd::multiset::group_multiset_axioms;

    a.to_multiset_ensures();
    pool.to_multiset_ensures();
    assert(pool.contains(pool[j]));
    assert(pool.to_multiset().count(pool[j]) > 0);
    assert(a.push(pool[j]).to_multiset() =~= a.to_multiset().insert(pool[j]));
    assert(pool.remove(j).to_multiset() =~= pool.to_multiset().remove(pool[j]));
    assert(a.push(pool[j]).to_multiset().add(pool.remove(j).to_multiset())
        =~= a.to_multiset().add(pool.to_multiset()));
}

/// Equal multisets of items without duplicates: no duplicates either.
pub proof fn lemma_permutation_distinct(a: Seq<Seq<char>>, b: Seq<Seq<char>>)
    requires
        b.no_duplicates(),
        a.to_multiset() == b.to_multiset(),
    ensures
        a.no_duplicates(),
        a.len() == b.len(),
        forall|x: Seq<char>| a.contains(x) <==> b.contains(x),
{
    broadcast use vstd::seq_lib::group_to_multiset_ensures;

    b.lemma_multiset_has_no_duplicates();
    a.lemma_multiset_has_no_duplicates_conv();
    a.to_multiset_ensures();
    b.to_multiset_ensures();
    assert forall|x: Seq<char>| a.contains(x) <==> b.contains(x) by {
        assert(a.contains(x) <==> a.to_multiset().count(x) > 0);
        assert(b.contains(x) <==> b.to_multiset().count(x) > 0);
    }
}

/// Leaving out one item of a list without duplicates.
pub proof fn lemma_without(s: Seq<Seq<char>>, x: Option<Seq<char>>)
    requires
        s.no_duplicates(),
    ensures
        without(s, x).len() == s.len() - (if x is Some && s.contains(x->0) {
            1int
        } else {
            0int
        }),
        forall|y: Seq<char>| without(s, x).contains(y) <==> s.contains(y) && Some(y) != x,
    decreases s.len(),
{
    if s.len() > 0 {
        let t = s.drop_last();
        assert(t.no_duplicates());
        lemma_without(t, x);
        assert(s =~= t.push(s.last()));
        assert(!t.contains(s.last())) by {
            if t.contains(s.last()) {
                let i = choose|i: int| 0 <= i < t.len() && t[i] == s.last();
                assert(s[i] == s[s.len() - 1]);
            }
        }
        assert forall|y: Seq<char>| s.contains(y) <==> t.contains(y) || y == s.last() by {
            if s.contains(y) {
                let i = choose|i: int| 0 <= i < s.len() && s[i] == y;
                if i < t.len() {
                    assert(t[i] == y);
                }
            }
            if t.contains(y) {
                let i = choose|i: int| 0 <= i < t.len() && t[i] == y;
                assert(s[i] == y);
            }
            if y == s.last() {
                assert(s[s.len() - 1] == y);
            }
        }
        let w = without(t, x);
        assert forall|y: Seq<char>| without(s, x).contains(y) <==> s.contains(y) && Some(y)
            != x by {
            if Some(s.last()) != x {
                let ws = w.push(s.last());
                if ws.contains(y) {
                    let i = choose|i: int| 0 <= i < ws.len() && ws[i] == y;
                    if i < w.len() {
                        assert(w[i] == y);
                        assert(w.contains(y));
                    }
                }
                if w.contains(y) {
                    let i = choose|i: int| 0 <= i < w.len() && w[i] == y;
                    assert(ws[i] == y);
                }
                assert(ws[ws.len() - 1] == s.last());
            }
        }
    } else {
        assert(!s.contains(x->0));
    }
}

/// Whether the two lists hold the same strings, each as often.
fn is_permutation(want: &Vec<String>, have: &Vec<String>) -> (r: bool)
    ensures
        r == (views(want@).to_multiset() == views(have@).to_multiset()),
{
    broadcast use vstd::seq_lib::group_to_multiset_ensures;

    let ghost w = views(want@);
    let ghost h = views(have@);
    let mut left = copy_strings(have);
    let mut i: usize = 0;
    assert(w.take(0) =~= Seq::empty());
    assert(w.take(0).to_multiset().add(h.to_multiset()) =~= h.to_multiset());
    while i < want.len()
        invariant
            i <= want@.len(),
            w == views(want@),
            h == views(have@),
            w.take(i as int).to_multiset().add(views(left@).to_multiset())
                == h.to_multiset(),
        decreases want@.len() - i,
    {
        let ghost l = views(left@);
        let mut j: usize = 0;
        while j < left.len() && !same(left[j].as_str(), want[i].as_str())
            invariant
                j <= left@.len(),
                i < want@.len(),
                forall|k: int| 0 <= k < j ==> (#[trigger] left@[k])@ != want@[i as int]@,
            decreases left@.len() - j,
        {
            j = j + 1;
        }
        if j == left.len() {
            proof {
                let x = want@[i as int]@;
                assert(!l.contains(x)) by {
                    if l.contains(x) {
                        let k = choose|k: int| 0 <= k < l.len() && l[k] == x;
                        assert(left@[k]@ == x);
                    }
                }
                l.to_multiset_ensures();
                assert(l.to_multiset().count(x) == 0);
                assert(w.take(i + 1) =~= w.take(i as int).push(x));
                w.take(i as int).to_multiset_ensures();
                assert(w.take(i + 1).to_multiset() =~= w.take(i as int).to_multiset().insert(x));
                assert(h.to_multiset().count(x) == w.take(i as int).to_multiset().count(x)
                    + l.to_multiset().count(x));
                assert(w.take(i + 1).to_multiset().count(x) > h.to_multiset().count(x));
                assert(w =~= w.take(i + 1) + w.skip(i + 1));
                vstd::seq_lib::lemma_multiset_commutative(w.take(i + 1), w.skip(i + 1));
                assert(w.to_multiset().count(x) > h.to_multiset().count(x));
            }
            return false;
        }
        let _ = left.remove(j);
        proof {
            let x = want@[i as int]@;
            assert(views(left@) =~= l.remove(j as int));
            assert(l[j as int] == x);
            assert(w.take(i + 1) =~= w.take(i as int).push(x));
            lemma_move(w.take(i as int), l, j as int);
        }
        i = i + 1;
    }
    assert(w.take(i as int) =~= w);
    proof {
        let l = views(left@);
        if left@.len() > 0 {
            assert(l.contains(l[0]));
            assert(l.to_multiset().count(l[0]) > 0);
            assert(w.to_multiset().count(l[0]) < h.to_multiset().count(l[0]));
        } else {
            assert(l =~= Seq::empty());
            assert(w.to_multiset().add(l.to_multiset()) =~= w.to_multiset());
        }
    }
    left.len() == 0
}

impl Vehicle {
    /// Apply a full-queue reorder. `ordered_ids` must be exactly the ids of
    /// the queue, the active one included, in any order. Displacing the
    /// active id from the front suspends the active task: the abort flag is
    /// raised, and the end of the task queues its remainder at the id's new
    /// position. Returns whether a split was triggered.
    pub fn reorder(&mut self, ordered_ids: &Vec<String>) -> (r: Result<
        (bool, Vec<QueueEvent>),
        ReorderError,
    >)
        requires
            queue_inv(old(self)@.q),
        ensures
            ({
                let order = views(ordered_ids@);
                let current = ids(old(self)@.q.run_order());
                match r {
                    Ok((split, out)) => {
                        &&& current.len() > 0
                        &&& order.to_multiset() == current.to_multiset()
                        &&& reordered(old(self)@.q, order, final(self)@.q)
                        &&& split == displaces(old(self)@.q, order)
                        &&& final(self)@ == (VehicleView {
                            q: final(self)@.q,
                            abort: old(self)@.abort || split,
                            ..old(self)@
                        })
                        &&& events(out@) == seq![QueueEventView::QueueReordered { order, split }]
                    },
                    Err(ReorderError::Empty) => current.len() == 0 && final(self)@ == old(self)@,
                    Err(ReorderError::NotPermutation { current: listed }) => {
                        &&& current.len() > 0
                        &&& order.to_multiset() != current.to_multiset()
                        &&& views(listed@) == current
                        &&& final(self)@ == old(self)@
                    },
                }
            }),
    {
        let current = self.tasks.queue_ids();
        if current.len() == 0 {
            assert(views(current@).len() == 0);
            return Err(ReorderError::Empty);
        }
        assert(views(current@).len() == current@.len());
        if !is_permutation(ordered_ids, &current) {
            return Err(ReorderError::NotPermutation { current });
        }
        let ghost order = views(ordered_ids@);
        let ghost q0 = self@.q;
        let ghost run = ids(q0.run_order());
        proof {
            lemma_permutation_distinct(order, run);
        }
        let active_id: Option<String> = match &self.tasks.active {
            Some(e) => Some(e.task_id.clone()),
            None => None,
        };
        let split = match &active_id {
            Some(id) => ordered_ids.len() > 0 && !same(
                ordered_ids[0].as_str(),
                id.as_str(),
            ),
            None => false,
        };
        self.arrange(ordered_ids, &active_id);
        if split {
            match &active_id {
                Some(id) => {
                    let at: usize = place(ordered_ids, id);
                    self.tasks.preempt_insert_at = Some(at);
                    self.abort = true;
                },
                None => {},
            }
        }
        let mut out: Vec<QueueEvent> = Vec::new();
        let event = QueueEvent::QueueReordered {
            order: copy_strings(ordered_ids),
            split,
        };
        out.push(event);
        assert(events(out@) =~= seq![QueueEventView::QueueReordered { order, split }]);
        Ok((split, out))
    }

    /// Put the pending entries in the order of `ordered_ids`.
    fn arrange(&mut self, ordered_ids: &Vec<String>, active: &Option<String>)
        requires
            queue_inv(old(self)@.q),
            views(ordered_ids@).no_duplicates(),
            views(ordered_ids@).to_multiset() == ids(
                old(self)@.q.run_order(),
            ).to_multiset(),
            (match active {
                Some(id) => Some(id@),
                None => None,
            }) == active_id(old(self)@.q),
        ensures
            final(self)@ == (VehicleView {
                q: QueueView { pending: final(self)@.q.pending, ..old(self)@.q },
                ..old(self)@
            }),
            final(self)@.q.pending.to_multiset() == old(self)@.q.pending.to_multiset(),
            ids(final(self)@.q.pending) == without(
                views(ordered_ids@),
                active_id(old(self)@.q),
            ),
    {
        broadcast use vstd::seq_lib::group_to_multiset_ensures;

        let ghost order = views(ordered_ids@);
        let ghost q0 = self@.q;
        let ghost p0 = q0.pending;
        let ghost act = active_id(q0);
        let ghost run = ids(q0.run_order());
        proof {
            lemma_permutation_distinct(order, run);
        }
        let mut arranged: Vec<TaskEntry> = Vec::new();
        let mut i: usize = 0;
        proof {
            assert(entries(arranged@) =~= Seq::empty());
            assert(order.take(0) =~= Seq::empty());
            assert(ids(entries(arranged@)) =~= without(order.take(0), act));
            assert(entries(arranged@).to_multiset().add(p0.to_multiset()) =~= p0.to_multiset());
        }
        while i < ordered_ids.len()
            invariant
                i <= ordered_ids@.len(),
                order == views(ordered_ids@),
                order.no_duplicates(),
                run == ids(q0.run_order()),
                run.no_duplicates(),
                forall|x: Seq<char>| order.contains(x) <==> run.contains(x),
                p0 == q0.pending,
                act == active_id(q0),
                (match active {
                    Some(id) => Some(id@),
                    None => None,
                }) == act,
                self@ == (VehicleView { q: QueueView { pending: self@.q.pending, ..q0 }, ..old(
                    self,
                )@ }),
                ids(entries(arranged@)) == without(order.take(i as int), act),
                entries(arranged@).to_multiset().add(self@.q.pending.to_multiset())
                    == p0.to_multiset(),
            decreases ordered_ids@.len() - i,
        {
            let ghost x = order[i as int];
            let is_active = match active {
                Some(id) => same(id.as_str(), ordered_ids[i].as_str()),
                None => false,
            };
            proof {
                assert(order.take(i + 1).drop_last() =~= order.take(i as int));
                assert(order.take(i + 1).last() == x);
            }
            if !is_active {
                let ghost pool = self@.q.pending;
                let mut j: usize = 0;
                while j < self.tasks.pending.len() && !same(
                    self.tasks.pending[j].task_id.as_str(),
                    ordered_ids[i].as_str(),
                )
                    invariant
                        j <= self.tasks.pending@.len(),
                        i < ordered_ids@.len(),
                        x == ordered_ids@[i as int]@,
                        pool == self@.q.pending,
                        pool == entries(self.tasks.pending@),
                        forall|k: int| 0 <= k < j ==> (#[trigger] pool[k]).task_id != x,
                        self@ == (VehicleView {
                            q: QueueView { pending: self@.q.pending, ..q0 },
                            ..old(self)@
                        }),
                    decreases self.tasks.pending@.len() - j,
                {
                    assert(pool[j as int].task_id == self.tasks.pending@[j as int].task_id@);
                    j = j + 1;
                }
                proof {
                    if j == pool.len() {
                        lemma_still_waiting(
                            q0,
                            order,
                            i as int,
                            entries(arranged@),
                            pool,
                        );
                        let k = choose|k: int| 0 <= k < pool.len() && pool[k].task_id == x;
                        assert(pool[k].task_id != x);
                    }
                }
                let ghost before = self.tasks.pending@;
                let entry = self.tasks.pending.remove(j);
                proof {
                    lemma_entries_remove(before, j as int);
                    lemma_entries_push(arranged@, entry);
                    assert(entry@ == pool[j as int]);
                    assert(entry@.task_id == x);
                    assert(ids(entries(arranged@).push(entry@)) =~= ids(entries(arranged@)).push(
                        x,
                    ));
                    lemma_move(entries(arranged@), pool, j as int);
                }
                arranged.push(entry);
            }
            i = i + 1;
        }
        proof {
            assert(order.take(i as int) =~= order);
            lemma_without(order, act);
            assert(entries(arranged@).len() == ids(entries(arranged@)).len());
            if act is Some {
                assert(run[0] == act->0);
                assert(run.contains(act->0));
            }
            assert(order.len() == run.len());
            assert(entries(arranged@).len() == p0.len());
            let pool = self@.q.pending;
            assert(entries(arranged@).to_multiset().add(pool.to_multiset()).len()
                == entries(arranged@).to_multiset().len() + pool.to_multiset().len());
            assert(pool.len() == 0);
            assert(pool =~= Seq::empty());
            assert(entries(arranged@).to_multiset().add(pool.to_multiset()) =~= entries(
                arranged@,
            ).to_multiset());
        }
        self.tasks.pending = arranged;
    }
}

/// While entries are being arranged, one that the order names next, other
/// than the active one, is still waiting.
proof fn lemma_still_waiting(
    q0: QueueView,
    order: Seq<Seq<char>>,
    i: int,
    arranged: Seq<TaskEntryView>,
    pool: Seq<TaskEntryView>,
)
    requires
        0 <= i < order.len(),
        order.no_duplicates(),
        forall|x: Seq<char>| order.contains(x) <==> ids(q0.run_order()).contains(x),
        Some(order[i]) != active_id(q0),
        ids(arranged) == without(order.take(i), active_id(q0)),
        arranged.to_multiset().add(pool.to_multiset()) == q0.pending.to_multiset(),
    ensures
        exists|k: int| 0 <= k < pool.len() && (#[trigger] pool[k]).task_id == order[i],
{
    broadcast use vstd::seq_lib::group_to_multiset_ensures;

    let x = order[i];
    let run = q0.run_order();
    assert(order.contains(x));
    assert(ids(run).contains(x));
    let m = choose|m: int| 0 <= m < ids(run).len() && ids(run)[m] == x;
    let e = run[m];
    assert(e.task_id == x);
    assert(q0.pending.contains(e)) by {
        match q0.active {
            Some(a) => {
                assert(m > 0);
                assert(q0.pending[m - 1] == e);
            },
            None => {
                assert(q0.pending[m] == e);
            },
        }
    }
    assert(q0.pending.to_multiset().count(e) > 0);
    if arranged.to_multiset().count(e) > 0 {
        assert(arranged.contains(e));
        let a = choose|a: int| 0 <= a < arranged.len() && arranged[a] == e;
        assert(ids(arranged)[a] == x);
        assert(ids(arranged).contains(x));
        assert(order.take(i).no_duplicates());
        lemma_without(order.take(i), active_id(q0));
        assert(order.take(i).contains(x));
        let b = choose|b: int| 0 <= b < order.take(i).len() && order.take(i)[b] == x;
        assert(order[b] == order[i]);
        assert(false);
    }
    assert(pool.to_multiset().count(e) > 0);
    assert(pool.contains(e));
    let k = choose|k: int| 0 <= k < pool.len() && pool[k] == e;
    assert(pool[k].task_id == x);
}

/// First place of `x` in `list`, or the length.
fn place(list: &Vec<String>, x: &String) -> (r: usize)
    ensures
        r == place_of(views(list@), x@),
{
    let ghost all = views(list@);
    let mut i: usize = 0;
    assert(all.skip(0) =~= all);
    while i < list.len()
        invariant
            i <= list@.len(),
            all == views(list@),
            place_of(all, x@) == i + place_of(all.skip(i as int), x@),
        decreases list@.len() - i,
    {
        assert(all.skip(i as int)[0] == list@[i as int]@);
        if same(list[i].as_str(), x.as_str()) {
            return i;
        }
        assert(all.skip(i as int).skip(1) =~= all.skip(i + 1));
        i = i + 1;
    }
    i
}

} // verus!
