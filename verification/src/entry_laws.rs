//! What becomes of the entries of a queue: what a submission writes down, which
//! entry an operation takes, and what is left of a task that gave way.

use vstd::prelude::*;

use crate::mission::FlightOutcome;
use crate::quantity::Real;
use crate::queue::lemma_permutation_distinct;
use crate::queue_laws::{lemma_place, lemma_position, lemma_without_is_remove};
use crate::queue_model::{
    abort_by_id_step, flushed, id_text, ids, kick_step, place_of, position_of,
    queue_inv, rc_seize_step, remainder_of, reordered, settle, submit_step, task_end_step, without,
    AbortedBy, AfterTask, ById, QueueEventView, QueueView, RcSeizeView, ResumeSnapshot,
    SeizeRefusal, SubmitView, TaskEntryView, TaskParamsView, VehicleView,
};
use crate::services::InvestigateRequestView;
use crate::tasks::{TaskKind, TaskOrigin, TaskState};
use crate::text::dec_text;

verus! {

/// The words under which refusals, cancels and ids are journaled.
pub proof fn journaled_words_are_these(n: nat)
    ensures
        AbortedBy::Operator.text() == "operator"@,
        AbortedBy::Ladder.text() == "ladder"@,
        AbortedBy::RcFailsafe.text() == "rc-failsafe"@,
        SeizeRefusal::ArmGestureRequired.text() == "arm-gesture-required"@,
        SeizeRefusal::RtlOwnsVehicle.text() == "rtl-owns-vehicle"@,
        SeizeRefusal::PreemptDenied.text() == "preempt-denied"@,
        SeizeRefusal::UnpausableOwner.text() == "unpausable-owner"@,
        id_text(n) == "tsk-"@ + dec_text(n),
{
}

/// What an accepted submission writes down: the task as asked, under the next
/// id, stamped with the time it came; started on the spot or pending, and
/// journaled with the number of tasks before it.
pub proof fn submissions_write_down_what_was_asked(
    v: VehicleView,
    depth: nat,
    params: TaskParamsView,
    origin: TaskOrigin,
    now_ns: u64,
    est: Real,
)
    ensures
        ({
            let (w, r, ev) = submit_step(v, true, depth, params, origin, now_ns, est);
            let e = if r is Started {
                w.q.active->0
            } else {
                w.q.pending.last()
            };
            &&& r is Started || r is Queued ==> {
                &&& w.q.seq == v.q.seq + 1
                &&& e.task_id == "tsk-"@ + dec_text(v.q.seq + 1)
                &&& e.kind == params.kind() && e.params == params && e.origin == origin
                &&& e.parent is None && e.progress is None && e.resume is None
                &&& e.enqueued_ns == now_ns && e.est_duration_s == est
                &&& w.q.finished == v.q.finished
                &&& w.q.preempt_insert_at == v.q.preempt_insert_at
                &&& ev.len() > 0 && ev[0] == QueueEventView::TaskQueued {
                    task_id: e.task_id,
                    kind: params.kind(),
                    origin,
                    position: if r is Started {
                        0
                    } else {
                        v.q.pending.len() + 1
                    },
                }
            }
            &&& r matches SubmitView::Started { task_id, spawn_driver } ==> {
                &&& task_id == e.task_id && spawn_driver == !v.q.driver_running
                &&& e.state == TaskState::Active && e.started_ns == Some(now_ns)
                &&& w.q.driver_running && w.q.pending == v.q.pending
                &&& ev.len() == 2 && ev[1] == (QueueEventView::TaskStarted {
                    task_id,
                    kind: params.kind(),
                })
            }
            &&& r matches SubmitView::Queued { task_id, ahead } ==> {
                &&& task_id == e.task_id && ahead == v.q.pending.len() + 1
                &&& e.state == TaskState::Pending && e.started_ns is None
                &&& w.q.driver_running == v.q.driver_running && w.q.active == v.q.active
                &&& w.q.pending == v.q.pending.push(e) && ev.len() == 1
            }
            &&& r matches SubmitView::Full { depth: d } ==> d == depth && ev == seq![
                QueueEventView::TaskRefused { kind: params.kind(), depth },
            ]
        }),
{
}

/// An idle vehicle takes up the entry at the front of its queue, and only an
/// idle one does: nothing flies, nobody owns it and no stop is on.
pub proof fn idle_vehicles_take_up_the_front(v: VehicleView, now_ns: u64)
    ensures
        ({
            let (w, spawn, ev) = kick_step(v, now_ns);
            let ready = v.q.active is None && v.busy.len() == 0 && !v.abort && v.q.pending.len()
                > 0;
            &&& spawn is Some <==> ready
            &&& !ready ==> w == v && ev.len() == 0
            &&& ready ==> {
                let front = v.q.pending[0];
                let e = w.q.active->0;
                &&& w.q.active is Some && w.q.pending == v.q.pending.drop_first()
                &&& e == (TaskEntryView {
                    state: TaskState::Active,
                    started_ns: Some(now_ns),
                    ..front
                })
                &&& w.busy == front.kind.text() && !w.abort && !w.operator_abort
                &&& w.q.finished == v.q.finished && w.q.seq == v.q.seq && w.q.driver_running
                &&& spawn == Some(!v.q.driver_running)
                &&& ev == seq![
                    QueueEventView::TaskStarted { task_id: front.task_id, kind: front.kind },
                ]
            }
        }),
{
    if v.q.pending.len() > 0 {
        assert(v.q.pending.skip(1) =~= v.q.pending.drop_first());
    }
}

proof fn lemma_first_position(s: Seq<TaskEntryView>, id: Seq<char>)
    ensures
        forall|i: int|
            0 <= i < position_of(s, id) && i < s.len() ==> (#[trigger] s[i]).task_id != id,
    decreases s.len(),
{
    if s.len() > 0 && s[0].task_id != id {
        let t = s.skip(1);
        lemma_first_position(t, id);
        assert forall|i: int| 0 <= i < position_of(s, id) && i < s.len() implies (
        #[trigger] s[i]).task_id != id by {
            if i > 0 {
                assert(t[i - 1] == s[i]);
            }
        }
    }
}

/// Cancelling by id takes the entry of that id out of the waiting ones and no
/// other, records it as cancelled by the operator, and leaves the task in
/// flight to its own abort. Of the finished entries the last eight are kept.
pub proof fn cancels_by_id_take_that_entry(q: QueueView, id: Seq<char>, k: int)
    ensures
        ({
            let (w, found, ev) = abort_by_id_step(q, id);
            let flying = q.active is Some && q.active->0.task_id == id;
            let first = 0 <= k < q.pending.len() && q.pending[k].task_id == id && forall|i: int|
                0 <= i < k ==> (#[trigger] q.pending[i]).task_id != id;
            &&& found is Active <==> flying
            &&& flying ==> found == ById::Active(q.active->0.kind)
            &&& (forall|i: int| 0 <= i < q.pending.len() ==> (#[trigger] q.pending[i]).task_id != id)
                && !flying ==> found is Unknown
            &&& found !is Pending ==> w == q && ev.len() == 0
            &&& first && !flying ==> {
                &&& found is Pending
                &&& w.pending == q.pending.remove(k)
                &&& w.finished.last() == (TaskEntryView {
                    state: TaskState::Aborted,
                    ..q.pending[k]
                })
                &&& w.finished.len() == if q.finished.len() < 8 {
                    q.finished.len() + 1
                } else {
                    8
                }
                &&& ev == seq![
                    QueueEventView::TaskAborted {
                        task_id: id,
                        kind: q.pending[k].kind,
                        by: AbortedBy::Operator,
                    },
                ]
                &&& w.active == q.active && w.seq == q.seq
                &&& w.driver_running == q.driver_running
            }
        }),
{
    lemma_position(q.pending, id);
    lemma_first_position(q.pending, id);
    let p = q.pending;
    let at = position_of(p, id);
    if at < p.len() {
        assert(p[at].task_id == id);
    }
    if 0 <= k < p.len() && p[k].task_id == id {
        assert(ids(p)[k] == id);
    }
}

/// A blanket stop cancels every waiting entry: each of the last eight that
/// ended, the cancelled ones last, is kept with its state.
pub proof fn stops_cancel_every_waiting_entry(q: QueueView)
    ensures
        ({
            let w = flushed(q);
            let n = (q.finished.len() + q.pending.len()) as int;
            let kept = if n < 8 {
                n
            } else {
                8
            };
            &&& w.pending.len() == 0 && w.preempt_insert_at is None
            &&& w.active == q.active && w.seq == q.seq && w.driver_running == q.driver_running
            &&& w.finished.len() == kept
            &&& forall|i: int|
                0 <= i < kept ==> #[trigger] w.finished[i] == (if i + n - kept
                    < q.finished.len() {
                    q.finished[i + n - kept]
                } else {
                    TaskEntryView {
                        state: TaskState::Aborted,
                        ..q.pending[i + n - kept - q.finished.len()]
                    }
                })
        }),
{
}

/// What is left of a task that gave way: a survey resumes at the leg it
/// reached, without the captures that leg has fired; an inspection flies the
/// turns that remain, if more than a fiftieth of one does; anything else, and
/// a task that never got going, is flown whole.
pub proof fn tasks_resume_where_they_stopped(e: TaskEntryView)
    ensures
        ({
            let r = remainder_of(e);
            &&& e.params matches TaskParamsView::Raster { req, start_leg, skip_captures } ==> {
                let (leg, fired) = match e.resume {
                    Some(ResumeSnapshot::Raster { leg, fired_in_leg }) => (
                        leg as nat,
                        fired_in_leg as nat,
                    ),
                    _ => (0nat, 0nat),
                };
                r == Some(
                    TaskParamsView::Raster {
                        req,
                        start_leg: start_leg + leg,
                        skip_captures: fired + if leg == 0 {
                            skip_captures
                        } else {
                            0nat
                        },
                    },
                )
            }
            &&& e.params matches TaskParamsView::Investigate { req } ==> {
                let fiftieth = Real { bits: 0x3f94_7ae1_47ae_147b };
                match e.resume {
                    Some(ResumeSnapshot::Investigate { remaining_turns: left }) => {
                        let done = !left.is_nan() && left.key() <= fiftieth.key();
                        &&& r is None <==> done
                        &&& !done ==> r == Some(
                            TaskParamsView::Investigate {
                                req: InvestigateRequestView { turns: left, ..req },
                            },
                        )
                    },
                    _ => r == Some(e.params),
                }
            }
            &&& e.params is SensorOverride ==> r == Some(e.params)
        }),
{
    assert(!Real { bits: 0x3f94_7ae1_47ae_147b }.is_nan());
}

/// What the continuation of a task that gave way looks like: a pending entry
/// of its own id, split off and naming its parent, at the place the queue kept
/// for it or at the end; both sides are journaled.
pub proof fn continuations_are_entries_of_their_own(v: VehicleView, now_ns: u64, est: Real)
    requires
        v.q.active is Some,
        v.q.preempt_insert_at is Some,
        !v.operator_abort,
        remainder_of(v.q.active->0) is Some,
    ensures
        ({
            let (w, ev) = settle(v, FlightOutcome::Aborted, now_ns, est);
            let parent = v.q.active->0;
            let at = if v.q.preempt_insert_at->0 < v.q.pending.len() {
                v.q.preempt_insert_at->0 as int
            } else {
                v.q.pending.len() as int
            };
            let c = w.q.pending[at];
            &&& w.q.pending == v.q.pending.insert(at, c)
            &&& c.task_id == id_text(v.q.seq + 1) && w.q.seq == v.q.seq + 1
            &&& c.state == TaskState::Pending && c.started_ns is None
            &&& c.origin == TaskOrigin::Split && c.parent == Some(parent.task_id)
            &&& c.kind == parent.kind && Some(c.params) == remainder_of(parent)
            &&& c.enqueued_ns == now_ns && c.est_duration_s == est
            &&& c.progress is None && c.resume is None
            &&& !w.abort && w.q.active is None && w.q.preempt_insert_at is None
            &&& ev == seq![
                QueueEventView::TaskCompleted {
                    task_id: parent.task_id,
                    kind: parent.kind,
                    outcome: FlightOutcome::Aborted,
                    split: true,
                },
                QueueEventView::TaskSplit {
                    task_id: parent.task_id,
                    continuation: c.task_id,
                    insert_at: v.q.preempt_insert_at->0,
                },
            ]
        }),
{
}

/// Who has the vehicle after a flight that ended by itself. A stop, or another
/// command that owns it by now, ends the run and cancels what waits, except
/// that manual control leaves the queue as it is; otherwise the front entry
/// follows, and with none left the vehicle is released.
pub proof fn ended_flights_hand_the_vehicle_over(
    v: VehicleView,
    outcome: FlightOutcome,
    cancelled: bool,
    now_ns: u64,
    est: Real,
)
    requires
        v.q.active is Some,
        outcome != FlightOutcome::Aborted,
    ensures
        ({
            let (w, after, ev) = task_end_step(v, outcome, cancelled, now_ns, est);
            let kind = v.q.active->0.kind;
            let stop = cancelled || v.abort;
            let foreign = v.busy.len() > 0 && v.busy != kind.text();
            let manual = v.busy == "rc-manual"@;
            let goes_on = !stop && !foreign;
            &&& after is Stop <==> !goes_on
            &&& after is Next <==> goes_on && v.q.pending.len() > 0
            &&& after is Idle <==> goes_on && v.q.pending.len() == 0
            &&& after is Idle ==> after == AfterTask::Idle(kind) && w.busy.len() == 0 && w.q.active
                is None
            &&& after is Next ==> {
                let front = v.q.pending[0];
                &&& w.q.active == Some(
                    TaskEntryView {
                        state: TaskState::Active,
                        started_ns: Some(now_ns),
                        ..front
                    },
                )
                &&& w.q.pending == v.q.pending.drop_first() && w.busy == front.kind.text()
                &&& !w.operator_abort
                &&& ev.last() == (QueueEventView::TaskStarted {
                    task_id: front.task_id,
                    kind: front.kind,
                })
            }
            &&& after is Stop ==> w.q.active is None && w.busy == v.busy
            &&& after is Stop && !stop && manual ==> w.q.pending == v.q.pending && ev.len() == 1
            &&& after is Stop && (stop || !manual) ==> {
                &&& w.q.pending.len() == 0
                &&& ev.len() == v.q.pending.len() + 1
                &&& forall|i: int|
                    0 <= i < v.q.pending.len() ==> #[trigger] ev[i + 1] == (
                    QueueEventView::TaskAborted {
                        task_id: v.q.pending[i].task_id,
                        kind: v.q.pending[i].kind,
                        by: AbortedBy::Ladder,
                    })
            }
            &&& ev[0] == (QueueEventView::TaskCompleted {
                task_id: v.q.active->0.task_id,
                kind,
                outcome,
                split: false,
            })
            &&& w.abort == v.abort && w.q.driver_running == v.q.driver_running
            &&& w.q.seq == v.q.seq
        }),
{
    TaskKind::labels_are_distinct(v.q.active->0.kind, v.q.active->0.kind);
    if v.q.pending.len() > 0 {
        assert(v.q.pending.skip(1) =~= v.q.pending.drop_first());
    }
}

/// When remote control gets the vehicle and why not: an idle one at once; an
/// occupied one only with the deliberate gesture, never from a return to
/// launch, with the permission to pause, and only if the queue's own task
/// flies it. The paused task keeps the front place for its remainder.
pub proof fn engages_follow_the_rules(v: VehicleView, arm_gesture: bool, pause_allowed: bool)
    ensures
        ({
            let (w, r) = rc_seize_step(v, arm_gesture, pause_allowed);
            let idle = v.busy.len() == 0;
            let own = v.q.active is Some && v.q.active->0.kind.text() == v.busy;
            let home = v.busy == "rtl"@;
            &&& r is Engaged <==> idle
            &&& r is EngagedPaused <==> !idle && arm_gesture && pause_allowed && own
            &&& r is Engaged ==> w == (VehicleView {
                busy: "rc-manual"@,
                abort: false,
                operator_abort: false,
                ..v
            })
            &&& r is EngagedPaused ==> {
                &&& r->paused_task_id == v.q.active->0.task_id
                &&& w.busy == "rc-manual"@ && w.abort && !w.operator_abort
                &&& w.q == (QueueView { preempt_insert_at: Some(0), ..v.q })
            }
            &&& r matches RcSeizeView::Refused { busy, reason } ==> {
                &&& w == v && busy == v.busy
                &&& reason == SeizeRefusal::ArmGestureRequired <==> !arm_gesture
                &&& reason == SeizeRefusal::RtlOwnsVehicle <==> arm_gesture && home
                &&& reason == SeizeRefusal::PreemptDenied <==> arm_gesture && !home
                    && !pause_allowed
                &&& reason == SeizeRefusal::UnpausableOwner <==> arm_gesture && !home
                    && pause_allowed && !own
            }
        }),
{
    reveal_strlit("rtl");
    if v.q.active is Some {
        TaskKind::labels_are_distinct(v.q.active->0.kind, v.q.active->0.kind);
    }
}

/// A reorder runs the tasks in the order asked for: with the task in flight
/// first, the run order is that order; otherwise the others wait in it, and
/// the place of the task in flight is kept for its remainder. Only the waiting
/// entries move, and no entry changes.
pub proof fn reorders_run_in_the_order_asked(q0: QueueView, order: Seq<Seq<char>>, q1: QueueView)
    requires
        queue_inv(q0),
        order.to_multiset() == ids(q0.run_order()).to_multiset(),
        reordered(q0, order, q1),
    ensures
        q1.active == q0.active && q1.finished == q0.finished && q1.seq == q0.seq,
        q1.driver_running == q0.driver_running,
        q1.pending.to_multiset() == q0.pending.to_multiset(),
        q0.active is None ==> ids(q1.pending) == order && q1.preempt_insert_at
            == q0.preempt_insert_at,
        q0.active is Some && order[0] == q0.active->0.task_id ==> ids(q1.run_order()) == order
            && q1.preempt_insert_at == q0.preempt_insert_at,
        q0.active is Some && order[0] != q0.active->0.task_id ==> {
            &&& q1.preempt_insert_at is Some && 0 < q1.preempt_insert_at->0 < order.len()
            &&& order[q1.preempt_insert_at->0 as int] == q0.active->0.task_id
            &&& ids(q1.pending) == order.remove(q1.preempt_insert_at->0 as int)
        },
{
    let run = ids(q0.run_order());
    lemma_permutation_distinct(order, run);
    match q0.active {
        None => {
            lemma_without_none(order);
        },
        Some(a) => {
            assert(run[0] == a.task_id);
            assert(run.contains(a.task_id));
            lemma_place(order, a.task_id);
            lemma_without_is_remove(order, a.task_id);
            let at = place_of(order, a.task_id);
            if order[0] == a.task_id {
                assert(at == 0);
                assert(ids(q1.run_order()) =~= seq![a.task_id] + ids(q1.pending));
                assert(seq![a.task_id] + order.remove(0) =~= order);
            }
        },
    }
}

proof fn lemma_without_none(s: Seq<Seq<char>>)
    ensures
        without(s, None) == s,
    decreases s.len(),
{
    if s.len() > 0 {
        lemma_without_none(s.drop_last());
        assert(s.drop_last().push(s.last()) =~= s);
    }
}

} // verus!
