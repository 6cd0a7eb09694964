//! What the task queue promises across operations.

use vstd::prelude::*;

use crate::mission::FlightOutcome;
use crate::quantity::Real;
use crate::queue::{lemma_permutation_distinct, lemma_without};
use crate::queue_model::{
    AbortedBy, AfterTask, FINISHED_TAIL, QueueEventView, QueueView, RC_MANUAL, RTL, RcSeizeView,
    TaskEntryView, TaskParamsView, VehicleView, abort_by_id_step, abort_events, aborted, active_id,
    displaces, end_state, flushed, given_out, id_text, ids, kick_step, place_of, position_of,
    preempted_at, queue_inv, rc_seize_step, remainder_of, reordered, settle, starting, submit_step,
    task_end_step, with_state, without,
};
use crate::tasks::{TaskKind, TaskOrigin, TaskState};
use crate::text::{dec_text, lemma_dec_injective};

verus! {

// ---------------------------------------------------------------------------
// ids
// ---------------------------------------------------------------------------

/// Ids are never reused: different numbers give different ids.
pub proof fn ids_are_unique(a: nat, b: nat)
    ensures
        id_text(a) == id_text(b) ==> a == b,
{
    if id_text(a) == id_text(b) {
        let p = "tsk-"@;
        assert(id_text(a).skip(p.len() as int) =~= dec_text(a));
        assert(id_text(b).skip(p.len() as int) =~= dec_text(b));
        lemma_dec_injective(a, b);
    }
}

/// The next id is not in the queue.
proof fn lemma_fresh(q: QueueView)
    requires
        queue_inv(q),
    ensures
        !ids(q.run_order()).contains(id_text(q.seq + 1)),
{
    if ids(q.run_order()).contains(id_text(q.seq + 1)) {
        let s = ids(q.run_order());
        let i = choose|i: int| 0 <= i < s.len() && s[i] == id_text(q.seq + 1);
        assert(given_out(q.run_order()[i].task_id, q.seq));
        let n = choose|n: nat| 1 <= n <= q.seq && q.run_order()[i].task_id == id_text(n);
        ids_are_unique(n, q.seq + 1);
    }
}

/// One fresh entry more in the run order.
proof fn lemma_one_more(q0: QueueView, q1: QueueView, at: int, e: TaskEntryView)
    requires
        queue_inv(q0),
        0 <= at <= q0.run_order().len(),
        q1.run_order() == q0.run_order().insert(at, e),
        e.task_id == id_text(q0.seq + 1),
        q1.seq == q0.seq + 1,
    ensures
        ids(q1.run_order()).no_duplicates(),
        forall|i: int|
            0 <= i < q1.run_order().len() ==> given_out(
                #[trigger] q1.run_order()[i].task_id,
                q1.seq,
            ),
{
    lemma_fresh(q0);
    let a = ids(q0.run_order());
    let b = ids(q1.run_order());
    let x = e.task_id;
    assert(b =~= a.insert(at, x));
    assert forall|i: int, j: int| 0 <= i < b.len() && 0 <= j < b.len() && i != j implies b[i]
        != b[j] by {
        let oi = if i < at {
            i
        } else {
            i - 1
        };
        let oj = if j < at {
            j
        } else {
            j - 1
        };
        if i == at {
            assert(b[j] == a[oj]);
            assert(a.contains(a[oj]));
        } else if j == at {
            assert(b[i] == a[oi]);
            assert(a.contains(a[oi]));
        } else {
            assert(b[i] == a[oi] && b[j] == a[oj]);
        }
    }
    assert forall|i: int| 0 <= i < q1.run_order().len() implies given_out(
        #[trigger] q1.run_order()[i].task_id,
        q1.seq,
    ) by {
        if i == at {
            assert(1 <= q1.seq && x == id_text(q1.seq));
        } else {
            let o = if i < at {
                i
            } else {
                i - 1
            };
            assert(q1.run_order()[i] == q0.run_order()[o]);
            assert(given_out(q0.run_order()[o].task_id, q0.seq));
            let n = choose|n: nat|
                1 <= n <= q0.seq && q0.run_order()[o].task_id == #[trigger] id_text(n);
            assert(1 <= n <= q1.seq && q1.run_order()[i].task_id == id_text(n));
        }
    }
}

/// One entry less in the run order.
proof fn lemma_one_less(q0: QueueView, q1: QueueView, at: int)
    requires
        queue_inv(q0),
        0 <= at < q0.run_order().len(),
        ids(q1.run_order()) == ids(q0.run_order()).remove(at),
        q1.seq == q0.seq,
    ensures
        ids(q1.run_order()).no_duplicates(),
        forall|i: int|
            0 <= i < q1.run_order().len() ==> given_out(
                #[trigger] q1.run_order()[i].task_id,
                q1.seq,
            ),
{
    let a = ids(q0.run_order());
    let b = ids(q1.run_order());
    assert forall|i: int, j: int| 0 <= i < b.len() && 0 <= j < b.len() && i != j implies b[i]
        != b[j] by {
        let oi = if i < at {
            i
        } else {
            i + 1
        };
        let oj = if j < at {
            j
        } else {
            j + 1
        };
        assert(b[i] == a[oi] && b[j] == a[oj]);
    }
    assert forall|i: int| 0 <= i < q1.run_order().len() implies given_out(
        #[trigger] q1.run_order()[i].task_id,
        q1.seq,
    ) by {
        let o = if i < at {
            i
        } else {
            i + 1
        };
        assert(b[i] == a[o]);
        assert(q1.run_order()[i].task_id == q0.run_order()[o].task_id);
    }
}

/// The same ids in the run order.
proof fn lemma_same_ids(q0: QueueView, q1: QueueView)
    requires
        queue_inv(q0),
        ids(q1.run_order()) == ids(q0.run_order()),
        q1.seq == q0.seq,
    ensures
        ids(q1.run_order()).no_duplicates(),
        forall|i: int|
            0 <= i < q1.run_order().len() ==> given_out(
                #[trigger] q1.run_order()[i].task_id,
                q1.seq,
            ),
{
    assert forall|i: int| 0 <= i < q1.run_order().len() implies given_out(
        #[trigger] q1.run_order()[i].task_id,
        q1.seq,
    ) by {
        assert(ids(q1.run_order()).len() == q1.run_order().len());
        assert(ids(q0.run_order()).len() == q0.run_order().len());
        assert(ids(q1.run_order())[i] == q1.run_order()[i].task_id);
        assert(ids(q0.run_order())[i] == q0.run_order()[i].task_id);
        assert(given_out(q0.run_order()[i].task_id, q0.seq));
    }
}

// ---------------------------------------------------------------------------
// every operation keeps the invariant
// ---------------------------------------------------------------------------

/// A new vehicle's queue meets the invariant.
pub proof fn new_queue_is_valid(q: QueueView)
    requires
        q.seq == 0,
        q.active is None,
        q.pending == Seq::<TaskEntryView>::empty(),
        q.finished == Seq::<TaskEntryView>::empty(),
    ensures
        queue_inv(q),
{
    assert(ids(q.run_order()) =~= Seq::empty());
}

/// A submission keeps the invariant.
pub proof fn submit_keeps_queue_valid(
    v: VehicleView,
    enabled: bool,
    depth: nat,
    params: TaskParamsView,
    origin: TaskOrigin,
    now_ns: u64,
    est: Real,
)
    requires
        queue_inv(v.q),
    ensures
        queue_inv(submit_step(v, enabled, depth, params, origin, now_ns, est).0.q),
{
    let w = submit_step(v, enabled, depth, params, origin, now_ns, est).0;
    if w.q.seq != v.q.seq {
        if w.q.active is Some && v.q.active is None {
            assert(w.q.run_order() =~= v.q.run_order().insert(0, w.q.active->0));
            lemma_one_more(v.q, w.q, 0, w.q.active->0);
        } else {
            let e = w.q.pending.last();
            assert(w.q.run_order() =~= v.q.run_order().insert(v.q.run_order().len() as int, e));
            lemma_one_more(v.q, w.q, v.q.run_order().len() as int, e);
        }
    }
}

/// Promoting the front entry keeps the invariant.
pub proof fn kick_keeps_queue_valid(v: VehicleView, now_ns: u64)
    requires
        queue_inv(v.q),
    ensures
        queue_inv(kick_step(v, now_ns).0.q),
{
    let w = kick_step(v, now_ns).0;
    if w != v {
        assert(ids(w.q.run_order()) =~= ids(v.q.run_order()));
        lemma_same_ids(v.q, w.q);
    }
}

/// Flushing keeps the invariant.
pub proof fn flush_keeps_queue_valid(q: QueueView)
    requires
        queue_inv(q),
    ensures
        queue_inv(flushed(q)),
{
    let w = flushed(q);
    match q.active {
        Some(e) => {
            assert(w.run_order() =~= seq![e]);
            assert(ids(w.run_order()) =~= seq![e.task_id]);
            assert(q.run_order()[0] == e);
            assert(given_out(q.run_order()[0].task_id, q.seq));
        },
        None => {
            assert(ids(w.run_order()) =~= Seq::empty());
        },
    }
}

/// Aborting by id keeps the invariant.
pub proof fn abort_by_id_keeps_queue_valid(q: QueueView, id: Seq<char>)
    requires
        queue_inv(q),
    ensures
        queue_inv(abort_by_id_step(q, id).0),
{
    let w = abort_by_id_step(q, id).0;
    let k = position_of(q.pending, id);
    lemma_position(q.pending, id);
    if w != q {
        let at = if q.active is Some {
            k + 1
        } else {
            k
        };
        assert(ids(w.run_order()) =~= ids(q.run_order()).remove(at));
        lemma_one_less(q, w, at);
        assert forall|i: int| 0 <= i < w.pending.len() implies (#[trigger] w.pending[i]).state
            == TaskState::Pending && w.pending[i].kind == w.pending[i].params.kind() by {
            let o = if i < k {
                i
            } else {
                i + 1
            };
            assert(w.pending[i] == q.pending[o]);
        }
    }
}

/// Where an id stands in a list of entries.
pub proof fn lemma_position(s: Seq<TaskEntryView>, id: Seq<char>)
    ensures
        0 <= position_of(s, id) <= s.len(),
        position_of(s, id) < s.len() ==> s[position_of(s, id)].task_id == id,
        position_of(s, id) == s.len() ==> !ids(s).contains(id),
    decreases s.len(),
{
    if s.len() > 0 && s[0].task_id != id {
        lemma_position(s.skip(1), id);
        if position_of(s, id) < s.len() {
            assert(s[position_of(s, id)] == s.skip(1)[position_of(s, id) - 1]);
        } else if ids(s).contains(id) {
            let i = choose|i: int| 0 <= i < ids(s).len() && ids(s)[i] == id;
            assert(i > 0);
            assert(ids(s.skip(1))[i - 1] == id);
            assert(ids(s.skip(1)).contains(id));
        }
    } else if s.len() == 0 {
        assert(!ids(s).contains(id));
    }
}

/// Remote-control arbitration keeps the invariant.
pub proof fn rc_seize_keeps_queue_valid(v: VehicleView, arm_gesture: bool, pause_allowed: bool)
    requires
        queue_inv(v.q),
    ensures
        queue_inv(rc_seize_step(v, arm_gesture, pause_allowed).0.q),
{
    let w = rc_seize_step(v, arm_gesture, pause_allowed).0;
    assert(w.q.run_order() =~= v.q.run_order());
    lemma_same_ids(v.q, w.q);
}

/// Settling an ended task keeps the invariant.
pub proof fn settle_keeps_queue_valid(
    v: VehicleView,
    outcome: FlightOutcome,
    now_ns: u64,
    est: Real,
)
    requires
        queue_inv(v.q),
        v.q.active is Some,
    ensures
        queue_inv(settle(v, outcome, now_ns, est).0.q),
{
    let w = settle(v, outcome, now_ns, est).0;
    let mid = QueueView { active: None, ..v.q };
    assert(ids(mid.run_order()) =~= ids(v.q.run_order()).remove(0));
    lemma_one_less(v.q, mid, 0);
    assert(queue_inv(mid));
    let preempt = preempted_at(v, outcome);
    if preempt is Some && remainder_of(v.q.active->0) is Some {
        let at = if preempt->0 < v.q.pending.len() {
            preempt->0 as int
        } else {
            v.q.pending.len() as int
        };
        let cont = w.q.pending[at];
        assert(w.q.run_order() =~= mid.run_order().insert(at, cont));
        lemma_one_more(mid, w.q, at, cont);
        assert forall|i: int| 0 <= i < w.q.pending.len() implies (#[trigger] w.q.pending[i]).state
            == TaskState::Pending && w.q.pending[i].kind == w.q.pending[i].params.kind() by {
            if i != at {
                let o = if i < at {
                    i
                } else {
                    i - 1
                };
                assert(w.q.pending[i] == v.q.pending[o]);
            }
        }
    } else {
        assert(w.q.run_order() =~= mid.run_order());
        lemma_same_ids(mid, w.q);
    }
}

/// The end of a task keeps the invariant.
pub proof fn task_end_keeps_queue_valid(
    v: VehicleView,
    outcome: FlightOutcome,
    cancelled: bool,
    now_ns: u64,
    est: Real,
)
    requires
        queue_inv(v.q),
    ensures
        queue_inv(task_end_step(v, outcome, cancelled, now_ns, est).0.q),
{
    if v.q.active is Some {
        settle_keeps_queue_valid(v, outcome, now_ns, est);
        let s = settle(v, outcome, now_ns, est).0;
        flush_keeps_queue_valid(s.q);
        let w = task_end_step(v, outcome, cancelled, now_ns, est).0;
        if w.q.active is Some {
            assert(ids(w.q.run_order()) =~= ids(s.q.run_order()));
            lemma_same_ids(s.q, w.q);
        }
    }
}

/// A reorder keeps the invariant.
pub proof fn reorder_keeps_queue_valid(q0: QueueView, order: Seq<Seq<char>>, q1: QueueView)
    requires
        queue_inv(q0),
        order.to_multiset() == ids(q0.run_order()).to_multiset(),
        reordered(q0, order, q1),
    ensures
        queue_inv(q1),
{
    broadcast use vstd::seq_lib::group_to_multiset_ensures;

    lemma_permutation_distinct(order, ids(q0.run_order()));
    lemma_without(order, active_id(q0));
    let b = ids(q1.run_order());
    assert forall|i: int| 0 <= i < q1.pending.len() implies q0.pending.contains(
        #[trigger] q1.pending[i],
    ) by {
        assert(q1.pending.contains(q1.pending[i]));
        assert(q1.pending.to_multiset().count(q1.pending[i]) > 0);
    }
    assert forall|i: int| 0 <= i < q1.run_order().len() implies given_out(
        #[trigger] q1.run_order()[i].task_id,
        q1.seq,
    ) by {
        match q1.active {
            Some(a) => {
                if i == 0 {
                    assert(q0.run_order()[0] == a);
                    assert(given_out(q0.run_order()[0].task_id, q0.seq));
                } else {
                    lemma_pending_given_out(q0, q1.pending[i - 1]);
                }
            },
            None => {
                lemma_pending_given_out(q0, q1.pending[i]);
            },
        }
    }
    assert forall|i: int| 0 <= i < q1.pending.len() implies (#[trigger] q1.pending[i]).state
        == TaskState::Pending && q1.pending[i].kind == q1.pending[i].params.kind() by {
        let k = choose|k: int| 0 <= k < q0.pending.len() && q0.pending[k] == q1.pending[i];
        assert(q0.pending[k].state == TaskState::Pending);
    }
    lemma_without_distinct(order, active_id(q0));
    match q1.active {
        Some(a) => {
            assert(b =~= seq![a.task_id] + without(order, active_id(q0)));
            let w = without(order, active_id(q0));
            assert forall|i: int, j: int|
                0 <= i < b.len() && 0 <= j < b.len() && i != j implies b[i] != b[j] by {
                if i == 0 {
                    assert(b[j] == w[j - 1]);
                    assert(w.contains(w[j - 1]));
                } else if j == 0 {
                    assert(b[i] == w[i - 1]);
                    assert(w.contains(w[i - 1]));
                } else {
                    assert(b[i] == w[i - 1] && b[j] == w[j - 1]);
                }
            }
        },
        None => {
            assert(b =~= without(order, active_id(q0)));
        },
    }
}

proof fn lemma_pending_given_out(q: QueueView, e: TaskEntryView)
    requires
        queue_inv(q),
        q.pending.contains(e),
    ensures
        given_out(e.task_id, q.seq),
{
    let k = choose|k: int| 0 <= k < q.pending.len() && q.pending[k] == e;
    let at = if q.active is Some {
        k + 1
    } else {
        k
    };
    assert(q.run_order()[at] == e);
    assert(given_out(q.run_order()[at].task_id, q.seq));
}

/// Leaving an item out brings no duplicates in.
proof fn lemma_without_distinct(s: Seq<Seq<char>>, x: Option<Seq<char>>)
    requires
        s.no_duplicates(),
    ensures
        without(s, x).no_duplicates(),
    decreases s.len(),
{
    if s.len() > 0 {
        let t = s.drop_last();
        assert(t.no_duplicates());
        lemma_without_distinct(t, x);
        lemma_without(t, x);
        let w = without(t, x);
        if Some(s.last()) != x {
            assert(!w.contains(s.last())) by {
                if w.contains(s.last()) {
                    assert(t.contains(s.last()));
                    let i = choose|i: int| 0 <= i < t.len() && t[i] == s.last();
                    assert(s[i] == s[s.len() - 1]);
                }
            }
            let ws = w.push(s.last());
            assert forall|i: int, j: int|
                0 <= i < ws.len() && 0 <= j < ws.len() && i != j implies ws[i] != ws[j] by {
                if i == w.len() {
                    assert(w.contains(w[j]));
                } else if j == w.len() {
                    assert(w.contains(w[i]));
                } else {
                    assert(ws[i] == w[i] && ws[j] == w[j]);
                }
            }
        }
    }
}

// ---------------------------------------------------------------------------
// acceptance
// ---------------------------------------------------------------------------

/// The pending depth never exceeds the limit by a submission: it grows only
/// while it is below the limit.
pub proof fn submit_respects_the_depth_limit(
    v: VehicleView,
    enabled: bool,
    depth: nat,
    params: TaskParamsView,
    origin: TaskOrigin,
    now_ns: u64,
    est: Real,
)
    ensures
        ({
            let w = submit_step(v, enabled, depth, params, origin, now_ns, est).0;
            w.q.pending.len() <= depth || w.q.pending.len() == v.q.pending.len()
        }),
{
}

/// With the engine on and the vehicle not returning to launch, a request is
/// accepted, started or queued, unless the vehicle is occupied and the limit
/// is reached: being busy alone no longer refuses.
pub proof fn busy_requests_are_queued(
    v: VehicleView,
    depth: nat,
    params: TaskParamsView,
    origin: TaskOrigin,
    now_ns: u64,
    est: Real,
)
    requires
        v.busy != RTL@,
    ensures
        ({
            let r = submit_step(v, true, depth, params, origin, now_ns, est).1;
            let idle = v.q.active is None && v.busy.len() == 0;
            &&& idle ==> r is Started
            &&& !idle && v.q.pending.len() < depth ==> r is Queued
            &&& !idle && v.q.pending.len() >= depth ==> r is Full
        }),
{
}

/// A started task is the active one, flies under its own label with both
/// abort flags low, and nothing that waited is touched.
pub proof fn started_tasks_own_the_vehicle(
    v: VehicleView,
    enabled: bool,
    depth: nat,
    params: TaskParamsView,
    origin: TaskOrigin,
    now_ns: u64,
    est: Real,
)
    ensures
        ({
            let (w, r, _) = submit_step(v, enabled, depth, params, origin, now_ns, est);
            r is Started ==> {
                &&& w.q.active is Some
                &&& w.q.active->0.params == params
                &&& w.q.active->0.task_id == r->Started_task_id
                &&& w.busy == params.kind().text()
                &&& !w.abort
                &&& !w.operator_abort
                &&& w.q.pending == v.q.pending
            }
        }),
{
}

/// A refused submission leaves the vehicle as it was.
pub proof fn refused_submissions_change_nothing(
    v: VehicleView,
    enabled: bool,
    depth: nat,
    params: TaskParamsView,
    origin: TaskOrigin,
    now_ns: u64,
    est: Real,
)
    ensures
        ({
            let (w, r, _) = submit_step(v, enabled, depth, params, origin, now_ns, est);
            !(r is Started) && !(r is Queued) ==> w == v
        }),
{
}

/// Work is never queued behind a return to launch, nor taken from one.
pub proof fn return_to_launch_is_sovereign(
    v: VehicleView,
    enabled: bool,
    depth: nat,
    params: TaskParamsView,
    origin: TaskOrigin,
    now_ns: u64,
    est: Real,
    arm_gesture: bool,
    pause_allowed: bool,
)
    requires
        v.busy == RTL@,
    ensures
        submit_step(v, enabled, depth, params, origin, now_ns, est).0 == v,
        rc_seize_step(v, arm_gesture, pause_allowed).0 == v,
        rc_seize_step(v, arm_gesture, pause_allowed).1 is Refused,
        kick_step(v, now_ns).0 == v,
{
    reveal_strlit("rtl");
    assert(RTL@.len() == 3);
}

// ---------------------------------------------------------------------------
// flush and ladder
// ---------------------------------------------------------------------------

/// A flush leaves nothing waiting, and flushing again changes nothing.
pub proof fn flush_empties_the_queue_and_is_idempotent(q: QueueView)
    requires
        q.finished.len() <= FINISHED_TAIL,
    ensures
        flushed(q).pending.len() == 0,
        flushed(q).active == q.active,
        flushed(flushed(q)) == flushed(q),
{
    assert(aborted(Seq::<TaskEntryView>::empty()) =~= Seq::empty());
    let w = flushed(q);
    assert(w.finished + aborted(w.pending) =~= w.finished);
    assert(flushed(w) =~= w);
}

/// The ladder is a blanket stop: when a flight ends aborted by the ladder,
/// nothing flies, nothing waits, and every task that waited is journaled as
/// aborted by the ladder.
pub proof fn ladder_abort_leaves_nothing_queued(
    v: VehicleView,
    cancelled: bool,
    now_ns: u64,
    est: Real,
)
    requires
        v.q.active is Some,
        !v.operator_abort,
        v.q.preempt_insert_at is None,
    ensures
        ({
            let (w, after, ev) = task_end_step(v, FlightOutcome::Aborted, cancelled, now_ns, est);
            &&& w.q.active is None
            &&& w.q.pending.len() == 0
            &&& after == AfterTask::Stop
            &&& ev.len() == 1 + v.q.pending.len()
            &&& forall|i: int|
                0 <= i < v.q.pending.len() ==> #[trigger] ev[i + 1]
                    == (QueueEventView::TaskAborted {
                    task_id: v.q.pending[i].task_id,
                    kind: v.q.pending[i].kind,
                    by: AbortedBy::Ladder,
                })
        }),
{
    let (s, first) = settle(v, FlightOutcome::Aborted, now_ns, est);
    assert(s.q.pending == v.q.pending);
    assert(first.len() == 1);
    let ev = task_end_step(v, FlightOutcome::Aborted, cancelled, now_ns, est).2;
    assert(ev =~= first + abort_events(v.q.pending, AbortedBy::Ladder));
}

// ---------------------------------------------------------------------------
// hand-over
// ---------------------------------------------------------------------------

/// A scoped operator cancel ends one task: the abort flags are lowered, the
/// entry is recorded as aborted, and the queue goes on with the next entry.
pub proof fn operator_abort_continues_the_queue(v: VehicleView, now_ns: u64, est: Real)
    requires
        v.q.active is Some,
        v.operator_abort,
        v.busy.len() == 0 || v.busy == v.q.active->0.kind.text(),
    ensures
        ({
            let (w, after, _) = task_end_step(v, FlightOutcome::Aborted, false, now_ns, est);
            &&& !w.abort
            &&& !w.operator_abort
            &&& v.q.pending.len() > 0 ==> after == AfterTask::Next && w.q.active == Some(
                starting(v.q.pending[0], now_ns),
            ) && w.q.pending == v.q.pending.skip(1)
            &&& v.q.pending.len() == 0 ==> after == AfterTask::Idle(v.q.active->0.kind)
                && w.q.active is None && w.busy.len() == 0
        }),
{
}

/// Tasks run in queue order without an idle gap: when a flight ends by itself
/// and something waits, the busy label goes straight to the next task.
pub proof fn queue_drains_in_order_without_a_gap(
    v: VehicleView,
    outcome: FlightOutcome,
    now_ns: u64,
    est: Real,
)
    requires
        v.q.active is Some,
        outcome != FlightOutcome::Aborted,
        !v.abort,
        v.busy == v.q.active->0.kind.text(),
    ensures
        ({
            let (w, after, _) = task_end_step(v, outcome, false, now_ns, est);
            &&& v.q.pending.len() > 0 ==> {
                &&& after == AfterTask::Next
                &&& w.q.active == Some(starting(v.q.pending[0], now_ns))
                &&& w.q.pending == v.q.pending.skip(1)
                &&& w.busy == v.q.pending[0].kind.text()
                &&& w.busy.len() > 0
            }
            &&& v.q.pending.len() == 0 ==> after == AfterTask::Idle(v.q.active->0.kind)
                && w.busy.len() == 0 && w.q.active is None
        }),
{
    if v.q.pending.len() > 0 {
        TaskKind::labels_are_distinct(v.q.pending[0].kind, v.q.pending[0].kind);
    }
}

/// Every ended task is recorded with its terminal state as the newest of the
/// finished entries, before anything a flush adds.
pub proof fn ended_tasks_are_recorded(
    v: VehicleView,
    outcome: FlightOutcome,
    now_ns: u64,
    est: Real,
)
    requires
        v.q.active is Some,
    ensures
        ({
            let w = settle(v, outcome, now_ns, est).0;
            &&& w.q.finished.len() > 0
            &&& w.q.finished.last() == with_state(v.q.active->0, end_state(v, outcome))
            &&& w.q.active is None
        }),
{
}

/// How an ended task is recorded: as done if its flight completed or gave way
/// to a reorder or a pause, as failed if it timed out, and as aborted if an
/// operator or the ladder stopped it. It is the same task, and it is journaled
/// as aborted exactly if it is recorded so.
pub proof fn ended_tasks_are_recorded_by_their_outcome(
    v: VehicleView,
    outcome: FlightOutcome,
    cancelled: bool,
    now_ns: u64,
    est: Real,
)
    requires
        v.q.active is Some,
    ensures
        ({
            let ev = task_end_step(v, outcome, cancelled, now_ns, est).2;
            let told = settle(v, outcome, now_ns, est).0.q.finished.last();
            let gave_way = outcome == FlightOutcome::Aborted && !v.operator_abort
                && v.q.preempt_insert_at is Some;
            let e = v.q.active->0;
            &&& told.state == TaskState::Done <==> outcome == FlightOutcome::Completed || gave_way
            &&& told.state == TaskState::Failed <==> outcome == FlightOutcome::TimedOut
            &&& told.state == TaskState::Aborted <==> outcome == FlightOutcome::Aborted
                && !gave_way
            &&& told.task_id == e.task_id && told.kind == e.kind && told.params == e.params
            &&& told.origin == e.origin && told.parent == e.parent
            &&& told.started_ns == e.started_ns && told.enqueued_ns == e.enqueued_ns
            &&& told.progress == e.progress && told.resume == e.resume
            &&& ev.len() > 0
            &&& ev[0] is TaskAborted <==> told.state == TaskState::Aborted
            &&& ev[0] is TaskCompleted <==> told.state != TaskState::Aborted
            &&& ev[0] matches QueueEventView::TaskAborted { task_id, kind, by } ==> task_id
                == e.task_id && kind == e.kind && (by == AbortedBy::Operator
                <==> v.operator_abort) && (by == AbortedBy::Ladder <==> !v.operator_abort)
            &&& ev[0] matches QueueEventView::TaskCompleted {
                task_id,
                kind,
                outcome: o,
                split,
            } ==> task_id == e.task_id && kind == e.kind && o == outcome && split == gave_way
        }),
        // The record is kept, before what a stop of the queue aborts after it.
        ({
            let s = settle(v, outcome, now_ns, est).0.q;
            let w = task_end_step(v, outcome, cancelled, now_ns, est).0.q;
            let flying = if w.active is Some {
                1int
            } else {
                0
            };
            let stopped = s.pending.len() - w.pending.len() - flying;
            &&& 0 <= stopped
            &&& stopped < 8 ==> 0 <= w.finished.len() - 1 - stopped && w.finished[w.finished.len()
                - 1 - stopped] == s.finished.last()
        }),
{
    let (s, first) = settle(v, outcome, now_ns, est);
    let (w, _, ev) = task_end_step(v, outcome, cancelled, now_ns, est);
    assert(ev[0] == first[0]);
    assert(s.q.finished + aborted(Seq::empty()) =~= s.q.finished);
}

// ---------------------------------------------------------------------------
// split and resume
// ---------------------------------------------------------------------------

/// `place_of` is the first place.
pub proof fn lemma_place(s: Seq<Seq<char>>, x: Seq<char>)
    requires
        s.contains(x),
    ensures
        0 <= place_of(s, x) < s.len(),
        s[place_of(s, x)] == x,
        forall|i: int| 0 <= i < place_of(s, x) ==> s[i] != x,
    decreases s.len(),
{
    if s[0] != x {
        let k = choose|k: int| 0 <= k < s.len() && s[k] == x;
        assert(s.skip(1)[k - 1] == x);
        assert(s.skip(1).contains(x));
        lemma_place(s.skip(1), x);
        assert forall|i: int| 0 <= i < place_of(s, x) implies s[i] != x by {
            if i > 0 {
                assert(s[i] == s.skip(1)[i - 1]);
            }
        }
    }
}

/// Without duplicates, leaving `x` out is removing its one place.
pub proof fn lemma_without_is_remove(s: Seq<Seq<char>>, x: Seq<char>)
    requires
        s.no_duplicates(),
        s.contains(x),
    ensures
        without(s, Some(x)) == s.remove(place_of(s, x)),
    decreases s.len(),
{
    lemma_place(s, x);
    let p = place_of(s, x);
    let t = s.drop_last();
    assert(t.no_duplicates());
    if s.last() == x {
        assert(p == s.len() - 1);
        assert(!t.contains(x));
        lemma_without_absent(t, x);
        assert(s.remove(p) =~= t);
    } else {
        assert(t[p] == x);
        assert(t.contains(x));
        lemma_without_is_remove(t, x);
        lemma_place(t, x);
        if place_of(t, x) != p {
            assert(t[place_of(t, x)] == s[place_of(t, x)]);
        }
        assert(t.remove(p).push(s.last()) =~= s.remove(p));
    }
}

proof fn lemma_without_absent(s: Seq<Seq<char>>, x: Seq<char>)
    requires
        !s.contains(x),
    ensures
        without(s, Some(x)) == s,
    decreases s.len(),
{
    if s.len() > 0 {
        let t = s.drop_last();
        assert(!t.contains(x)) by {
            if t.contains(x) {
                let i = choose|i: int| 0 <= i < t.len() && t[i] == x;
                assert(s[i] == x);
            }
        }
        lemma_without_absent(t, x);
        assert(s[s.len() - 1] == s.last());
        assert(s.contains(s.last()));
        assert(t.push(s.last()) =~= s);
    }
}

/// The headline of the queue: a reorder that displaces the active task makes
/// its end, aborted by that reorder, queue the remainder at the displaced
/// position. The waiting tasks are then exactly the requested order, with the
/// continuation in the place of the displaced task; the continuation is of
/// the same kind, comes from a split and names its parent; and the displaced
/// side counts as done.
pub proof fn displaced_task_resumes_at_its_new_position(
    q0: QueueView,
    order: Seq<Seq<char>>,
    v: VehicleView,
    now_ns: u64,
    est: Real,
)
    requires
        queue_inv(q0),
        order.to_multiset() == ids(q0.run_order()).to_multiset(),
        displaces(q0, order),
        reordered(q0, order, v.q),
        !v.operator_abort,
        remainder_of(q0.active->0) is Some,
    ensures
        ({
            let parent = q0.active->0;
            let at = place_of(order, parent.task_id);
            let w = settle(v, FlightOutcome::Aborted, now_ns, est).0;
            let cont = w.q.pending[at];
            &&& 0 < at < order.len()
            &&& w.q.active is None
            &&& !w.abort
            &&& ids(w.q.pending) == order.update(at, id_text(q0.seq + 1))
            &&& cont.task_id == id_text(q0.seq + 1)
            &&& Some(cont.params) == remainder_of(parent)
            &&& cont.origin == TaskOrigin::Split
            &&& cont.parent == Some(parent.task_id)
            &&& cont.kind == parent.kind
            &&& cont.state == TaskState::Pending
            &&& w.q.finished.last() == with_state(parent, TaskState::Done)
        }),
{
    let parent = q0.active->0;
    let run = ids(q0.run_order());
    lemma_permutation_distinct(order, run);
    assert(run[0] == parent.task_id);
    assert(run.contains(parent.task_id));
    lemma_place(order, parent.task_id);
    lemma_without_is_remove(order, parent.task_id);
    let at = place_of(order, parent.task_id);
    let w = settle(v, FlightOutcome::Aborted, now_ns, est).0;
    assert(ids(v.q.pending) == order.remove(at));
    assert(ids(v.q.pending).len() == v.q.pending.len());
    assert(at <= v.q.pending.len());
    assert(w.q.pending == v.q.pending.insert(at, w.q.pending[at]));
    assert(ids(w.q.pending) =~= ids(v.q.pending).insert(at, id_text(q0.seq + 1)));
    assert(order.remove(at).insert(at, id_text(q0.seq + 1)) =~= order.update(
        at,
        id_text(q0.seq + 1),
    ));
}

// ---------------------------------------------------------------------------
// remote control
// ---------------------------------------------------------------------------

/// Pausing a mission for remote control loses nothing: after the seize, the
/// paused flight ends without handing the vehicle on, everything that waited
/// still waits behind the remainder, and the vehicle stays with the session.
/// When the session then releases the label, the queue restarts with exactly
/// the remainder of the paused task.
pub proof fn paused_mission_resumes_on_release(
    v: VehicleView,
    now_ns: u64,
    est: Real,
    later_ns: u64,
)
    requires
        v.q.active is Some,
        v.busy == v.q.active->0.kind.text(),
        remainder_of(v.q.active->0) is Some,
    ensures
        ({
            let (seized, r) = rc_seize_step(v, true, true);
            let (held, after, _) = task_end_step(
                seized,
                FlightOutcome::Aborted,
                false,
                now_ns,
                est,
            );
            let released = VehicleView { busy: Seq::empty(), ..held };
            let (resumed, started, _) = kick_step(released, later_ns);
            &&& r == (RcSeizeView::EngagedPaused { paused_task_id: v.q.active->0.task_id })
            &&& after == AfterTask::Stop
            &&& held.busy == RC_MANUAL@
            &&& held.q.active is None
            &&& held.q.pending.skip(1) == v.q.pending
            &&& started is Some
            &&& resumed.q.active is Some
            &&& Some(resumed.q.active->0.params) == remainder_of(v.q.active->0)
            &&& resumed.q.active->0.parent == Some(v.q.active->0.task_id)
            &&& resumed.q.pending == v.q.pending
            &&& resumed.busy == v.busy
        }),
{
    TaskKind::labels_are_distinct(v.q.active->0.kind, v.q.active->0.kind);
    let (seized, _) = rc_seize_step(v, true, true);
    assert(seized.q.preempt_insert_at == Some(0nat));
    let (s, _) = settle(seized, FlightOutcome::Aborted, now_ns, est);
    assert(s.busy == RC_MANUAL@);
    reveal_strlit("rc-manual");
    assert(RC_MANUAL@.len() == 9);
    assert(s.q.pending.skip(1) =~= v.q.pending);
}

/// An engage that is refused leaves the vehicle as it was: the mission keeps
/// flying. Against an occupied vehicle the deliberate gesture and the
/// permission to pause are both needed.
pub proof fn refused_engage_changes_nothing(v: VehicleView, arm_gesture: bool, pause_allowed: bool)
    ensures
        rc_seize_step(v, arm_gesture, pause_allowed).1 is Refused ==> rc_seize_step(
            v,
            arm_gesture,
            pause_allowed,
        ).0 == v,
        v.busy.len() > 0 && !(arm_gesture && pause_allowed) ==> rc_seize_step(
            v,
            arm_gesture,
            pause_allowed,
        ).1 is Refused,
        v.busy.len() == 0 ==> rc_seize_step(v, arm_gesture, pause_allowed).1 is Engaged,
{
}

} // verus!
