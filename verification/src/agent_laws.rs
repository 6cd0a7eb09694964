//! What the service decisions promise together.

use vstd::prelude::*;

use crate::agent::{
    abort_active_step, abort_step, accept_step, capture_step, rtl_state, stopped, watch_id, watch_ids,
    AgentCommand, AgentView, EffectView, TASK_PREFIX, WATCHPOINT_PREFIX,
};
use crate::quantity::Real;
use crate::queue_model::{abort_by_id_step, ById, TaskParamsView, FINISHED_TAIL, RTL};
use crate::services::{AckView, SensorRequestView, MODE_OVERRIDE};
use crate::tasks::TaskOrigin;
use crate::text::{dec_text, lemma_dec_injective};

verus! {

/// An acknowledgement that accepts carries no refusal code: its code is empty
/// or the advisory `queued`.
pub open spec fn well_coded(ack: AckView) -> bool {
    ack.accepted ==> ack.code.len() == 0 || ack.code == "queued"@
}

/// A ladder command is a blanket stop: whatever ran or waited, afterwards
/// nothing waits, the abort flag is up without an operator's name on it, and
/// only a smart return-to-launch owns the vehicle.
pub proof fn ladder_stops_everything(a: AgentView, smart: bool)
    requires
        a.v.q.finished.len() <= FINISHED_TAIL,
    ensures
        stopped(a.v).q.pending.len() == 0,
        stopped(a.v).busy.len() == 0,
        stopped(a.v).abort && !stopped(a.v).operator_abort,
        rtl_state(a, smart).v.q.pending.len() == 0,
        rtl_state(a, smart).v.abort && !rtl_state(a, smart).v.operator_abort,
        smart ==> rtl_state(a, smart).v.busy == RTL@,
        !smart ==> rtl_state(a, smart).v.busy.len() == 0,
        stopped(stopped(a.v)) == stopped(a.v),
{
    crate::queue_laws::flush_empties_the_queue_and_is_idempotent(a.v.q);
}

/// A refused task request leaves the agent as it was.
pub proof fn refused_tasks_change_nothing(
    a: AgentView,
    enabled: bool,
    depth: nat,
    params: TaskParamsView,
    origin: TaskOrigin,
    now_ns: u64,
    est: Real,
    started: Seq<char>,
    eta: Seq<char>,
    fallback: EffectView,
)
    ensures
        ({
            let (b, r) = accept_step(
                a,
                enabled,
                depth,
                params,
                origin,
                now_ns,
                est,
                started,
                eta,
                fallback,
            );
            &&& !r.ack.accepted ==> b == a && r.effects.len() == 0
            &&& well_coded(r.ack)
            &&& r.ack.accepted && !(b == a) ==> b.watchpoints == a.watchpoints && b.detour
                == a.detour
        }),
{
}

/// A refused capture request leaves the agent as it was.
pub proof fn refused_captures_change_nothing(
    a: AgentView,
    queue_enabled: bool,
    queue_depth: nat,
    sensor_feed: bool,
    req: SensorRequestView,
    armed: bool,
    agl_m: Option<Real>,
    fly_eta: Seq<char>,
    queue_eta: Seq<char>,
    search_leg: Option<u64>,
    watch_radius: Seq<char>,
    watch_expiry: Seq<char>,
    now_ns: u64,
    est: Real,
)
    ensures
        ({
            let (b, r) = capture_step(
                a,
                queue_enabled,
                queue_depth,
                sensor_feed,
                req,
                armed,
                agl_m,
                fly_eta,
                queue_eta,
                search_leg,
                watch_radius,
                watch_expiry,
                now_ns,
                est,
            );
            &&& !r.ack.accepted ==> b == a && r.effects.len() == 0
            &&& well_coded(r.ack)
            &&& req.mode != MODE_OVERRIDE@ ==> b.v == a.v
            &&& a.v.busy == RTL@ && req.mode == MODE_OVERRIDE@ ==> !r.ack.accepted && b == a
        }),
{
}

/// A scoped cancel never starts a return to launch, and one that is refused
/// leaves the agent as it was.
pub proof fn scoped_aborts_never_return_to_launch(a: AgentView, label: Seq<char>)
    ensures
        !abort_step(a, label).1.effects.contains(EffectView::Send(AgentCommand::SmartRtl)),
        !abort_step(a, label).1.ack.accepted ==> abort_step(a, label).0 == a,
        well_coded(abort_step(a, label).1.ack),
{
}

/// Disarming a watchpoint, or removing a waiting entry, never touches the
/// task in flight.
pub proof fn side_aborts_leave_the_flight_alone(a: AgentView, label: Seq<char>)
    requires
        WATCHPOINT_PREFIX@.is_prefix_of(label) || (TASK_PREFIX@.is_prefix_of(label)
            && abort_by_id_step(a.v.q, label).1 == ById::Pending),
    ensures
        ({
            let b = abort_step(a, label).0;
            &&& b.v.busy == a.v.busy
            &&& b.v.abort == a.v.abort
            &&& b.v.operator_abort == a.v.operator_abort
            &&& b.v.q.active == a.v.q.active
        }),
{
}

/// A label that is not the busy label aborts nothing.
pub proof fn mismatched_labels_abort_nothing(a: AgentView, label: Seq<char>)
    requires
        label != a.v.busy || label.len() == 0,
    ensures
        abort_active_step(a, label).0 == a,
        !abort_active_step(a, label).1.ack.accepted,
        abort_active_step(a, label).1.ack.code == "no-such-task"@,
{
}

/// Watchpoint ids are unique per boot.
pub proof fn watch_ids_are_unique(m: nat, n: nat)
    ensures
        watch_id(m) == watch_id(n) ==> m == n,
{
    if watch_id(m) == watch_id(n) {
        let p = "wp-"@;
        assert(watch_id(m).skip(p.len() as int) =~= dec_text(m));
        assert(watch_id(n).skip(p.len() as int) =~= dec_text(n));
        lemma_dec_injective(m, n);
    }
}

/// The watchpoints of a boot carry the ids `1..=seq`, some of them disarmed:
/// what every arming keeps.
pub open spec fn watch_inv(a: AgentView) -> bool {
    &&& watch_ids(a.watchpoints).no_duplicates()
    &&& forall|i: int|
        0 <= i < watch_ids(a.watchpoints).len() ==> crate::agent_laws::numbered(
            #[trigger] watch_ids(a.watchpoints)[i],
            a.watchpoint_seq,
        )
}

/// The id is one of the first `seq` watchpoint ids.
pub open spec fn numbered(id: Seq<char>, seq: nat) -> bool {
    exists|n: nat| 1 <= n <= seq && id == #[trigger] watch_id(n)
}

/// Arming a watchpoint keeps the ids of the armed ones distinct.
pub proof fn captures_keep_watch_ids_distinct(
    a: AgentView,
    queue_enabled: bool,
    queue_depth: nat,
    sensor_feed: bool,
    req: SensorRequestView,
    armed: bool,
    agl_m: Option<Real>,
    fly_eta: Seq<char>,
    queue_eta: Seq<char>,
    search_leg: Option<u64>,
    watch_radius: Seq<char>,
    watch_expiry: Seq<char>,
    now_ns: u64,
    est: Real,
)
    requires
        watch_inv(a),
    ensures
        watch_inv(
            capture_step(
                a,
                queue_enabled,
                queue_depth,
                sensor_feed,
                req,
                armed,
                agl_m,
                fly_eta,
                queue_eta,
                search_leg,
                watch_radius,
                watch_expiry,
                now_ns,
                est,
            ).0,
        ),
{
    let b = capture_step(
        a,
        queue_enabled,
        queue_depth,
        sensor_feed,
        req,
        armed,
        agl_m,
        fly_eta,
        queue_eta,
        search_leg,
        watch_radius,
        watch_expiry,
        now_ns,
        est,
    ).0;
    if b.watchpoint_seq != a.watchpoint_seq {
        let id = watch_id(a.watchpoint_seq + 1);
        assert(watch_ids(b.watchpoints) =~= watch_ids(a.watchpoints).push(id));
        assert forall|i: int| 0 <= i < watch_ids(b.watchpoints).len() implies numbered(
            #[trigger] watch_ids(b.watchpoints)[i],
            b.watchpoint_seq,
        ) by {
            if i < watch_ids(a.watchpoints).len() {
                assert(numbered(watch_ids(a.watchpoints)[i], a.watchpoint_seq));
                let n = choose|n: nat|
                    1 <= n <= a.watchpoint_seq && watch_ids(a.watchpoints)[i] == #[trigger] watch_id(n);
                assert(1 <= n <= b.watchpoint_seq && watch_ids(b.watchpoints)[i] == watch_id(n));
            } else {
                assert(watch_ids(b.watchpoints)[i] == watch_id(b.watchpoint_seq));
            }
        }
        assert forall|i: int, j: int|
            0 <= i < watch_ids(b.watchpoints).len() && 0 <= j < watch_ids(b.watchpoints).len() && i != j implies
            watch_ids(b.watchpoints)[i] != watch_ids(b.watchpoints)[j] by {
            lemma_not_yet(a, if i < j { i } else { j });
            if i < watch_ids(a.watchpoints).len() && j < watch_ids(a.watchpoints).len() {
                assert(watch_ids(a.watchpoints)[i] != watch_ids(a.watchpoints)[j]);
            }
        }
    }
}

/// The next watchpoint id is not armed.
proof fn lemma_not_yet(a: AgentView, i: int)
    requires
        watch_inv(a),
        0 <= i < watch_ids(a.watchpoints).len(),
    ensures
        watch_ids(a.watchpoints)[i] != watch_id(a.watchpoint_seq + 1),
{
    assert(numbered(watch_ids(a.watchpoints)[i], a.watchpoint_seq));
    let n = choose|n: nat| 1 <= n <= a.watchpoint_seq && watch_ids(a.watchpoints)[i] == #[trigger] watch_id(n);
    watch_ids_are_unique(n, a.watchpoint_seq + 1);
}

} // verus!
