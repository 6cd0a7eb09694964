//! What the vehicle service answers: when a request is accepted, what it then
//! does, and what a refusal says.

use vstd::prelude::*;

use crate::agent::{
    abort_active_step, abort_step, accept_step, capture_gate, capture_step, occupied, raster_note,
    resume_note, rtl_state,
    stopped, task_gate, watch_ids, AgentCommand, AgentView, EffectView,
};
use crate::config::IdlePolicyView;
use crate::idle::{idle_decision, released, IdleAction};
use crate::mission::FlightOutcome;
use crate::policy::{
    agl_verdict, first_beyond, range_verdict, shutdown_code, AglBounds, PolicyRejection,
};
use crate::quantity::{Quantity, Real};
use crate::queue_model::{TaskParamsView, VehicleView};
use crate::services::{
    accepted_with, refused_with, rejected_by, SensorRequestView,
};
use crate::tasks::{TaskKind, TaskOrigin};
use crate::text::dec_text;

verus! {

/// Whether one double is at most another, both being numbers.
pub open spec fn no_more_than(a: Real, b: Real) -> bool {
    !a.is_nan() && !b.is_nan() && a.key() <= b.key()
}

/// Whether a double exceeds another, both being numbers.
pub open spec fn exceeds(a: Real, b: Real) -> bool {
    !a.is_nan() && !b.is_nan() && a.key() > b.key()
}

// ---------------------------------------------------------------------------
// rails
// ---------------------------------------------------------------------------

/// An altitude is let through exactly if it lies in the window, both ends
/// included; the refusal names it and the window.
pub proof fn altitudes_stay_in_the_window(agl_m: Quantity, bounds: AglBounds)
    ensures
        agl_verdict(agl_m, bounds) is Ok <==> no_more_than(
            bounds.min_agl_m.value,
            agl_m.value,
        ) && no_more_than(agl_m.value, bounds.max_agl_m.value),
        agl_verdict(agl_m, bounds) matches Err(e) ==> {
            &&& e is AglOutOfBounds
            &&& e->AglOutOfBounds_agl_m == agl_m
            &&& e->min_agl_m == bounds.min_agl_m
            &&& e->max_agl_m == bounds.max_agl_m
        },
{
}

proof fn lemma_first_beyond(s: Seq<Quantity>, limit: Real)
    ensures
        0 <= first_beyond(s, limit) <= s.len(),
        forall|i: int| 0 <= i < first_beyond(s, limit) ==> !exceeds((#[trigger] s[i]).value, limit),
        first_beyond(s, limit) < s.len() ==> exceeds(s[first_beyond(s, limit)].value, limit),
    decreases s.len(),
{
    if s.len() > 0 && !limit.below(s[0].value) {
        let t = s.skip(1);
        lemma_first_beyond(t, limit);
        assert forall|i: int| 0 <= i < first_beyond(s, limit) implies !exceeds(
            (#[trigger] s[i]).value,
            limit,
        ) by {
            if i > 0 {
                assert(t[i - 1] == s[i]);
            }
        }
        if first_beyond(s, limit) < s.len() {
            assert(t[first_beyond(t, limit)] == s[first_beyond(s, limit)]);
        }
    }
}

/// Targets are let through exactly if home is unknown or none of them lies
/// farther from it than the limit; the refusal names the first that does.
pub proof fn targets_stay_in_range(from_home: Option<Seq<Quantity>>, max_range_m: Quantity)
    ensures
        from_home is None ==> range_verdict(from_home, max_range_m) is Ok,
        from_home matches Some(d) ==> {
            &&& range_verdict(from_home, max_range_m) is Err <==> exists|i: int|
                0 <= i < d.len() && exceeds((#[trigger] d[i]).value, max_range_m.value)
            &&& range_verdict(from_home, max_range_m) matches Err(e) ==> {
                &&& e is OutOfRange
                &&& e->max_range_m == max_range_m
                &&& exists|k: int|
                    0 <= k < d.len() && e->OutOfRange_distance_m == #[trigger] d[k] && exceeds(
                        d[k].value,
                        max_range_m.value,
                    ) && forall|i: int|
                        0 <= i < k ==> !exceeds((#[trigger] d[i]).value, max_range_m.value)
            }
        },
{
    match from_home {
        Some(d) => {
            lemma_first_beyond(d, max_range_m.value);
            let k = first_beyond(d, max_range_m.value);
            if k < d.len() {
                assert(exceeds(d[k].value, max_range_m.value));
            }
        },
        None => {},
    }
}

/// Every refusal of a rail carries the code of that rail and is not accepted.
pub proof fn refusals_carry_the_code_of_their_rail(e: PolicyRejection)
    ensures
        !rejected_by(e).accepted,
        rejected_by(e).code == (match e {
            PolicyRejection::OutOfRange { .. } => "out-of-range"@,
            PolicyRejection::AglOutOfBounds { .. } => "agl-out-of-bounds"@,
            PolicyRejection::Busy { .. } => "busy"@,
            PolicyRejection::ShutdownConfirmMismatch => "shutdown-confirm-mismatch"@,
            PolicyRejection::ShutdownWhileArmed => "shutdown-while-armed"@,
            PolicyRejection::ShutdownWhileBusy { .. } => "shutdown-while-busy"@,
            PolicyRejection::AudioOutOfRange { .. } => "audio-out-of-range"@,
        }),
        rejected_by(e).detail == e.detail_text(),
{
}

/// An acceptance is one and carries no code; a refusal is none and carries
/// its own code and reason.
pub proof fn answers_say_what_they_are(code: Seq<char>, detail: Seq<char>)
    ensures
        accepted_with(detail).accepted && accepted_with(detail).code.len() == 0,
        accepted_with(detail).detail == detail,
        !refused_with(code, detail).accepted,
        refused_with(code, detail).code == code && refused_with(code, detail).detail == detail,
{
}

/// A shutdown is allowed exactly if the operator typed the vehicle's id and
/// the vehicle is neither armed nor busy.
pub proof fn shutdowns_need_the_id_and_a_quiet_vehicle(
    confirm: Seq<char>,
    vehicle_id: Seq<char>,
    armed: bool,
    busy: Seq<char>,
)
    ensures
        shutdown_code(confirm, vehicle_id, armed, busy) is None <==> confirm == vehicle_id
            && !armed && busy.len() == 0,
        confirm != vehicle_id ==> shutdown_code(confirm, vehicle_id, armed, busy) == Some(
            "shutdown-confirm-mismatch"@,
        ),
        confirm == vehicle_id && armed ==> shutdown_code(confirm, vehicle_id, armed, busy) == Some(
            "shutdown-while-armed"@,
        ),
        confirm == vehicle_id && !armed && busy.len() > 0 ==> shutdown_code(
            confirm,
            vehicle_id,
            armed,
            busy,
        ) == Some("shutdown-while-busy"@),
{
}

/// A flown task passes its gate exactly if the vehicle is free or queues, the
/// altitude lies in the window and no target lies out of range; what does not
/// pass is refused, for the first of these reasons.
pub proof fn flown_tasks_pass_the_rails(
    queue_enabled: bool,
    busy: Seq<char>,
    agl_m: Quantity,
    bounds: AglBounds,
    from_home: Option<Seq<Quantity>>,
    max_range_m: Quantity,
)
    ensures
        ({
            let gate = task_gate(queue_enabled, busy, agl_m, bounds, from_home, max_range_m);
            let free = queue_enabled || busy.len() == 0;
            let level = no_more_than(bounds.min_agl_m.value, agl_m.value) && no_more_than(
                agl_m.value,
                bounds.max_agl_m.value,
            );
            let near = from_home matches Some(d) ==> forall|i: int|
                0 <= i < d.len() ==> !exceeds((#[trigger] d[i]).value, max_range_m.value);
            &&& gate is None <==> free && level && near
            &&& gate matches Some(ack) ==> !ack.accepted && ack.code == (if !free {
                "busy"@
            } else if !level {
                "agl-out-of-bounds"@
            } else {
                "out-of-range"@
            })
        }),
{
    altitudes_stay_in_the_window(agl_m, bounds);
    targets_stay_in_range(from_home, max_range_m);
}

// ---------------------------------------------------------------------------
// ownership
// ---------------------------------------------------------------------------

/// A vehicle that is occupied flies under the label of its new task, with no
/// stale abort, and its queue is as it was.
pub proof fn occupied_vehicles_fly_their_task(v: VehicleView, label: Seq<char>)
    ensures
        occupied(v, label).busy == label,
        !occupied(v, label).abort && !occupied(v, label).operator_abort,
        occupied(v, label).q == v.q,
{
}

/// A blanket stop raises the abort without an operator's name, releases the
/// vehicle and cancels what waits, but leaves the task in flight to end itself;
/// a return to launch is such a stop under its own label. Watchpoints, detours
/// and sessions are not its business.
pub proof fn stops_leave_the_rest_alone(a: AgentView, smart: bool)
    ensures
        ({
            let s = stopped(a.v);
            let r = rtl_state(a, smart);
            &&& s.abort && !s.operator_abort && s.busy.len() == 0
            &&& s.q.pending.len() == 0 && s.q.active == a.v.q.active && s.q.seq == a.v.q.seq
            &&& s.q.driver_running == a.v.q.driver_running && s.q.preempt_insert_at is None
            &&& r.v == (VehicleView { busy: r.v.busy, ..s })
            &&& smart ==> r.v.busy == "rtl"@
            &&& !smart ==> r.v.busy.len() == 0
            &&& r.watchpoints == a.watchpoints && r.watchpoint_seq == a.watchpoint_seq
            &&& r.detour == a.detour && r.rc_engaged == a.rc_engaged
            &&& r.rc_disengage == a.rc_disengage
        }),
{
}

/// What becomes of an accepted task. With the queue on it starts on an idle
/// vehicle and waits behind a busy one, and a driver is spawned exactly if it
/// starts and none runs; with the queue off the vehicle is occupied and flies
/// it at once. It is refused behind a return to launch and when the queue is
/// full. The answer tells which.
pub proof fn tasks_start_wait_or_are_refused(
    a: AgentView,
    enabled: bool,
    depth: nat,
    params: TaskParamsView,
    origin: TaskOrigin,
    now_ns: u64,
    est: Real,
    started: Seq<char>,
    eta: Seq<char>,
    fallback: EffectView,
)
    ensures
        ({
            let (b, r) = accept_step(
                a,
                enabled,
                depth,
                params,
                origin,
                now_ns,
                est,
                started,
                eta,
                fallback,
            );
            let idle = a.v.q.active is None && a.v.busy.len() == 0;
            let home = a.v.busy == "rtl"@;
            let full = !idle && a.v.q.pending.len() >= depth;
            &&& r.ack.accepted <==> !enabled || (!home && !full)
            &&& enabled && home ==> r.ack.code == "busy"@
            &&& enabled && !home && full ==> r.ack.code == "queue-full"@ && r.events.len() == 1
                && r.events[0] is TaskRefused
            &&& enabled && !home && idle ==> {
                &&& r.ack.code.len() == 0 && r.ack.detail == started
                &&& r.effects == (if a.v.q.driver_running {
                    Seq::empty()
                } else {
                    seq![EffectView::SpawnDriver]
                })
                &&& b.v.busy == params.kind().text() && !b.v.abort && !b.v.operator_abort
                &&& b.v.q.active is Some && b.v.q.active->0.params == params
                &&& b.v.q.driver_running
            }
            &&& enabled && !home && !idle && !full ==> {
                &&& r.ack.code == "queued"@ && r.effects.len() == 0
                &&& b.v.busy == a.v.busy && b.v.q.active == a.v.q.active
                &&& b.v.abort == a.v.abort && b.v.operator_abort == a.v.operator_abort
                &&& b.v.q.pending.len() == a.v.q.pending.len() + 1
                &&& b.v.q.pending.last().params == params
                &&& b.v.q.pending.drop_last() == a.v.q.pending
            }
            &&& !enabled ==> {
                &&& r.ack.code.len() == 0 && r.ack.detail == started
                &&& r.effects == seq![fallback] && r.events.len() == 0
                &&& b.v == (VehicleView {
                    busy: params.kind().text(),
                    abort: false,
                    operator_abort: false,
                    ..a.v
                })
            }
        }),
{
    reveal_strlit("rtl");
    assert(a.v.q.pending.push(
        accept_step(a, true, depth, params, origin, now_ns, est, started, eta, fallback).0.v.q.pending.last(),
    ).drop_last() =~= a.v.q.pending);
}

/// What the answer to a task says in words: where it waits and how long, why
/// there is no room, and who owns the vehicle.
pub proof fn tasks_are_answered_in_words(
    a: AgentView,
    depth: nat,
    params: TaskParamsView,
    origin: TaskOrigin,
    now_ns: u64,
    est: Real,
    started: Seq<char>,
    eta: Seq<char>,
    fallback: EffectView,
)
    ensures
        ({
            let (b, r) = accept_step(
                a,
                true,
                depth,
                params,
                origin,
                now_ns,
                est,
                started,
                eta,
                fallback,
            );
            &&& r.ack.code == "queued"@ && r.ack.accepted ==> r.ack.detail == "task "@ + (
            "tsk-"@ + dec_text(a.v.q.seq + 1)) + " queued at position "@ + dec_text(
                a.v.q.pending.len() + 1,
            ) + "; starts in ~"@ + eta + " s"@
            &&& r.ack.code == "queue-full"@ && !r.ack.accepted ==> r.ack.detail
                == "task queue depth limit reached ("@ + dec_text(depth) + " pending)"@
            &&& r.ack.code == "busy"@ && !r.ack.accepted ==> r.ack.detail
                == "vehicle busy with task '"@ + a.v.busy + "'"@
        }),
{
    reveal_strlit("queued");
    reveal_strlit("queue-full");
    reveal_strlit("busy");
    assert("queued"@.len() == 6 && "queue-full"@.len() == 10 && "busy"@.len() == 4);
}

/// The words of a refusal name what was asked and the limit it broke.
pub proof fn refusals_name_the_limit(d: Quantity, low: Quantity, high: Quantity)
    ensures
        (PolicyRejection::OutOfRange { distance_m: d, max_range_m: high }).detail_text()
            == "target "@ + d.text@ + " m from home exceeds max range "@ + high.text@ + " m"@,
        (PolicyRejection::AglOutOfBounds {
            agl_m: d,
            min_agl_m: low,
            max_agl_m: high,
        }).detail_text() == "agl "@ + d.text@ + " m outside allowed "@ + low.text@ + "..="@
            + high.text@ + " m"@,
        (PolicyRejection::AudioOutOfRange { distance_m: d, audio_range_m: high }).detail_text()
            == "audio target "@ + d.text@ + " m away exceeds audio range "@ + high.text@ + " m"@,
{
}

/// What an override says it resumes: the leg of a survey, or holding.
pub proof fn overrides_say_what_they_resume(busy: Seq<char>, leg: u64, legs: nat, captures: nat)
    ensures
        resume_note("raster-search"@, Some(leg)) == "resuming raster leg "@ + dec_text(leg as nat),
        resume_note("raster-search"@, None) == "resuming raster"@,
        busy != "raster-search"@ ==> resume_note(busy, Some(leg)) == "holding here"@
            && resume_note(busy, None) == "holding here"@,
        raster_note(legs, captures) == "raster accepted: "@ + dec_text(legs) + " legs, "@
            + dec_text(captures) + " captures"@,
{
}

/// A kind of task flies under the label of that name.
pub proof fn kinds_have_their_labels(k: TaskKind, params: TaskParamsView)
    ensures
        TaskKind::RasterSearch.text() == "raster-search"@,
        TaskKind::Investigate.text() == "investigate"@,
        TaskKind::SensorOverride.text() == "sensor-override"@,
        params is Raster ==> params.kind() == TaskKind::RasterSearch,
        params is Investigate ==> params.kind() == TaskKind::Investigate,
        params is SensorOverride ==> params.kind() == TaskKind::SensorOverride,
{
}

// ---------------------------------------------------------------------------
// captures
// ---------------------------------------------------------------------------

/// A capture request is turned away at its gate exactly if it asks to fly
/// beyond the range, or for a sound farther than the microphone reaches;
/// a capture here and now is never turned away.
pub proof fn captures_pass_their_rails(
    req: SensorRequestView,
    from_home: Option<Seq<Quantity>>,
    max_range_m: Quantity,
    from_vehicle: Quantity,
    audio_range_m: Quantity,
)
    ensures
        ({
            let gate = capture_gate(req, from_home, max_range_m, from_vehicle, audio_range_m);
            let far = req.mode == "override"@ && from_home is Some && exists|i: int|
                0 <= i < from_home->0.len() && exceeds(
                    (#[trigger] from_home->0[i]).value,
                    max_range_m.value,
                );
            let deaf = req.sensor == "audio"@ && req.mode != "now"@ && exceeds(
                from_vehicle.value,
                audio_range_m.value,
            );
            &&& gate is Some <==> far || deaf
            &&& gate matches Some(ack) ==> !ack.accepted && ack.code == (if far {
                "out-of-range"@
            } else {
                "audio-out-of-range"@
            })
            &&& req.mode == "now"@ ==> gate is None
        }),
{
    reveal_strlit("now");
    reveal_strlit("override");
    assert("now"@.len() != "override"@.len());
    targets_stay_in_range(from_home, max_range_m);
    refusals_carry_the_code_of_their_rail(
        PolicyRejection::AudioOutOfRange { distance_m: from_vehicle, audio_range_m },
    );
    match from_home {
        Some(d) => {
            lemma_first_beyond(d, max_range_m.value);
            let k = first_beyond(d, max_range_m.value);
            if k < d.len() {
                assert(exceeds(from_home->0[k].value, max_range_m.value));
            }
        },
        None => {},
    }
}

/// Whether an override cannot suspend what owns the vehicle.
pub open spec fn cannot_suspend(a: AgentView) -> bool {
    a.detour || a.v.busy == "investigate"@ || a.v.busy == "rtl"@ || a.v.busy == "takeoff"@
        || a.v.busy == "sensor-override"@
}

/// What a capture request that passed its gate does. Here and now, it captures
/// and touches nothing. By override, it needs a vehicle in the air, a metre up
/// or more: an idle one is occupied, a survey is only suspended, and the detour
/// resumes what it found; behind an owner that cannot be suspended it waits in
/// the queue, if there is one, and never behind a return to launch. In
/// passing, it arms a watchpoint of its own for its sensor. Any other mode is
/// refused, and without a feed nothing is captured.
pub proof fn captures_do_what_their_mode_says(
    a: AgentView,
    queue_enabled: bool,
    queue_depth: nat,
    sensor_feed: bool,
    req: SensorRequestView,
    armed: bool,
    agl_m: Option<Real>,
    fly_eta: Seq<char>,
    queue_eta: Seq<char>,
    search_leg: Option<u64>,
    watch_radius: Seq<char>,
    watch_expiry: Seq<char>,
    now_ns: u64,
    est: Real,
)
    ensures
        ({
            let (b, r) = capture_step(
                a,
                queue_enabled,
                queue_depth,
                sensor_feed,
                req,
                armed,
                agl_m,
                fly_eta,
                queue_eta,
                search_leg,
                watch_radius,
                watch_expiry,
                now_ns,
                est,
            );
            let one = Real { bits: 0x3ff0_0000_0000_0000 };
            let fly = req.mode == "override"@;
            let flying = armed && agl_m is Some && no_more_than(one, agl_m->0);
            let idle = a.v.busy.len() == 0;
            &&& !sensor_feed && !(fly && cannot_suspend(a)) ==> b == a && r.ack.accepted
                && r.effects.len() == 0
            &&& sensor_feed && req.mode == "now"@ ==> b == a && r.ack.accepted && r.effects
                == seq![EffectView::CaptureNow]
            &&& fly && cannot_suspend(a) && (idle || a.v.busy == "rtl"@ || !queue_enabled) ==> b
                == a && !r.ack.accepted && r.ack.code == "busy"@
            &&& fly && cannot_suspend(a) && !idle && a.v.busy != "rtl"@ && queue_enabled ==> {
                &&& b.detour == a.detour && b.watchpoints == a.watchpoints
                &&& b.v.busy == a.v.busy && b.v.q.active == a.v.q.active
                &&& r.ack.accepted <==> a.v.q.pending.len() < queue_depth
                &&& r.ack.accepted ==> r.ack.code == "queued"@ && b.v.q.pending.last().params == (
                TaskParamsView::SensorOverride { req })
            }
            &&& sensor_feed && fly && !cannot_suspend(a) && !flying ==> b == a && !r.ack.accepted
                && r.ack.code == "not-airborne"@
            &&& sensor_feed && fly && !cannot_suspend(a) && flying ==> {
                &&& r.ack.accepted && b.detour
                &&& b.watchpoints == a.watchpoints && b.v.q == a.v.q
                &&& idle ==> b.v.busy == "sensor-override"@ && !b.v.abort && !b.v.operator_abort
                    && r.effects == seq![
                    EffectView::FlyOverride { resume_task: "sensor-override"@ },
                ]
                &&& !idle ==> b.v == a.v && r.effects == seq![
                    EffectView::FlyOverride { resume_task: a.v.busy },
                ]
            }
            &&& sensor_feed && req.mode == "opportunistic"@ ==> {
                &&& r.ack.accepted && b.v == a.v && b.detour == a.detour
                &&& b.watchpoint_seq == a.watchpoint_seq + 1
                &&& b.watchpoints.len() == a.watchpoints.len() + 1
                &&& b.watchpoints.drop_last() == a.watchpoints
                &&& b.watchpoints.last().sensor == req.sensor
                &&& r.effects == seq![
                    EffectView::ArmWatchpoint { id: b.watchpoints.last().id },
                ]
            }
            &&& sensor_feed && req.mode != "now"@ && !fly && req.mode != "opportunistic"@ ==> b
                == a && !r.ack.accepted && r.ack.code == "bad-mode"@
        }),
{
    reveal_strlit("now");
    reveal_strlit("override");
    reveal_strlit("opportunistic");
    reveal_strlit("rtl");
    reveal_strlit("investigate");
    reveal_strlit("takeoff");
    reveal_strlit("sensor-override");
    let (b, r) = capture_step(
        a,
        queue_enabled,
        queue_depth,
        sensor_feed,
        req,
        armed,
        agl_m,
        fly_eta,
        queue_eta,
        search_leg,
        watch_radius,
        watch_expiry,
        now_ns,
        est,
    );
    if b.watchpoints.len() > a.watchpoints.len() {
        assert(b.watchpoints.drop_last() =~= a.watchpoints);
    }
}

// ---------------------------------------------------------------------------
// aborts
// ---------------------------------------------------------------------------

/// What cancelling the task in flight does: under its own label alone, it
/// raises both abort flags, releases the vehicle and leaves the queue; a
/// return to launch is called off too, and nothing else is.
pub proof fn cancels_stop_the_task_they_name(a: AgentView, label: Seq<char>)
    ensures
        ({
            let (b, r) = abort_active_step(a, label);
            let named = label.len() > 0 && a.v.busy == label;
            &&& r.ack.accepted <==> named
            &&& !named ==> b == a && r.effects.len() == 0 && r.ack.code == "no-such-task"@
            &&& named ==> {
                &&& b == (AgentView {
                    v: VehicleView {
                        busy: Seq::empty(),
                        abort: true,
                        operator_abort: true,
                        ..a.v
                    },
                    ..a
                })
                &&& r.effects.contains(EffectView::Send(AgentCommand::AbortRtl)) <==> label
                    == "rtl"@
                &&& r.effects.contains(EffectView::JournalAborted { label })
                &&& r.effects.len() == if label == "rtl"@ {
                    2nat
                } else {
                    1nat
                }
            }
        }),
{
    let (b, r) = abort_active_step(a, label);
    if label.len() > 0 && a.v.busy == label {
        let last = r.effects.len() - 1;
        assert(r.effects[last] == EffectView::JournalAborted { label });
        if label == "rtl"@ {
            assert(r.effects[0] == EffectView::Send(AgentCommand::AbortRtl));
        }
    }
}

/// What a cancel by label reaches: `watchpoint:` and an id one armed
/// watchpoint and nothing else, `tsk-` an entry of the queue, waiting or in
/// flight, and any other label the task in flight.
pub proof fn cancels_reach_what_they_name(a: AgentView, label: Seq<char>, id: Seq<char>)
    ensures
        label == "watchpoint:"@ + id ==> ({
            let (b, r) = abort_step(a, label);
            let armed = exists|i: int|
                0 <= i < a.watchpoints.len() && (#[trigger] a.watchpoints[i]).id == id;
            &&& b == a
            &&& r.ack.accepted <==> armed
            &&& armed ==> r.effects == seq![
                EffectView::CancelWatchpoint { id },
                EffectView::JournalAborted { label },
            ]
            &&& !armed ==> r.effects.len() == 0 && r.ack.code == "no-such-task"@
        }),
        label == "tsk-"@ + id ==> ({
            let (b, r) = abort_step(a, label);
            let flying = a.v.q.active is Some && a.v.q.active->0.task_id == label;
            let waiting = exists|i: int|
                0 <= i < a.v.q.pending.len() && (#[trigger] a.v.q.pending[i]).task_id == label;
            &&& flying ==> (b, r) == abort_active_step(a, a.v.q.active->0.kind.text())
            &&& !flying && !waiting ==> b == a && !r.ack.accepted && r.ack.code
                == "no-such-task"@
            &&& !flying && waiting ==> {
                &&& r.ack.accepted && r.effects.len() == 0
                &&& b.v.busy == a.v.busy && b.v.abort == a.v.abort
                &&& b.v.q.active == a.v.q.active
                &&& b.v.q.pending.len() == a.v.q.pending.len() - 1
                &&& r.events.len() == 1 && r.events[0] is TaskAborted
            }
        }),
        !"watchpoint:"@.is_prefix_of(label) && !"tsk-"@.is_prefix_of(label) ==> abort_step(a, label)
            == abort_active_step(a, label),
{
    reveal_strlit("watchpoint:");
    reveal_strlit("tsk-");
    let w = "watchpoint:"@;
    let t = "tsk-"@;
    if label == w + id {
        assert(label.take(w.len() as int) =~= w);
        assert(w.is_prefix_of(label));
        assert(label.skip(w.len() as int) =~= id);
        let ids = watch_ids(a.watchpoints);
        if ids.contains(id) {
            let i = choose|i: int| 0 <= i < ids.len() && ids[i] == id;
            assert(a.watchpoints[i].id == id);
        }
        if exists|i: int| 0 <= i < a.watchpoints.len() && (#[trigger] a.watchpoints[i]).id == id {
            let i = choose|i: int|
                0 <= i < a.watchpoints.len() && (#[trigger] a.watchpoints[i]).id == id;
            assert(ids[i] == id);
        }
    }
    if label == t + id {
        assert(label.take(t.len() as int) =~= t);
        assert(t.is_prefix_of(label));
        assert(label[0] == 't');
        assert(!w.is_prefix_of(label)) by {
            if w.is_prefix_of(label) {
                assert(w[0] == label[0]);
            }
        }
        crate::queue_laws::lemma_position(a.v.q.pending, label);
        let p = a.v.q.pending;
        if exists|i: int| 0 <= i < p.len() && (#[trigger] p[i]).task_id == label {
            let i = choose|i: int| 0 <= i < p.len() && (#[trigger] p[i]).task_id == label;
            assert(crate::queue_model::ids(p)[i] == label);
        }
        let k = crate::queue_model::position_of(p, label);
        if k < p.len() {
            assert(p[k].task_id == label);
        }
    }
}

// ---------------------------------------------------------------------------
// idle
// ---------------------------------------------------------------------------

/// What becomes of a vehicle that nobody owns: it hovers, climbs to its slot
/// if it has one, or arms its timer, as its policy says.
pub proof fn idle_vehicles_follow_their_policy(
    v: VehicleView,
    policy: IdlePolicyView,
    has_slot: bool,
)
    ensures
        ({
            let d = idle_decision(v, policy, has_slot);
            let free = !v.abort && v.busy.len() == 0;
            &&& d == IdleAction::Owned <==> !free
            &&& d == IdleAction::Hover <==> free && policy is Hold
            &&& d == IdleAction::ArmTimer <==> free && policy is RtlAfter
            &&& d == IdleAction::ClimbToSlot <==> free && policy is SlotHold && has_slot
            &&& d == IdleAction::HoverWithoutSlot <==> free && policy is SlotHold && !has_slot
        }),
{
}

/// A task flown outside the queue gives up its own label and no other, and
/// lowers the abort flags exactly if an operator cancelled it.
pub proof fn ended_flights_release_their_own_label(
    a: AgentView,
    label: Seq<char>,
    outcome: FlightOutcome,
)
    ensures
        ({
            let b = released(a, label, outcome);
            let cancelled = outcome == FlightOutcome::Aborted && a.v.operator_abort;
            &&& a.v.busy == label ==> b.v.busy.len() == 0
            &&& a.v.busy != label ==> b.v.busy == a.v.busy
            &&& b.v.abort <==> a.v.abort && !cancelled
            &&& b.v.operator_abort <==> a.v.operator_abort && !cancelled
            &&& b.v.q == a.v.q && b.watchpoints == a.watchpoints && b.detour == a.detour
        }),
{
}

} // verus!
