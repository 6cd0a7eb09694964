use std::hash::{Hash, Hasher};

use minimuas::agent::{
    hold_ack, land_ack, native_rtl_ack, AgentCommand, AgentShared, CaptureFacts, Effect,
};
use minimuas::bringup::{
    coalesce, strategy_label, Agent, CoordAct, CoordLoop, FetchReq, Rails, Routed, RtlCommand,
    StrategySource,
};
use minimuas::config::{AgentConfig, CarrierKind, IdlePolicy};
use minimuas::driver::{progress_due, run_task, survey_summary, task_digest, MissionClock, Run, SurveyStep};
use minimuas::flight::{Fix, RasterFlight, RasterTick};
use minimuas::idle::{IdleAction, TimerPoll};
use minimuas::investigate::{search_status, FlyoverCycle, OrbitCycle};
use minimuas::mission::{plan_raster, CapturePoint, FlightOutcome, Leg, Point, RasterPlan, SurveyLeg};
use minimuas::patterns::{OrbitFlight, OrbitTick, WaypointFlight, WaypointTick};
use minimuas::policy::AglBounds;
use minimuas::quantity::{Quantity, Real};
use minimuas::queue_model::{AfterTask, QueueEvent, ResumeSnapshot, TaskParams};
use minimuas::rc::{RcAct, RcIntent, RcOut, RcPreempt, Session};
use minimuas::rc_status::{failsafe_state, status_due, status_of, RcTransport, ReceiverSnapshot};
use minimuas::services::{
    Ack, InvestigateRequest, QueueReorderRequest, RasterRequest, SensorRequest, TakeoffRequest,
    VideoRequest, MODE_NOW, MODE_OPPORTUNISTIC, MODE_OVERRIDE,
};
use minimuas::survey::{grounded, opening, Report, Survey};
use minimuas::takeoff::{climb_poll, stick_offset, Altitude, Answer, Ask, Climb, Ladder, TakeoffStart};
use minimuas::tasks::{TaskKind, TaskOrigin, TaskProgress, TaskState};
use minimuas::telemetry::{build_sample, BackendTelemetry};

fn r(x: f64) -> Real {
    Real { bits: x.to_bits() }
}

fn f(x: Real) -> f64 {
    f64::from_bits(x.bits)
}

fn q(x: f64) -> Quantity {
    Quantity { value: r(x), text: format!("{x:.1}") }
}

fn investigate_req(turns: f64) -> InvestigateRequest {
    InvestigateRequest {
        lat_deg: r(35.0),
        lon_deg: r(-90.0),
        agl_m: r(8.0),
        radius_m: r(6.0),
        turns: r(turns),
        sensors: Vec::new(),
        mission_id: "m-test".into(),
        pattern: String::new(),
    }
}

fn submit(a: &mut AgentShared, turns: f64) -> Ack {
    let reply = a.investigate(investigate_req(turns), &q(8.0), &None, 1_000, r(30.0), "30");
    reply.ack
}

fn point(lat: f64, lon: f64) -> Point {
    Point { lat_deg: r(lat), lon_deg: r(lon) }
}

/// Two legs with three captures each.
fn plan() -> RasterPlan {
    let legs = (0..2)
        .map(|i| SurveyLeg {
            leg: Leg { start: point(i as f64, 0.0), end: point(i as f64, 1.0) },
            captures: (0..3)
                .map(|k| CapturePoint {
                    lat_deg: r(i as f64),
                    lon_deg: r(k as f64 / 2.0),
                    heading_deg: r(90.0),
                    leg: 0,
                    along_m: r(k as f64 * 10.0),
                })
                .collect(),
        })
        .collect();
    plan_raster(&vec![point(0.0, 0.0)], legs, r(8.0), r(5.0), r(10.0), r(50.0)).unwrap()
}

fn raster_req() -> RasterRequest {
    RasterRequest {
        agl_m: r(8.0),
        spacing_m: r(15.0),
        capture_every_m: r(10.0),
        speed_m_s: r(5.0),
        corners: vec![(r(0.0), r(0.0)), (r(1.0), r(1.0))],
        object_query: String::new(),
        min_confidence: r(0.0),
        target_separation_m: r(0.0),
        mission_id: "m-r".into(),
    }
}

fn start_raster(a: &mut AgentShared) -> Ack {
    a.raster_search(raster_req(), &q(8.0), &None, &Ok(plan()), 500, r(60.0), "60").ack
}

fn ids(a: &AgentShared) -> Vec<String> {
    a.vehicle.tasks.queue_ids()
}

#[test]
fn tasks_queue_behind_the_active_one_and_run_in_order() {
    let mut a = AgentShared::bench("iuas-01");
    let first = submit(&mut a, 1.0);
    assert!(first.accepted);
    assert_eq!(a.vehicle.busy, "investigate");
    let second = submit(&mut a, 2.0);
    assert!(second.accepted);
    assert_eq!(second.code, "queued");
    assert!(second.detail.contains("queued at position 1"), "{}", second.detail);
    let third = submit(&mut a, 3.0);
    assert!(third.detail.contains("queued at position 2"), "{}", third.detail);
    let order = ids(&a);
    assert_eq!(order.len(), 3);

    // They drain in the order they came in.
    for i in 0..3 {
        let (active, kind) = a.vehicle.tasks.active_brief().unwrap();
        assert_eq!(active, order[i]);
        assert_eq!(kind, TaskKind::Investigate);
        let (after, _) =
            a.vehicle.on_task_end(FlightOutcome::Completed, false, 2_000 + i as u64, r(30.0));
        if i < 2 {
            assert_eq!(after, AfterTask::Next);
            assert_eq!(a.vehicle.busy, "investigate");
        } else {
            assert_eq!(after, AfterTask::Idle(TaskKind::Investigate));
            assert_eq!(a.vehicle.busy, "");
        }
    }
    assert!(a.vehicle.tasks.finished_at(0).unwrap().state == TaskState::Done);
}

#[test]
fn a_full_queue_refuses() {
    let mut a = AgentShared::bench("iuas-01");
    a.queue_depth = 1;
    assert!(submit(&mut a, 1.0).accepted);
    assert!(submit(&mut a, 1.0).accepted);
    let ack = submit(&mut a, 1.0);
    assert!(!ack.accepted);
    assert_eq!(ack.code, "queue-full");
    assert_eq!(ack.detail, "task queue depth limit reached (1 pending)");
    assert_eq!(ids(&a).len(), 2);
}

#[test]
fn a_disabled_queue_refuses_busy_and_starts_directly() {
    let mut a = AgentShared::bench("iuas-01");
    a.queue_enabled = false;
    let reply = a.investigate(investigate_req(1.0), &q(8.0), &None, 1, r(1.0), "1");
    assert!(reply.ack.accepted);
    assert!(matches!(reply.effects[0], Effect::StartInvestigate));
    let ack = submit(&mut a, 1.0);
    assert_eq!(ack.code, "busy");
    assert_eq!(ack.detail, "vehicle busy with task 'investigate'");
}

#[test]
fn requests_pass_the_rails_first() {
    let mut a = AgentShared::bench("iuas-01");
    let above = InvestigateRequest { agl_m: r(25.0), ..investigate_req(1.0) };
    let high = a.investigate(above, &q(25.0), &None, 1, r(1.0), "1").ack;
    assert_eq!(high.code, "agl-out-of-bounds");
    let far = Some(vec![q(10.0), q(301.0)]);
    let ack = a.investigate(investigate_req(1.0), &q(8.0), &far, 1, r(1.0), "1").ack;
    assert_eq!(ack.code, "out-of-range");
    assert_eq!(ack.detail, "target 301.0 m from home exceeds max range 300.0 m");
    let bad = a
        .raster_search(raster_req(), &q(8.0), &None, &Err("empty raster".into()), 1, r(1.0), "1")
        .ack;
    assert_eq!(bad.code, "bad-raster");
    assert_eq!(a.vehicle.busy, "");
    let takeoff = a.flight_takeoff(&TakeoffRequest { agl_m: q(2.0) }).ack;
    assert_eq!(takeoff.code, "agl-out-of-bounds");
    let takeoff = a.flight_takeoff(&TakeoffRequest { agl_m: q(5.0) });
    assert!(takeoff.ack.accepted);
    assert!(matches!(takeoff.effects[0], Effect::StartTakeoff));
    assert_eq!(a.vehicle.busy, "takeoff");
    assert_eq!(a.flight_takeoff(&TakeoffRequest { agl_m: q(5.0) }).ack.code, "busy");
}

#[test]
fn pending_tasks_can_be_aborted_by_id() {
    let mut a = AgentShared::bench("iuas-01");
    for _ in 0..3 {
        submit(&mut a, 1.0);
    }
    let order = ids(&a);
    let reply = a.task_abort(&order[1]);
    assert!(reply.ack.accepted);
    assert_eq!(ids(&a), [order[0].clone(), order[2].clone()]);
    assert_eq!(a.vehicle.busy, "investigate", "the active task flies on");
    assert!(!a.vehicle.abort);
    assert_eq!(a.task_abort("nope").ack.code, "no-such-task");
}

#[test]
fn scoped_aborts_end_the_named_task_without_a_return_to_launch() {
    let mut a = AgentShared::bench("iuas-01");
    submit(&mut a, 1.0);
    let wrong = a.task_abort("raster-search").ack;
    assert!(!wrong.accepted);
    assert!(!a.vehicle.abort);
    let reply = a.task_abort("investigate");
    assert!(reply.ack.accepted);
    assert!(a.vehicle.abort && a.vehicle.operator_abort);
    assert!(reply.effects.iter().all(|e| !matches!(e, Effect::Send(AgentCommand::SmartRtl))));
    let (after, events) = a.vehicle.on_task_end(FlightOutcome::Aborted, false, 9, r(1.0));
    assert_eq!(after, AfterTask::Idle(TaskKind::Investigate));
    assert!(matches!(&events[0], QueueEvent::TaskAborted { by, .. } if by.as_str() == "operator"));
    assert!(!a.vehicle.operator_abort);
}

#[test]
fn reorders_swap_pending_tasks_without_a_split() {
    let mut a = AgentShared::bench("iuas-01");
    for _ in 0..3 {
        submit(&mut a, 1.0);
    }
    let o = ids(&a);
    let swapped = vec![o[0].clone(), o[2].clone(), o[1].clone()];
    let reply = a.queue_reorder(&QueueReorderRequest { ordered_task_ids: swapped.clone() });
    assert!(reply.ack.accepted);
    assert_eq!(ids(&a), swapped);
    assert!(!a.vehicle.abort);
    let bad = a.queue_reorder(&QueueReorderRequest { ordered_task_ids: vec![o[0].clone()] }).ack;
    assert_eq!(bad.code, "bad-reorder");
}

#[test]
fn displacing_reorders_split_the_active_survey() {
    let mut a = AgentShared::bench("wuas-01");
    assert!(start_raster(&mut a).accepted);
    submit(&mut a, 1.0);
    let o = ids(&a);
    a.save_resume(ResumeSnapshot::Raster { leg: 1, fired_in_leg: 2 });
    let reply =
        a.queue_reorder(&QueueReorderRequest { ordered_task_ids: vec![o[1].clone(), o[0].clone()] });
    assert!(reply.ack.accepted);
    assert!(a.vehicle.abort);
    let (after, events) = a.vehicle.on_task_end(FlightOutcome::Aborted, false, 10, r(20.0));
    assert_eq!(after, AfterTask::Next);
    assert!(events.iter().any(|e| matches!(e, QueueEvent::TaskSplit { .. })));
    assert_eq!(a.vehicle.tasks.active_brief().unwrap().0, o[1]);
    let rest = a.vehicle.tasks.pending_at(0).unwrap();
    assert_eq!(rest.origin, TaskOrigin::Split);
    assert_eq!(rest.parent.as_deref(), Some(o[0].as_str()));
    match &rest.params {
        TaskParams::Raster { start_leg, skip_captures, .. } => {
            assert_eq!((*start_leg, *skip_captures), (1, 2));
        }
        other => panic!("wrong continuation: {other:?}"),
    }
    // The continuation flies what was not fired.
    match run_task(&rest.params, Ok(plan()), r(10.0)) {
        Run::Survey(p) => assert_eq!(p.capture_count(), 1),
        other => panic!("wrong run: {other:?}"),
    }
    assert!(matches!(run_task(&rest.params, Err("x".into()), r(0.0)), Run::PlanFailed(_)));
    assert_eq!(
        run_task(&rest.params, Err("x".into()), r(0.0)).ended(),
        Some(FlightOutcome::TimedOut)
    );
}

#[test]
fn the_ladder_flushes_everything() {
    let mut a = AgentShared::bench("iuas-01");
    for _ in 0..3 {
        submit(&mut a, 1.0);
    }
    let (ack, effects, events) = a.flight_rtl();
    assert!(ack.is_none(), "the autopilot answers a native return");
    assert!(effects.is_empty() || !effects.iter().any(|e| matches!(e, Effect::SpawnDriver)));
    assert_eq!(events.len(), 2);
    assert!(events
        .iter()
        .all(|e| matches!(e, QueueEvent::TaskAborted { by, .. } if by.as_str() == "ladder")));
    assert!(a.vehicle.abort);
    assert_eq!(a.vehicle.busy, "");
    assert_eq!(a.vehicle.tasks.pending_len(), 0);
    assert_eq!(native_rtl_ack(false).code, "backend-refused");
    assert!(land_ack(true).accepted);
    assert!(hold_ack(true).accepted);

    let mut fleet = AgentShared::bench("iuas-01");
    fleet.smart_rtl = true;
    let (ack, effects, _) = fleet.flight_rtl();
    assert!(ack.unwrap().accepted);
    assert!(effects.iter().any(|e| matches!(e, Effect::Send(AgentCommand::SmartRtl))));
    assert_eq!(fleet.vehicle.busy, "rtl");
    // Nothing is queued behind a return to launch.
    let ack = submit(&mut fleet, 1.0);
    assert_eq!(ack.code, "busy");
}

#[test]
fn shutdown_needs_the_phrase_and_an_idle_disarmed_vehicle() {
    let a = AgentShared::bench("iuas-01");
    assert_eq!(a.system_shutdown("x", false, "", false).ack.code, "shutdown-confirm-mismatch");
    assert_eq!(a.system_shutdown("iuas-01", true, "", false).ack.code, "shutdown-while-armed");
    assert_eq!(a.system_shutdown("iuas-01", false, "rtl", false).ack.code, "shutdown-while-busy");
    let ok = a.system_shutdown("iuas-01", false, "", false);
    assert!(ok.ack.accepted);
    assert!(ok.effects.iter().any(|e| matches!(e, Effect::Send(AgentCommand::Shutdown))));
    // Armed between the acknowledgement and the act.
    assert_eq!(a.system_shutdown("iuas-01", false, "", true).ack.code, "shutdown-while-armed");
}

fn capture(mode: &str, sensor: &str) -> SensorRequest {
    SensorRequest {
        sensor: sensor.into(),
        mode: mode.into(),
        lat_deg: r(35.0),
        lon_deg: r(-90.0),
        radius_m: r(0.0),
        expiry_s: r(0.0),
        duration_s: r(0.0),
        mission_id: String::new(),
    }
}

fn facts(armed: bool, agl: f64) -> CaptureFacts {
    CaptureFacts {
        from_home: None,
        from_vehicle: q(5.0),
        armed,
        agl_m: Some(r(agl)),
        fly_eta: "4".into(),
        queue_eta: "9".into(),
        search_leg: Some(2),
        watch_radius: "15".into(),
        watch_expiry: "120".into(),
    }
}

#[test]
fn captures_are_answered_by_mode() {
    let mut a = AgentShared::bench("iuas-01");
    let blind = a.sensor_capture(capture(MODE_NOW, "camera"), &facts(true, 8.0), 1, r(1.0)).ack;
    assert!(blind.accepted);
    assert!(blind.detail.contains("no sensor feed"), "{}", blind.detail);
    a.sensor_feed = true;
    a.extras.push("audio".into());
    let now = a.sensor_capture(capture(MODE_NOW, "camera"), &facts(true, 8.0), 1, r(1.0));
    assert!(now.ack.accepted);
    assert!(matches!(now.effects[0], Effect::CaptureNow));
    let watch = a.sensor_capture(capture(MODE_OPPORTUNISTIC, "camera"), &facts(true, 8.0), 1, r(1.0));
    assert!(watch.ack.accepted);
    let id = a.watchpoints[0].id.clone();
    assert_eq!(a.watchpoints[0].sensor, "camera");
    assert!(matches!(&watch.effects[0], Effect::ArmWatchpoint { id: i } if *i == id));
    // Watchpoints are removable by id without touching anything else.
    let gone = a.task_abort(&format!("watchpoint:{id}"));
    assert!(gone.ack.accepted, "{:?}", gone.ack);
    assert!(matches!(&gone.effects[0], Effect::CancelWatchpoint { id: i } if *i == id));
    // The watchpoint's own task unregisters it.
    a.disarm(&id);
    assert!(a.watchpoints.is_empty());

    let grounded =
        a.sensor_capture(capture(MODE_OVERRIDE, "camera"), &facts(false, 0.0), 1, r(1.0)).ack;
    assert!(!grounded.accepted);
    let mut too_far = facts(true, 8.0);
    too_far.from_vehicle = q(45.0);
    let deaf = a.sensor_capture(capture(MODE_OVERRIDE, "audio"), &too_far, 1, r(1.0)).ack;
    assert_eq!(deaf.code, "audio-out-of-range");
}

#[test]
fn overrides_suspend_a_survey_and_hand_it_back() {
    let mut a = AgentShared::bench("wuas-01");
    a.sensor_feed = true;
    start_raster(&mut a);
    let reply = a.sensor_capture(capture(MODE_OVERRIDE, "camera"), &facts(true, 8.0), 1, r(1.0));
    assert!(reply.ack.accepted, "{:?}", reply.ack);
    assert!(reply.ack.detail.contains("resuming raster leg 2"), "{}", reply.ack.detail);
    assert!(a.detour);
    assert!(matches!(&reply.effects[0], Effect::FlyOverride { resume_task } if resume_task == "raster-search"));

    // The survey stands still meanwhile.
    let mut flight = RasterFlight::new(plan(), r(1_000.0));
    let t = raster_tick(0.0, true);
    assert!(matches!(a.survey_step(&mut flight, t), SurveyStep::Paused));
    a.finish_override("raster-search");
    assert!(!a.detour);
    assert_eq!(a.vehicle.busy, "raster-search");
    assert!(matches!(a.survey_step(&mut flight, t), SurveyStep::Flown { .. }));

    let mut busy = AgentShared::bench("iuas-01");
    busy.sensor_feed = true;
    submit(&mut busy, 1.0);
    let refused =
        busy.sensor_capture(capture(MODE_OVERRIDE, "camera"), &facts(true, 8.0), 1, r(1.0)).ack;
    assert!(!refused.accepted || refused.code == "queued", "{refused:?}");
}

fn raster_tick(now: f64, at_target: bool) -> RasterTick {
    RasterTick {
        now: r(now),
        here: Fix { lat_deg: r(0.0), lon_deg: r(0.0), agl_m: r(8.0) },
        along: r(15.0),
        fresh_deadline: r(now + 45.0),
        resend_at: r(now + 2.0),
        at_target,
        heading: None,
    }
}

#[test]
fn interrupted_surveys_save_what_remains() {
    let mut a = AgentShared::bench("wuas-01");
    start_raster(&mut a);
    let mut flight = RasterFlight::new(plan(), r(1_000.0));
    a.survey_step(&mut flight, raster_tick(0.0, true));
    a.survey_step(&mut flight, raster_tick(1.0, false));
    assert_eq!(flight.frames(), 2, "captures at 0 and 10 m are behind 15 m");
    a.survey_progress(&flight, r(40.0), r(12.0));
    let p = a.vehicle.tasks.active().unwrap().progress.as_ref().unwrap();
    assert_eq!(p.detail, "leg 1/2, 2 frames");
    a.vehicle.abort = true;
    assert!(matches!(a.survey_step(&mut flight, raster_tick(2.0, false)), SurveyStep::Interrupted));
    assert_eq!(
        a.vehicle.tasks.active().unwrap().resume,
        Some(ResumeSnapshot::Raster { leg: 0, fired_in_leg: 2 })
    );
}

#[test]
fn interrupted_inspections_save_their_turns() {
    let mut a = AgentShared::bench("iuas-01");
    submit(&mut a, 2.0);
    assert_eq!(a.pattern_of(&investigate_req(1.0)), "orbit");
    let mut orbit = OrbitFlight::new(r(6.28));
    let t = OrbitTick {
        now: r(0.0),
        entry: point(35.0, -90.0),
        entry_deadline: r(30.0),
        at_entry: false,
        resend_at: r(2.0),
        bearing: r(0.0),
        budget: r(60.0),
        next_cmd: r(0.4),
        swept: r(0.0),
        carrot: point(35.0, -90.0),
        yaw: r(180.0),
    };
    assert!(matches!(a.orbit_cycle(&mut orbit, t, r(2.0)), OrbitCycle::Flown { command: Some(_), .. }));
    a.orbit_progress(r(25.0), "0.50", "2.00", r(9.0), r(1.5));
    assert_eq!(
        a.vehicle.tasks.active().unwrap().progress.as_ref().unwrap().detail,
        "orbit 0.50/2.00 turns"
    );
    let mut flyover =
        WaypointFlight::new(vec![Fix { lat_deg: r(0.0), lon_deg: r(0.0), agl_m: r(8.0) }], r(90.0));
    let w = WaypointTick { now: r(0.0), fresh_deadline: r(45.0), resend_at: r(2.0), at_target: false };
    assert!(matches!(
        a.flyover_cycle(&mut flyover, w, r(1.0)),
        FlyoverCycle::Flown { outcome: None, target: Some(_) }
    ));
    a.flyover_progress(&flyover, r(0.0), r(5.0), r(1.0));
    assert_eq!(
        a.vehicle.tasks.active().unwrap().progress.as_ref().unwrap().detail,
        "flyover waypoint 0/1"
    );
    a.vehicle.busy = "rtl".into();
    assert!(matches!(a.orbit_cycle(&mut orbit, t, r(1.25)), OrbitCycle::Interrupted));
    assert_eq!(
        a.vehicle.tasks.active().unwrap().resume,
        Some(ResumeSnapshot::Investigate { remaining_turns: r(1.25) })
    );
    assert!(matches!(a.flyover_cycle(&mut flyover, w, r(1.0)), FlyoverCycle::Interrupted));
}

#[test]
fn idle_policies_wait_for_an_unowned_vehicle() {
    let mut a = AgentShared::bench("iuas-01");
    assert_eq!(a.apply_idle_policy(&IdlePolicy::Hold, false), IdleAction::Hover);
    assert_eq!(a.apply_idle_policy(&IdlePolicy::SlotHold, true), IdleAction::ClimbToSlot);
    assert_eq!(a.apply_idle_policy(&IdlePolicy::SlotHold, false), IdleAction::HoverWithoutSlot);
    let timer = IdlePolicy::parse("rtl-after:45").unwrap();
    assert_eq!(a.apply_idle_policy(&timer, false), IdleAction::ArmTimer);
    assert_eq!(a.poll_idle_timer(false).0, TimerPoll::Waiting);
    assert_eq!(a.poll_idle_timer(true).0, TimerPoll::Return { smart: false });
    submit(&mut a, 1.0);
    assert_eq!(a.apply_idle_policy(&timer, false), IdleAction::Owned);
    assert_eq!(a.poll_idle_timer(true).0, TimerPoll::Cancelled);
    assert_eq!(a.grounded_outcome("investigate"), FlightOutcome::TimedOut);
    a.vehicle.abort = true;
    assert_eq!(a.grounded_outcome("investigate"), FlightOutcome::Aborted);
}

#[test]
fn a_released_task_never_clobbers_its_interrupter() {
    let mut a = AgentShared::bench("iuas-01");
    a.occupy("takeoff");
    a.vehicle.busy = "rtl".into();
    a.clear_busy("takeoff");
    assert_eq!(a.vehicle.busy, "rtl");
    a.clear_busy("rtl");
    assert_eq!(a.vehicle.busy, "");
    a.occupy("raster-search");
    assert!(a.release("raster-search", FlightOutcome::Completed), "the idle policy applies");
    a.occupy("raster-search");
    a.vehicle.abort = true;
    assert!(!a.release("raster-search", FlightOutcome::Aborted), "a ladder abort owns the vehicle");
}

#[test]
fn sticks_take_an_idle_vehicle_and_silence_ends_the_session() {
    let mut a = AgentShared::bench("iuas-01");
    let mut s = Session::new();
    let mut out = RcOut::new();
    s.on_frame(&mut a, false, RcPreempt::Deny, &mut out);
    assert!(s.engaged && a.rc_engaged);
    assert_eq!(a.vehicle.busy, "rc-manual");
    assert!(out.acts.iter().any(|x| matches!(x, RcAct::Engaged { paused: None })));
    assert!(matches!(out.acts.last(), Some(RcAct::Override)));

    let mut out = RcOut::new();
    s.on_intent(&mut a, RcIntent::Hold, &mut out);
    assert!(out.acts.iter().any(|x| matches!(x, RcAct::Hold)));
    assert!(s.engaged);
    let mut out = RcOut::new();
    s.on_intent(&mut a, RcIntent::EmergencyStop, &mut out);
    assert!(out.acts.iter().any(|x| matches!(x, RcAct::Land)));
    assert!(s.engaged, "live frames release an emergency stop");
    let mut out = RcOut::new();
    s.on_intent(&mut a, RcIntent::Rtl, &mut out);
    assert!(out.acts.iter().any(|x| matches!(x, RcAct::NativeRtl)));
    assert!(!s.engaged && s.lockout && !a.rc_engaged);
    assert_eq!(a.vehicle.busy, "");

    // The continuing stream may not take the vehicle back at once.
    let mut out = RcOut::new();
    s.on_frame(&mut a, true, RcPreempt::PauseMission, &mut out);
    assert!(!s.engaged);
    assert!(matches!(&out.acts[0], RcAct::Refused { reason, .. } if reason.as_str() == "released-lockout"));
    let mut out = RcOut::new();
    s.on_frame(&mut a, true, RcPreempt::PauseMission, &mut out);
    assert!(out.acts.is_empty(), "a repeated refusal is silent");
    let mut out = RcOut::new();
    s.begin_tick(&mut a, Some(900), 500, 1, &mut out);
    s.on_frame(&mut a, false, RcPreempt::Deny, &mut out);
    assert!(s.engaged, "a paused stream may engage again");
}

#[test]
fn missions_are_taken_only_by_gesture_and_only_when_allowed() {
    let mut a = AgentShared::bench("iuas-01");
    submit(&mut a, 2.0);
    let mut s = Session::new();
    let mut out = RcOut::new();
    s.on_frame(&mut a, false, RcPreempt::PauseMission, &mut out);
    assert!(matches!(&out.acts[0], RcAct::Refused { reason, busy } if reason.as_str() == "arm-gesture-required" && busy == "investigate"));
    s.on_frame(&mut a, true, RcPreempt::Deny, &mut out);
    assert!(!s.engaged);
    assert_eq!(a.vehicle.busy, "investigate");

    a.save_resume(ResumeSnapshot::Investigate { remaining_turns: r(1.5) });
    let mut out = RcOut::new();
    s.on_frame(&mut a, true, RcPreempt::PauseMission, &mut out);
    assert!(s.engaged);
    assert_eq!(a.vehicle.busy, "rc-manual");
    let (after, _) = a.vehicle.on_task_end(FlightOutcome::Aborted, false, 5, r(9.0));
    assert_eq!(after, AfterTask::Stop);
    assert_eq!(a.vehicle.tasks.pending_len(), 1);

    // The operator's release resumes the mission.
    assert!(a.rc_disengage().ack.accepted);
    let mut out = RcOut::new();
    s.begin_tick(&mut a, Some(0), 500, 7, &mut out);
    assert!(!s.engaged);
    assert_eq!(a.vehicle.busy, "investigate");
    match &a.vehicle.tasks.active().unwrap().params {
        TaskParams::Investigate { req } => assert_eq!(f(req.turns), 1.5),
        other => panic!("wrong continuation: {other:?}"),
    }
    assert_eq!(a.rc_disengage().ack.code, "rc-not-engaged");
}

#[test]
fn the_ladder_takes_the_vehicle_back_from_the_sticks() {
    let mut a = AgentShared::bench("iuas-01");
    let mut s = Session::new();
    let mut out = RcOut::new();
    s.on_frame(&mut a, false, RcPreempt::Deny, &mut out);
    a.vehicle.busy = "rtl".into();
    let mut out = RcOut::new();
    s.begin_tick(&mut a, Some(0), 500, 1, &mut out);
    assert!(!s.engaged);
    assert_eq!(a.vehicle.busy, "rtl");
    assert!(out.acts.iter().any(|x| matches!(x, RcAct::Released(why) if why.as_str() == "superseded")));
    let mut other = Session::new();
    let mut idle = AgentShared::bench("x");
    let mut out = RcOut::new();
    other.on_frame(&mut idle, false, RcPreempt::Deny, &mut out);
    let mut out = RcOut::new();
    other.shut_down(&mut idle, &mut out);
    assert!(out.acts.iter().any(|x| matches!(x, RcAct::Released(why) if why.as_str() == "shutdown")));
}

#[test]
fn receiver_status_is_published_on_change_and_periodically() {
    assert!(status_due(true, Some(0)));
    assert!(status_due(false, None));
    assert!(!status_due(false, Some(249)));
    assert!(status_due(false, Some(250)));
    let label = RcTransport::Listen("0.0.0.0:14650".into()).label();
    assert_eq!(label, "listen:0.0.0.0:14650");
    assert_eq!(RcTransport::Spark("[::]:1".into()).label(), "spark:[::]:1");
    let snap = ReceiverSnapshot {
        seq_gap_pct: r(3.5),
        silence_ms: Some(18),
        state: failsafe_state::MANUAL.into(),
    };
    let s = status_of("iuas-02", 42, true, &label, &snap);
    assert_eq!((s.vehicle_id.as_str(), s.gps_time_ns, s.engaged), ("iuas-02", 42, true));
    assert_eq!((f(s.seq_gap_pct), s.age_ms), (3.5, Some(18)));
    assert_eq!((s.source.as_str(), s.failsafe_state.as_str()), ("listen:0.0.0.0:14650", "manual"));
    assert_eq!(failsafe_state::IDLE, "idle");
    assert_eq!(RcIntent::EmergencyStop.state(), failsafe_state::EMERGENCY_STOP);
    assert_eq!(RcIntent::Hold.state(), failsafe_state::HOLD);
    assert_eq!(RcIntent::Rtl.state(), failsafe_state::RTL);
    assert_eq!(RcPreempt::PauseMission.as_str(), "pause-mission");
}

#[test]
fn takeoffs_arm_only_after_the_ground_check() {
    let l = Ladder::new(false, Some(point(1.0, 2.0)));
    assert_eq!(l.ask, Ask::Guided);
    assert!(matches!(l.next(Answer::Done(false)), Err(TakeoffStart::Refused(_))));
    let l = l.next(Answer::Done(true)).unwrap();
    assert_eq!(l.ask, Ask::Altitude);
    let bad = Answer::Altitude(Some(Altitude { agl: r(2.0), magnitude: r(2.0) }));
    assert!(matches!(l.next(bad), Err(TakeoffStart::Refused(_))));
    let ok = Answer::Altitude(Some(Altitude { agl: r(0.1), magnitude: r(0.1) }));
    let l = l.next(ok).unwrap();
    assert_eq!(l.ask, Ask::Arm);
    let l = l.next(Answer::Done(true)).unwrap();
    assert_eq!(l.ask, Ask::Climb);
    assert!(matches!(l.next(Answer::Done(true)), Err(TakeoffStart::Climbing { home: Some(_) })));

    assert_eq!(climb_poll(true, r(9.0), r(6.0), r(9.0), 0), Climb::Interrupted);
    assert_eq!(climb_poll(false, r(6.5), r(6.0), r(6.0), 0), Climb::Airborne);
    assert_eq!(climb_poll(false, r(0.2), r(6.0), r(0.2), 13_000_000_000), Climb::Stalled);
    assert_eq!(climb_poll(false, r(3.0), r(6.0), r(3.0), 121_000_000_000), Climb::TimedOut);
    assert_eq!(climb_poll(false, r(3.0), r(6.0), r(3.0), 13_000_000_000), Climb::Rising);
    assert_eq!(stick_offset(1500), 0);
    assert_eq!(stick_offset(65535), 0);
}

#[test]
fn bring_up_follows_the_configuration() {
    let mut config = AgentConfig::default();
    config.vehicle_id = "iuas-01".into();
    let up = Agent::plan(&config).unwrap();
    assert_eq!((up.source, up.service_prefix.as_str()), ("sim", "/muas/v3/iuas-01"));
    assert!(up.motion_clock && !up.coordination && !up.smart_rtl);
    let streams = Agent::stream_list("iuas-01");
    assert!(streams.contains(&"/muas/v3/iuas-01/telemetry/live".to_string()));
    assert!(streams.contains(&"/muas/v3/iuas-01/tasks/queue".to_string()));
    assert!(matches!(Agent::route(AgentCommand::SmartRtl), Routed::Coordination(RtlCommand::Engage)));
    assert!(matches!(Agent::route(AgentCommand::AbortRtl), Routed::Coordination(RtlCommand::Abort)));
    config.extras.push("audio".into());
    config.fleet_ids = vec!["iuas-01".into(), "wuas-01".into()];
    let rails = Rails {
        agl_bounds: AglBounds { min_agl_m: q(4.0), max_agl_m: q(9.0) },
        max_range_m: q(120.0),
        audio_range_m: q(12.0),
    };
    let (up, idle) = Agent::start(&config, rails, true).unwrap();
    assert!(up.coordination && up.smart_rtl && up.slot && up.has_audio);
    assert_eq!(up.peers, ["wuas-01"]);
    assert!(idle.smart_rtl && idle.sensor_feed && idle.queue_enabled);
    assert_eq!((idle.vehicle_id.as_str(), idle.vehicle.busy.as_str()), ("iuas-01", ""));
    assert_eq!(idle.agl_bounds.max_agl_m.text, "9.0");
    assert_eq!((idle.max_range_m.value, idle.audio_range_m.value), (r(120.0), r(12.0)));
    config.carrier = CarrierKind::Ndnsf;
    assert!(Agent::plan(&config).is_err(), "a group carrier needs an address");

    let burst = vec![
        FetchReq::Telemetry("b".into()),
        FetchReq::Coord("b".into()),
        FetchReq::Telemetry("b".into()),
    ];
    let batch = coalesce(burst);
    assert_eq!(batch.len(), 2);
    assert_eq!(batch[0].name(), "/muas/v3/b/telemetry/live");
    assert_eq!(batch[1].name(), "/muas/v3/b/coord/status");

    let mut coord = CoordLoop::new();
    assert!(matches!(coord.on_command(RtlCommand::Engage), CoordAct::Start));
    assert!(matches!(coord.on_command(RtlCommand::Engage), CoordAct::Nothing));
    let mut a = AgentShared::bench("iuas-01");
    a.vehicle.busy = "rtl".into();
    coord.on_done(&mut a);
    assert_eq!(a.vehicle.busy, "");
    assert!(matches!(coord.on_command(RtlCommand::Engage), CoordAct::Start));

    assert!(matches!(StrategySource::parse("reference"), StrategySource::Reference));
    let dir = StrategySource::parse("/tmp/chain");
    assert!(matches!(&dir, StrategySource::ChainDir(d) if d == "/tmp/chain"));
    assert!(strategy_label(&Some(dir)).contains("/tmp/chain"));
}

#[test]
fn sample_maps_backend_fields_and_wire_keys() {
    let t = BackendTelemetry {
        lat_deg: r(35.0),
        lon_deg: r(-90.0),
        alt_m: r(10.0),
        agl_m: r(10.0),
        heading_deg: r(90.0),
        armed: true,
        mode: "GUIDED".into(),
        battery_pct: r(88.0),
        rangefinder_m: r(-1.0),
        agl_alarm: false,
        vn_m_s: r(3.0),
        ve_m_s: r(4.0),
        avoid_bias_m: r(2.5),
    };
    let speed = 3.0f64.hypot(4.0);
    let sample = build_sample("iuas-01", "investigate", "sim", &t, r(speed), 7);
    assert_eq!(sample.vehicle_id, "iuas-01");
    assert_eq!(sample.busy, "investigate");
    assert_eq!(sample.source, "sim");
    assert_eq!(f(sample.groundspeed_m_s), 5.0);
    assert_eq!(f(sample.avoid_bias_m), 2.5);
    assert!(sample.gps_time_ns > 0);
    assert_eq!(f(sample.battery_v), 0.0);
}

#[test]
fn queue_snapshots_list_active_pending_and_finished() {
    let mut a = AgentShared::bench("iuas-01");
    submit(&mut a, 1.0);
    submit(&mut a, 1.0);
    a.note_progress(
        TaskProgress { pct: r(10.0), detail: "x".into(), eta_s: r(27.0) },
        ResumeSnapshot::Investigate { remaining_turns: r(0.9) },
    );
    let terms: Vec<f64> = a.vehicle.tasks.eta_terms(0).into_iter().map(f).collect();
    assert_eq!(terms, [27.0], "a pending task waits for what remains of the active one");
    let n = a.vehicle.tasks.listed_len();
    assert_eq!(n, 2);
    let digests = (0..n).map(|i| format!("d{i}")).collect();
    let s = a.vehicle.tasks.snapshot("iuas-01", 9, 4, digests, &vec![r(27.0)]);
    assert_eq!(s.tasks.len(), 2);
    assert_eq!(s.tasks[0].state, TaskState::Active);
    assert_eq!(s.tasks[0].eta_to_start_s, None);
    assert_eq!(s.tasks[1].eta_to_start_s.map(f), Some(27.0));
    assert_eq!(s.tasks[1].params_digest, "d1");
    assert_eq!(s.depth_limit, 4);

    assert_eq!(survey_summary(4, "15", "8", 0, 0), survey_summary(4, "15", "8", 0, 0));
    assert!(survey_summary(4, "15", "8", 1, 2).ends_with("(resume leg 1+2)"));
    let d = task_digest("s", "{}");
    let mut hasher = std::collections::hash_map::DefaultHasher::new();
    "{}".hash(&mut hasher);
    assert_eq!(d, format!("s [{:08x}]", hasher.finish() as u32));
    assert_ne!(task_digest("s", "{}"), task_digest("s", "{1}"));
    assert_eq!(task_digest("s", "{}"), d);
}

#[test]
fn video_runs_only_with_a_feed() {
    let mut a = AgentShared::bench("iuas-01");
    let on = VideoRequest { enabled: true, width: 0, height: 0, fps: 30, quality: 0 };
    let stub = a.video_control(&on);
    assert_eq!(stub.ack.detail, "accepted; video pipeline stubbed (no sensor feed)");
    assert!(stub.effects.is_empty());
    a.sensor_feed = true;
    let reply = a.video_control(&on);
    assert!(reply.ack.accepted);
    assert!(matches!(reply.effects[0], Effect::StartVideo { fps: 30 }));
    let off = VideoRequest { enabled: false, ..on };
    assert!(a.video_control(&off).effects.iter().any(|e| matches!(e, Effect::StopVideo)));
}

#[test]
fn mission_time_stands_still_during_a_detour() {
    let mut c = MissionClock::start(100);
    assert_eq!(c.tick(150, false), 50);
    assert_eq!(c.tick(950, true), 50);
    assert_eq!(c.tick(960, false), 60);
}

#[test]
fn search_status_counts_frames_but_no_detections() {
    let s = search_status("w", "m", 5, "searching", 1, 3, 7, "note", vec!["/f".into()]);
    assert_eq!((s.leg, s.legs_total, s.frames_captured), (1, 3, 7));
    assert_eq!((s.detects_completed, s.detects_pending), (0, 0));
    assert_eq!(s.last_frames, ["/f"]);
}

#[test]
fn survey_cycles_report_legs_frames_and_heartbeats() {
    assert!(matches!(opening(), Report::Status { state: "transit", note: "starting", .. }));
    assert!(matches!(grounded(), Report::Status { state: "failed", note: "airborne failed", .. }));
    let mut a = AgentShared::bench("wuas-01");
    start_raster(&mut a);
    let mut s = Survey::new(plan(), r(1_000.0), 0);
    assert_eq!((s.flight.leg(), s.flight.frames(), s.last_status_ms), (0, 0, 0));
    assert_eq!(s.flight.cruise_target(), Some(point(0.0, 0.0)));

    // The first leg begins at its start.
    let c = s.cycle(&mut a, raster_tick(0.0, true), 100);
    assert!(c.flown && c.outcome.is_none());
    assert!(matches!(c.reports[0], Report::Leg { index: 0 }));
    assert!(matches!(c.reports[1], Report::Status { state: "searching", leg: 0, frames: 0, note: "" }));
    assert_eq!(s.last_status_ms, 100);

    // Two captures lie behind; each is framed and reported.
    let c = s.cycle(&mut a, raster_tick(1.0, false), 200);
    let frames = c.reports.iter().filter(|x| matches!(x, Report::Frame { .. })).count();
    assert_eq!((frames, c.reports.len()), (2, 4));
    assert!(matches!(c.reports[0], Report::Frame { frame_index: 2, .. }));

    // A quiet leg says nothing until a second has passed.
    assert!(s.cycle(&mut a, raster_tick(1.2, false), 1_199).reports.is_empty());
    let c = s.cycle(&mut a, raster_tick(1.4, false), 1_200);
    assert!(matches!(c.reports[..], [Report::Status { state: "searching", frames: 2, note: "", .. }]));

    // A detour freezes the survey and its status says so.
    a.detour = true;
    assert!(s.cycle(&mut a, raster_tick(1.6, false), 1_300).reports.is_empty());
    let c = s.cycle(&mut a, raster_tick(2.4, true), 2_300);
    assert!(!c.flown);
    assert!(matches!(
        c.reports[..],
        [Report::Status { note: "paused: sensor-override detour", .. }]
    ));
    a.detour = false;

    // Another command ends it, with what remains saved.
    a.task_abort("raster-search");
    let c = s.cycle(&mut a, raster_tick(2.6, false), 2_400);
    assert_eq!(c.outcome, Some(FlightOutcome::Aborted));
    assert!(matches!(c.reports[0], Report::Status { state: "aborted", note: "aborted", .. }));
    assert!(matches!(
        c.reports[1],
        Report::Finished { outcome: FlightOutcome::Aborted, frames: 2, legs: 2 }
    ));
    assert!(matches!(
        a.vehicle.tasks.active().unwrap().resume,
        Some(ResumeSnapshot::Raster { leg: 0, fired_in_leg: 2 })
    ));
}

#[test]
fn progress_is_published_once_a_second_at_most() {
    assert!(progress_due(None) && progress_due(Some(1_000)));
    assert!(!progress_due(Some(999)));
}

#[test]
fn turns_are_no_ground_for_refusal() {
    let mut a = AgentShared::bench("iuas-01");
    assert!(submit(&mut a, 0.0).accepted);
    let flat = InvestigateRequest { radius_m: r(0.0), ..investigate_req(1.0) };
    assert_eq!(a.investigate(flat, &q(8.0), &None, 1, r(1.0), "1").ack.code, "bad-orbit");
}
