//! Remote control over the network: who may take the sticks, what a silent
//! link does, and when a session ends.
//!
//! An idle vehicle is taken by the first admitted frames. A mission is taken
//! only by a deliberate arm gesture and only if the agent is set to pause
//! missions. The ladder stays sovereign: it takes the vehicle back within one
//! tick.

use vstd::prelude::*;

use crate::agent::{AgentCommand, AgentShared, AgentView};
use crate::queue_laws::{
    flush_keeps_queue_valid, kick_keeps_queue_valid, rc_seize_keeps_queue_valid,
};
use crate::queue_model::{
    abort_events, events, flushed, kick_step, rc_seize_step, AbortedBy, QueueEvent, QueueEventView,
    RcSeize, RcSeizeView, SeizeRefusal, VehicleView, RC_MANUAL, RTL,
};
use crate::text::same;

verus! {

/// What an engage attempt may do to a mission in flight.
#[derive(Clone, Copy, Debug, PartialEq, Eq, Structural)]
pub enum RcPreempt {
    /// The mission keeps flying; frames are discarded.
    Deny,
    /// The mission is suspended and resumes when the session releases.
    PauseMission,
}

impl RcPreempt {
    /// The journaled word.
    pub fn as_str(&self) -> (r: &'static str)
        ensures
            r@ == (match self {
                RcPreempt::Deny => "deny"@,
                RcPreempt::PauseMission => "pause-mission"@,
            }),
    {
        match self {
            RcPreempt::Deny => "deny",
            RcPreempt::PauseMission => "pause-mission",
        }
    }
}

/// A transition of the silence ladder.
#[derive(Clone, Copy, Debug, PartialEq, Eq, Structural)]
pub enum RcIntent {
    ResumeManual,
    Hold,
    Rtl,
    EmergencyStop,
}

impl RcIntent {
    /// The journaled state that the transition enters.
    pub fn state(&self) -> (r: &'static str)
        ensures
            r@ == (match self {
                RcIntent::ResumeManual => "manual"@,
                RcIntent::Hold => "hold"@,
                RcIntent::Rtl => "rtl"@,
                RcIntent::EmergencyStop => "emergency-stop"@,
            }),
    {
        match self {
            RcIntent::ResumeManual => "manual",
            RcIntent::Hold => "hold",
            RcIntent::Rtl => "rtl",
            RcIntent::EmergencyStop => "emergency-stop",
        }
    }
}

/// Why frames do not take the vehicle.
#[derive(Clone, Copy, Debug, PartialEq, Eq, Structural)]
pub enum Refusal {
    /// The stream of a released session has not paused yet.
    ReleasedLockout,
    /// The arbitration refused.
    Seize(SeizeRefusal),
}

impl Refusal {
    /// The journaled reason.
    pub fn as_str(&self) -> (r: &'static str)
        ensures
            r@ == (match self {
                Refusal::ReleasedLockout => "released-lockout"@,
                Refusal::Seize(why) => why.text(),
            }),
    {
        match self {
            Refusal::ReleasedLockout => "released-lockout",
            Refusal::Seize(why) => why.as_str(),
        }
    }
}

/// Why a session ended.
#[derive(Clone, Copy, Debug, PartialEq, Eq, Structural)]
pub enum ReleaseReason {
    Operator,
    Superseded,
    SilenceRtl,
    Shutdown,
}

impl ReleaseReason {
    /// The journaled reason.
    pub fn as_str(&self) -> (r: &'static str)
        ensures
            r@ == (match self {
                ReleaseReason::Operator => "operator"@,
                ReleaseReason::Superseded => "superseded"@,
                ReleaseReason::SilenceRtl => "silence-rtl"@,
                ReleaseReason::Shutdown => "shutdown"@,
            }),
    {
        match self {
            ReleaseReason::Operator => "operator",
            ReleaseReason::Superseded => "superseded",
            ReleaseReason::SilenceRtl => "silence-rtl",
            ReleaseReason::Shutdown => "shutdown",
        }
    }
}

/// One session's ledger.
#[derive(Clone, Copy, Debug, PartialEq, Eq, Structural)]
pub struct Session {
    pub engaged: bool,
    /// Last journaled refusal: refusals are journaled on change, not per
    /// frame.
    pub refusal: Option<Refusal>,
    /// Set on every release: the continuing stream may not take the vehicle
    /// again until it paused.
    pub lockout: bool,
}

/// What the receiver performs and journals, in order.
#[derive(Debug)]
pub enum RcAct {
    /// Hand the frame's channels to the vehicle.
    Override,
    /// Give channel authority back.
    ReleaseChannels,
    Hold,
    Land,
    NativeRtl,
    Send(AgentCommand),
    /// Start the queue driver.
    SpawnDriver,
    /// Journal a refusal; `busy` is the owner, when one refused.
    Refused { reason: Refusal, busy: String },
    /// Journal the engagement and the task that it paused.
    Engaged { paused: Option<String> },
    /// Journal a transition of the silence ladder.
    Failsafe(RcIntent),
    /// Journal the release.
    Released(ReleaseReason),
}

/// An act by its values.
#[verifier::ext_equal]
pub enum RcActView {
    Override,
    ReleaseChannels,
    Hold,
    Land,
    NativeRtl,
    Send(AgentCommand),
    SpawnDriver,
    Refused { reason: Refusal, busy: Seq<char> },
    Engaged { paused: Option<Seq<char>> },
    Failsafe(RcIntent),
    Released(ReleaseReason),
}

impl View for RcAct {
    type V = RcActView;

    open spec fn view(&self) -> RcActView {
        match self {
            RcAct::Override => RcActView::Override,
            RcAct::ReleaseChannels => RcActView::ReleaseChannels,
            RcAct::Hold => RcActView::Hold,
            RcAct::Land => RcActView::Land,
            RcAct::NativeRtl => RcActView::NativeRtl,
            RcAct::Send(c) => RcActView::Send(*c),
            RcAct::SpawnDriver => RcActView::SpawnDriver,
            RcAct::Refused { reason, busy } => RcActView::Refused { reason: *reason, busy: busy@ },
            RcAct::Engaged { paused } => RcActView::Engaged {
                paused: match paused {
                    Some(p) => Some(p@),
                    None => None,
                },
            },
            RcAct::Failsafe(i) => RcActView::Failsafe(*i),
            RcAct::Released(r) => RcActView::Released(*r),
        }
    }
}

/// The views of a list of acts.
pub open spec fn acts(v: Seq<RcAct>) -> Seq<RcActView> {
    v.map_values(|a: RcAct| a@)
}

proof fn lemma_acts_push(v: Seq<RcAct>, a: RcAct)
    ensures
        acts(v.push(a)) == acts(v).push(a@),
{
    assert(acts(v.push(a)) =~= acts(v).push(a@));
}

/// An agent, a session on it, and what was performed and journaled.
#[verifier::ext_equal]
pub struct RcState {
    pub a: AgentView,
    pub s: Session,
    pub acts: Seq<RcActView>,
    pub events: Seq<QueueEventView>,
}

/// A release: channel authority and the claim on the vehicle go back, and the
/// stream is locked out until it pauses.
pub open spec fn released(x: RcState, reason: ReleaseReason) -> RcState {
    RcState {
        a: AgentView {
            v: VehicleView {
                busy: if x.a.v.busy == RC_MANUAL@ {
                    Seq::empty()
                } else {
                    x.a.v.busy
                },
                ..x.a.v
            },
            rc_engaged: false,
            ..x.a
        },
        s: Session { engaged: false, lockout: true, ..x.s },
        acts: x.acts.push(RcActView::ReleaseChannels).push(RcActView::Released(reason)),
        ..x
    }
}

/// The queue goes on after a release.
pub open spec fn kicked(x: RcState, now_ns: u64) -> RcState {
    let (v, started, journal) = kick_step(x.a.v, now_ns);
    RcState {
        a: AgentView { v, ..x.a },
        acts: if started == Some(true) {
            x.acts.push(RcActView::SpawnDriver)
        } else {
            x.acts
        },
        events: x.events + journal,
        ..x
    }
}

/// The beginning of a tick: a lockout lifts once the stream paused beyond
/// `hold_after_ms`, a requested release is granted and the queue goes on, and
/// a session whose claim was taken over is given up.
pub open spec fn tick_start(
    x: RcState,
    silence_ms: Option<u64>,
    hold_after_ms: u64,
    now_ns: u64,
) -> RcState {
    let paused = silence_ms is None || silence_ms->0 > hold_after_ms;
    let y = RcState {
        a: AgentView { rc_disengage: false, ..x.a },
        s: Session { lockout: x.s.lockout && !paused, ..x.s },
        ..x
    };
    if x.a.rc_disengage && y.s.engaged {
        kicked(released(y, ReleaseReason::Operator), now_ns)
    } else if y.s.engaged && y.a.v.busy != RC_MANUAL@ {
        released(y, ReleaseReason::Superseded)
    } else {
        y
    }
}

/// A refusal is journaled when it differs from the last one.
pub open spec fn refused(x: RcState, reason: Refusal, busy: Seq<char>) -> RcState {
    if x.s.refusal == Some(reason) {
        x
    } else {
        RcState {
            s: Session { refusal: Some(reason), ..x.s },
            acts: x.acts.push(RcActView::Refused { reason, busy }),
            ..x
        }
    }
}

/// The session takes the vehicle.
pub open spec fn engaged(x: RcState, paused: Option<Seq<char>>) -> RcState {
    RcState {
        a: AgentView { rc_engaged: true, ..x.a },
        s: Session { engaged: true, refusal: None, ..x.s },
        acts: x.acts.push(RcActView::Engaged { paused }).push(
            RcActView::Failsafe(RcIntent::ResumeManual),
        ),
        ..x
    }
}

/// Frames of a session that is not engaged arbitrate for the vehicle.
pub open spec fn engage_attempt(x: RcState, arm_gesture: bool, pause_allowed: bool) -> RcState {
    if x.s.lockout {
        refused(x, Refusal::ReleasedLockout, Seq::empty())
    } else {
        let (v, outcome) = rc_seize_step(x.a.v, arm_gesture, pause_allowed);
        let y = RcState { a: AgentView { v, ..x.a }, ..x };
        match outcome {
            RcSeizeView::Engaged => engaged(y, None),
            RcSeizeView::EngagedPaused { paused_task_id } => engaged(y, Some(paused_task_id)),
            RcSeizeView::Refused { busy, reason } => refused(y, Refusal::Seize(reason), busy),
        }
    }
}

/// What a frame does.
pub open spec fn frame_step(x: RcState, arm_gesture: bool, pause_allowed: bool) -> RcState {
    let y = if x.s.engaged {
        x
    } else {
        engage_attempt(x, arm_gesture, pause_allowed)
    };
    if y.s.engaged {
        RcState { acts: y.acts.push(RcActView::Override), ..y }
    } else {
        y
    }
}

/// What a transition of the silence ladder does to an engaged session.
pub open spec fn intent_step(x: RcState, intent: RcIntent, smart_rtl: bool) -> RcState {
    if !x.s.engaged {
        x
    } else {
        let y = RcState { acts: x.acts.push(RcActView::Failsafe(intent)), ..x };
        match intent {
            RcIntent::ResumeManual => y,
            RcIntent::Hold => RcState { acts: y.acts.push(RcActView::Hold), ..y },
            RcIntent::EmergencyStop => RcState {
                acts: y.acts.push(RcActView::ReleaseChannels).push(RcActView::Land),
                ..y
            },
            RcIntent::Rtl => {
                let z = released(y, ReleaseReason::SilenceRtl);
                RcState {
                    a: AgentView {
                        v: VehicleView {
                            q: flushed(z.a.v.q),
                            busy: if smart_rtl {
                                RTL@
                            } else {
                                z.a.v.busy
                            },
                            ..z.a.v
                        },
                        ..z.a
                    },
                    acts: z.acts.push(
                        if smart_rtl {
                            RcActView::Send(AgentCommand::SmartRtl)
                        } else {
                            RcActView::NativeRtl
                        },
                    ),
                    events: z.events + abort_events(z.a.v.q.pending, AbortedBy::RcFailsafe),
                    ..z
                }
            },
        }
    }
}

/// What was performed and journaled so far.
#[derive(Debug)]
pub struct RcOut {
    pub acts: Vec<RcAct>,
    pub events: Vec<QueueEvent>,
}

impl RcOut {
    /// Nothing yet.
    pub fn new() -> (r: Self)
        ensures
            acts(r.acts@) == Seq::<RcActView>::empty(),
            events(r.events@) == Seq::<QueueEventView>::empty(),
    {
        let r = RcOut { acts: Vec::new(), events: Vec::new() };
        assert(acts(r.acts@) =~= Seq::<RcActView>::empty());
        assert(events(r.events@) =~= Seq::<QueueEventView>::empty());
        r
    }

    fn act(&mut self, a: RcAct)
        ensures
            acts(final(self).acts@) == acts(old(self).acts@).push(a@),
            final(self).events == old(self).events,
    {
        proof {
            lemma_acts_push(self.acts@, a);
        }
        self.acts.push(a);
    }

    fn journal(&mut self, more: Vec<QueueEvent>)
        ensures
            events(final(self).events@) == events(old(self).events@) + events(more@),
            final(self).acts == old(self).acts,
    {
        let ghost before = self.events@;
        let mut rest = more;
        self.events.append(&mut rest);
        assert(events(before + more@) =~= events(before) + events(more@));
    }
}

/// The state that an agent, a session and their output make.
pub open spec fn state_of(agent: AgentShared, s: Session, out: RcOut) -> RcState {
    RcState { a: agent@, s, acts: acts(out.acts@), events: events(out.events@) }
}

impl Session {
    /// No session yet.
    pub fn new() -> (r: Self)
        ensures
            r == (Session { engaged: false, refusal: None, lockout: false }),
    {
        Session { engaged: false, refusal: None, lockout: false }
    }

    /// Release channel authority and the claim. The caller decides what
    /// happens to the queue.
    fn release(&mut self, agent: &mut AgentShared, reason: ReleaseReason, out: &mut RcOut)
        ensures
            state_of(*final(agent), *final(self), *final(out)) == released(
                state_of(*old(agent), *old(self), *old(out)),
                reason,
            ),
            final(agent).same_setup(*old(agent)),
    {
        out.act(RcAct::ReleaseChannels);
        if same(agent.vehicle.busy.as_str(), RC_MANUAL) {
            agent.vehicle.busy = String::new();
        }
        self.engaged = false;
        self.lockout = true;
        agent.rc_engaged = false;
        out.act(RcAct::Released(reason));
    }

    /// Begin a tick. `silence_ms` is how long the stream has been silent,
    /// measured before this tick's frames; `None` when none came yet.
    pub fn begin_tick(
        &mut self,
        agent: &mut AgentShared,
        silence_ms: Option<u64>,
        hold_after_ms: u64,
        now_ns: u64,
        out: &mut RcOut,
    )
        requires
            old(agent).valid(),
        ensures
            state_of(*final(agent), *final(self), *final(out)) == tick_start(
                state_of(*old(agent), *old(self), *old(out)),
                silence_ms,
                hold_after_ms,
                now_ns,
            ),
            final(agent).same_setup(*old(agent)),
            final(agent).valid(),
    {
        let paused = match silence_ms {
            None => true,
            Some(silence) => silence > hold_after_ms,
        };
        if self.lockout && paused {
            self.lockout = false;
        }
        let asked = agent.rc_disengage;
        agent.rc_disengage = false;
        if asked && self.engaged {
            self.release(agent, ReleaseReason::Operator, out);
            proof {
                kick_keeps_queue_valid(agent@.v, now_ns);
            }
            let (started, journal) = agent.vehicle.kick(now_ns);
            if let Some(true) = started {
                out.act(RcAct::SpawnDriver);
            }
            out.journal(journal);
        } else if self.engaged && !same(agent.vehicle.busy.as_str(), RC_MANUAL) {
            self.release(agent, ReleaseReason::Superseded, out);
        }
    }

    fn refuse(&mut self, reason: Refusal, busy: String, out: &mut RcOut, Ghost(a): Ghost<AgentShared>)
        ensures
            state_of(a, *final(self), *final(out)) == refused(
                state_of(a, *old(self), *old(out)),
                reason,
                busy@,
            ),
    {
        if self.refusal != Some(reason) {
            self.refusal = Some(reason);
            out.act(RcAct::Refused { reason, busy });
        }
    }

    fn engage(&mut self, agent: &mut AgentShared, paused: Option<String>, out: &mut RcOut)
        ensures
            state_of(*final(agent), *final(self), *final(out)) == engaged(
                state_of(*old(agent), *old(self), *old(out)),
                match paused {
                    Some(p) => Some(p@),
                    None => None,
                },
            ),
            final(agent).same_setup(*old(agent)),
    {
        self.engaged = true;
        self.refusal = None;
        agent.rc_engaged = true;
        out.act(RcAct::Engaged { paused });
        out.act(RcAct::Failsafe(RcIntent::ResumeManual));
    }

    /// An admitted frame: it takes the vehicle if it may, and moves it if the
    /// session is engaged.
    pub fn on_frame(
        &mut self,
        agent: &mut AgentShared,
        arm_gesture: bool,
        preempt: RcPreempt,
        out: &mut RcOut,
    )
        requires
            old(agent).valid(),
        ensures
            state_of(*final(agent), *final(self), *final(out)) == frame_step(
                state_of(*old(agent), *old(self), *old(out)),
                arm_gesture,
                preempt == RcPreempt::PauseMission,
            ),
            final(agent).same_setup(*old(agent)),
            final(agent).valid(),
    {
        if !self.engaged {
            if self.lockout {
                self.refuse(Refusal::ReleasedLockout, String::new(), out, Ghost(*agent));
            } else {
                let pause_allowed = preempt == RcPreempt::PauseMission;
                proof {
                    rc_seize_keeps_queue_valid(agent@.v, arm_gesture, pause_allowed);
                }
                match agent.vehicle.rc_seize(arm_gesture, pause_allowed) {
                    RcSeize::Engaged => {
                        self.engage(agent, None, out);
                    },
                    RcSeize::EngagedPaused { paused_task_id } => {
                        self.engage(agent, Some(paused_task_id), out);
                    },
                    RcSeize::Refused { busy, reason } => {
                        self.refuse(Refusal::Seize(reason), busy, out, Ghost(*agent));
                    },
                }
            }
        }
        if self.engaged {
            out.act(RcAct::Override);
        }
    }

    /// A transition of the silence ladder.
    pub fn on_intent(&mut self, agent: &mut AgentShared, intent: RcIntent, out: &mut RcOut)
        requires
            old(agent).valid(),
        ensures
            state_of(*final(agent), *final(self), *final(out)) == intent_step(
                state_of(*old(agent), *old(self), *old(out)),
                intent,
                old(agent).smart_rtl,
            ),
            final(agent).same_setup(*old(agent)),
            final(agent).valid(),
    {
        if !self.engaged {
            return;
        }
        out.act(RcAct::Failsafe(intent));
        match intent {
            RcIntent::ResumeManual => {},
            RcIntent::Hold => {
                out.act(RcAct::Hold);
            },
            RcIntent::EmergencyStop => {
                out.act(RcAct::ReleaseChannels);
                out.act(RcAct::Land);
            },
            RcIntent::Rtl => {
                self.release(agent, ReleaseReason::SilenceRtl, out);
                proof {
                    flush_keeps_queue_valid(agent@.v.q);
                }
                let journal = agent.vehicle.flush_pending(AbortedBy::RcFailsafe);
                out.journal(journal);
                if agent.smart_rtl {
                    agent.vehicle.busy = RTL.to_owned();
                    out.act(RcAct::Send(AgentCommand::SmartRtl));
                } else {
                    out.act(RcAct::NativeRtl);
                }
            },
        }
    }

    /// The receiver stops.
    pub fn shut_down(&mut self, agent: &mut AgentShared, out: &mut RcOut)
        requires
            old(agent).valid(),
        ensures
            state_of(*final(agent), *final(self), *final(out)) == (if old(self).engaged {
                released(
                    state_of(*old(agent), *old(self), *old(out)),
                    ReleaseReason::Shutdown,
                )
            } else {
                state_of(*old(agent), *old(self), *old(out))
            }),
            final(agent).same_setup(*old(agent)),
            final(agent).valid(),
    {
        if self.engaged {
            self.release(agent, ReleaseReason::Shutdown, out);
        }
    }
}

// ---------------------------------------------------------------------------
// what a session promises
// ---------------------------------------------------------------------------

/// The agent's flag tells whether the session is engaged, and an engaged
/// session is not locked out.
pub open spec fn session_inv(x: RcState) -> bool {
    x.a.rc_engaged == x.s.engaged && !(x.s.engaged && x.s.lockout)
}

/// Every step of a session keeps the flag and the ledger in agreement.
pub proof fn sessions_stay_consistent(
    x: RcState,
    silence_ms: Option<u64>,
    hold_after_ms: u64,
    now_ns: u64,
    arm_gesture: bool,
    pause_allowed: bool,
    intent: RcIntent,
    smart_rtl: bool,
)
    requires
        session_inv(x),
    ensures
        session_inv(tick_start(x, silence_ms, hold_after_ms, now_ns)),
        session_inv(frame_step(x, arm_gesture, pause_allowed)),
        session_inv(intent_step(x, intent, smart_rtl)),
{
}

/// The ladder is sovereign: once it took the vehicle, the next tick gives the
/// sticks back and leaves the vehicle and its queue as the ladder set them.
pub proof fn ladder_takes_the_vehicle_back(
    x: RcState,
    silence_ms: Option<u64>,
    hold_after_ms: u64,
    now_ns: u64,
)
    requires
        x.s.engaged,
        !x.a.rc_disengage,
        x.a.v.busy != RC_MANUAL@,
    ensures
        ({
            let y = tick_start(x, silence_ms, hold_after_ms, now_ns);
            &&& !y.s.engaged && y.s.lockout && !y.a.rc_engaged
            &&& y.a.v == x.a.v
            &&& y.acts == x.acts.push(RcActView::ReleaseChannels).push(
                RcActView::Released(ReleaseReason::Superseded),
            )
        }),
{
}

/// A released stream cannot take the vehicle again until it paused: its
/// frames change nothing, and a tick without a pause keeps it locked out.
pub proof fn released_streams_are_locked_out(
    x: RcState,
    silence_ms: u64,
    hold_after_ms: u64,
    now_ns: u64,
    arm_gesture: bool,
    pause_allowed: bool,
)
    requires
        x.s.lockout && !x.s.engaged,
        silence_ms <= hold_after_ms,
    ensures
        tick_start(x, Some(silence_ms), hold_after_ms, now_ns).s.lockout,
        !tick_start(x, Some(silence_ms), hold_after_ms, now_ns).s.engaged,
        frame_step(x, arm_gesture, pause_allowed).a == x.a,
        !frame_step(x, arm_gesture, pause_allowed).s.engaged,
        frame_step(x, arm_gesture, pause_allowed).s.lockout,
{
}

/// Frames move a vehicle only for an engaged session, and a refused frame
/// leaves the vehicle as it was.
pub proof fn only_engaged_sessions_move_the_vehicle(
    x: RcState,
    arm_gesture: bool,
    pause_allowed: bool,
)
    requires
        !x.s.engaged,
        !frame_step(x, arm_gesture, pause_allowed).s.engaged,
    ensures
        frame_step(x, arm_gesture, pause_allowed).a == x.a,
        x.acts.is_prefix_of(frame_step(x, arm_gesture, pause_allowed).acts),
        !frame_step(x, arm_gesture, pause_allowed).acts.skip(x.acts.len() as int).contains(
            RcActView::Override,
        ),
{
    let y = frame_step(x, arm_gesture, pause_allowed);
    if y.acts.len() > x.acts.len() {
        assert(y.acts.skip(x.acts.len() as int) =~= seq![y.acts.last()]);
    } else {
        assert(y.acts.skip(x.acts.len() as int) =~= Seq::empty());
    }
    assert(x.acts =~= y.acts.take(x.acts.len() as int));
}

/// A refusal is journaled once: the same refusal again adds nothing.
pub proof fn repeated_refusals_are_silent(x: RcState, arm_gesture: bool, pause_allowed: bool)
    requires
        !x.s.engaged,
        !frame_step(x, arm_gesture, pause_allowed).s.engaged,
    ensures
        ({
            let y = frame_step(x, arm_gesture, pause_allowed);
            frame_step(y, arm_gesture, pause_allowed) == y
        }),
{
}

/// A pilot lost to silence is a ladder stop: the session ends and nothing
/// queued survives.
pub proof fn silence_ends_the_session(x: RcState, smart_rtl: bool)
    requires
        x.s.engaged,
    ensures
        ({
            let y = intent_step(x, RcIntent::Rtl, smart_rtl);
            &&& !y.s.engaged && y.s.lockout && !y.a.rc_engaged
            &&& y.a.v.q.pending.len() == 0
            &&& smart_rtl ==> y.a.v.busy == RTL@
        }),
{
}

/// What was performed between two states.
pub open spec fn performed(x: RcState, y: RcState) -> Seq<RcActView> {
    y.acts.skip(x.acts.len() as int)
}

/// What a silent or safing link does to an engaged vehicle. A hold holds, an
/// emergency stop gives the sticks back and lands, and both keep the session;
/// resumed frames command nothing. A link that stays silent gives the sticks
/// back and then brings the vehicle home, by the one return that it has: the
/// smart one, under its own label, or the autopilot's own. Nothing calls that
/// return off, and what was journaled and commanded before stays.
pub proof fn lost_links_are_answered(x: RcState, intent: RcIntent, smart_rtl: bool)
    requires
        x.s.engaged,
    ensures
        ({
            let y = intent_step(x, intent, smart_rtl);
            let did = performed(x, y);
            &&& x.acts.is_prefix_of(y.acts)
            &&& did.len() > 0 && did[0] == RcActView::Failsafe(intent)
            &&& intent == RcIntent::ResumeManual ==> did.len() == 1
            &&& intent == RcIntent::Hold ==> did.len() == 2 && did[1] == RcActView::Hold
            &&& intent == RcIntent::EmergencyStop ==> did.len() == 3 && did[1]
                == RcActView::ReleaseChannels && did[2] == RcActView::Land
            &&& intent == RcIntent::Rtl ==> did.len() == 4 && did[1]
                == RcActView::ReleaseChannels && did[2] == RcActView::Released(
                ReleaseReason::SilenceRtl,
            )
            &&& intent == RcIntent::Rtl && smart_rtl ==> did[3] == RcActView::Send(
                AgentCommand::SmartRtl,
            ) && y.a.v.busy == "rtl"@
            &&& intent == RcIntent::Rtl && !smart_rtl ==> did[3] == RcActView::NativeRtl
                && (x.a.v.busy == "rc-manual"@ ==> y.a.v.busy.len() == 0)
            &&& !did.contains(RcActView::Send(AgentCommand::AbortRtl))
            &&& y.s.engaged <==> intent != RcIntent::Rtl
            &&& y.a.rc_engaged == (x.a.rc_engaged && intent != RcIntent::Rtl)
            &&& intent != RcIntent::Rtl ==> y.a == x.a && y.s == x.s && y.events == x.events
            &&& y.a.v.q.active == x.a.v.q.active && y.a.v.abort == x.a.v.abort
            &&& y.a.watchpoints == x.a.watchpoints && y.a.detour == x.a.detour
        }),
        // Everything that waited is journaled as aborted by the lost link.
        ({
            let y = intent_step(x, RcIntent::Rtl, smart_rtl);
            let n = x.events.len();
            &&& y.events.len() == n + x.a.v.q.pending.len()
            &&& forall|i: int|
                0 <= i < x.a.v.q.pending.len() ==> #[trigger] y.events[n + i]
                    == (QueueEventView::TaskAborted {
                    task_id: x.a.v.q.pending[i].task_id,
                    kind: x.a.v.q.pending[i].kind,
                    by: AbortedBy::RcFailsafe,
                })
        }),
{
    let y = intent_step(x, intent, smart_rtl);
    let did = performed(x, y);
    assert(x.acts =~= y.acts.take(x.acts.len() as int));
    assert forall|i: int| 0 <= i < did.len() implies did[i] != RcActView::Send(
        AgentCommand::AbortRtl,
    ) by {
        assert(did[i] == y.acts[x.acts.len() + i]);
    }
}

/// A session that is not engaged hears nothing of the silence ladder.
pub proof fn idle_links_are_left_alone(x: RcState, intent: RcIntent, smart_rtl: bool)
    requires
        !x.s.engaged,
    ensures
        intent_step(x, intent, smart_rtl) == x,
{
}

/// Who takes the sticks. A frame moves the vehicle exactly if the session is
/// engaged afterwards. An idle vehicle is taken at once; an occupied one only
/// by a deliberate gesture with the permission to pause, from the queue task
/// that owns it and never from a return to launch; and a released stream not
/// at all. A taken vehicle flies under the session's label, without an abort
/// unless a task has to give way, whose remainder waits at the front.
pub proof fn frames_take_the_sticks_by_the_rules(
    x: RcState,
    arm_gesture: bool,
    pause_allowed: bool,
)
    ensures
        ({
            let y = frame_step(x, arm_gesture, pause_allowed);
            let did = performed(x, y);
            let v = x.a.v;
            let idle = v.busy.len() == 0;
            let pausable = arm_gesture && pause_allowed && v.busy != "rtl"@ && v.q.active is Some
                && v.q.active->0.kind.text() == v.busy;
            &&& x.s.engaged ==> y.a == x.a && y.s == x.s && did == seq![RcActView::Override]
            &&& !x.s.engaged ==> (y.s.engaged <==> !x.s.lockout && (idle || pausable))
            &&& y.s.engaged ==> did.len() > 0 && did.last() == RcActView::Override
            &&& !y.s.engaged ==> !did.contains(RcActView::Override)
            &&& !x.s.engaged && y.s.engaged ==> {
                &&& y.a.v.busy == "rc-manual"@
                &&& y.a.rc_engaged && y.s.refusal is None
                &&& y.a.v.abort <==> !idle
                &&& !y.a.v.operator_abort
                &&& !idle ==> y.a.v.q.preempt_insert_at == Some(0nat)
                &&& idle ==> y.a.v.q == v.q
                &&& did[0] == (RcActView::Engaged {
                    paused: if idle {
                        None
                    } else {
                        Some(v.q.active->0.task_id)
                    },
                })
                &&& did[1] == RcActView::Failsafe(RcIntent::ResumeManual)
            }
            &&& !y.s.engaged ==> y.a == x.a
            &&& !y.s.engaged && did.len() > 0 ==> did[0] is Refused && did[0]->Refused_reason == (
            if x.s.lockout {
                Refusal::ReleasedLockout
            } else if !arm_gesture {
                Refusal::Seize(SeizeRefusal::ArmGestureRequired)
            } else if v.busy == "rtl"@ {
                Refusal::Seize(SeizeRefusal::RtlOwnsVehicle)
            } else if !pause_allowed {
                Refusal::Seize(SeizeRefusal::PreemptDenied)
            } else {
                Refusal::Seize(SeizeRefusal::UnpausableOwner)
            })
        }),
{
    let y = frame_step(x, arm_gesture, pause_allowed);
    let did = performed(x, y);
    reveal_strlit("rtl");
    reveal_strlit("rc-manual");
    if x.s.engaged {
        assert(did =~= seq![RcActView::Override]);
    } else if y.s.engaged {
        assert(did.len() == 3);
    } else {
        assert(did.len() <= 1);
        if did.len() > 0 {
            assert(did =~= seq![y.acts.last()]);
        }
    }
}

/// A refusal is told once: a frame that is refused for another reason than the
/// last one was says so, with the owner that stood in its way, and one that is
/// refused for the same reason again says nothing.
pub proof fn first_refusals_are_told(x: RcState, arm_gesture: bool, pause_allowed: bool)
    requires
        !frame_step(x, arm_gesture, pause_allowed).s.engaged,
    ensures
        ({
            let y = frame_step(x, arm_gesture, pause_allowed);
            let did = performed(x, y);
            &&& y.s.refusal is Some
            &&& y.s.refusal != x.s.refusal <==> did.len() == 1
            &&& y.s.refusal == x.s.refusal <==> did.len() == 0
            &&& did.len() == 1 ==> did[0] is Refused && Some(did[0]->Refused_reason) == y.s.refusal
                && did[0]->Refused_busy == (if x.s.lockout {
                Seq::empty()
            } else {
                x.a.v.busy
            })
        }),
{
}

/// What the beginning of a tick gives back. An engaged session ends exactly if
/// its release was asked for or another command took its label, and only the
/// first lets the queue go on; either way the sticks are given back once and
/// the stream is locked out. A lockout lifts exactly when the stream has
/// paused longer than a hold allows.
pub proof fn ticks_give_the_sticks_back(
    x: RcState,
    silence_ms: Option<u64>,
    hold_after_ms: u64,
    now_ns: u64,
)
    ensures
        ({
            let y = tick_start(x, silence_ms, hold_after_ms, now_ns);
            let did = performed(x, y);
            let asked = x.s.engaged && x.a.rc_disengage;
            let taken = x.s.engaged && !x.a.rc_disengage && x.a.v.busy != "rc-manual"@;
            &&& !y.a.rc_disengage
            &&& y.s.engaged <==> x.s.engaged && !asked && !taken
            &&& !asked && !taken ==> did.len() == 0 && y.a.v == x.a.v && y.a.rc_engaged
                == x.a.rc_engaged && y.events == x.events
            &&& !asked && !taken ==> (y.s.lockout <==> x.s.lockout && silence_ms is Some
                && silence_ms->0 <= hold_after_ms)
            &&& asked || taken ==> y.s.lockout && !y.a.rc_engaged && did.len() >= 2 && did[0]
                == RcActView::ReleaseChannels
            &&& asked ==> did[1] == RcActView::Released(ReleaseReason::Operator)
            &&& taken ==> did.len() == 2 && did[1] == RcActView::Released(
                ReleaseReason::Superseded,
            ) && y.a.v == x.a.v
            &&& y.s.refusal == x.s.refusal
        }),
{
    reveal_strlit("rc-manual");
}

/// An operator's release of a session on an otherwise idle vehicle lets the
/// queue go on at once: the front entry flies.
pub proof fn operator_release_resumes_the_queue(
    x: RcState,
    silence_ms: Option<u64>,
    hold_after_ms: u64,
    now_ns: u64,
)
    requires
        x.s.engaged,
        x.a.rc_disengage,
        x.a.v.busy == RC_MANUAL@,
        !x.a.v.abort,
        x.a.v.q.active is None,
        x.a.v.q.pending.len() > 0,
    ensures
        ({
            let y = tick_start(x, silence_ms, hold_after_ms, now_ns);
            &&& !y.s.engaged
            &&& y.a.v.q.active == Some(
                crate::queue_model::starting(x.a.v.q.pending[0], now_ns),
            )
            &&& y.a.v.busy == x.a.v.q.pending[0].kind.text()
        }),
{
}

} // verus!
