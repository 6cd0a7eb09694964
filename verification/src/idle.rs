//! What happens to a vehicle when its task ends: releasing it, the hand-over
//! after an operator's cancel, and the post-task idle policy.

use vstd::prelude::*;

use crate::agent::{effects, AgentCommand, AgentShared, AgentView, Effect, EffectView};
use crate::config::{IdlePolicy, IdlePolicyView};
use crate::mission::FlightOutcome;
use crate::queue_model::{VehicleView, RTL};
use crate::text::same;

verus! {

/// What the idle policy does with a vehicle.
#[derive(Clone, Copy, Debug, PartialEq, Eq, Structural)]
pub enum IdleAction {
    /// Something owns the vehicle: nothing is decided.
    Owned,
    /// Hover where the task ended.
    Hover,
    /// Climb to the altitude slot.
    ClimbToSlot,
    /// The policy asks for a slot and there is none: hover.
    HoverWithoutSlot,
    /// Arm the timer that ends in a return to launch.
    ArmTimer,
}

/// The vehicle is nobody's.
pub open spec fn unclaimed(v: VehicleView) -> bool {
    !v.abort && v.busy.len() == 0
}

/// What the idle policy decides.
pub open spec fn idle_decision(v: VehicleView, policy: IdlePolicyView, has_slot: bool) -> IdleAction {
    if !unclaimed(v) {
        IdleAction::Owned
    } else {
        match policy {
            IdlePolicyView::Hold => IdleAction::Hover,
            IdlePolicyView::SlotHold => if has_slot {
                IdleAction::ClimbToSlot
            } else {
                IdleAction::HoverWithoutSlot
            },
            IdlePolicyView::RtlAfter(_) => IdleAction::ArmTimer,
        }
    }
}

/// What a poll of the armed timer finds.
#[derive(Clone, Copy, Debug, PartialEq, Eq, Structural)]
pub enum TimerPoll {
    /// A task or a command claimed the vehicle.
    Cancelled,
    Waiting,
    /// The time is up: return to launch, by the smart procedure or natively.
    Return { smart: bool },
}

impl AgentShared {
    /// Apply the post-task idle policy after a task ran to its natural end. A
    /// task accepted in between wins.
    pub fn apply_idle_policy(&self, policy: &IdlePolicy, has_slot: bool) -> (r: IdleAction)
        ensures
            r == idle_decision(self@.v, policy@, has_slot),
    {
        if self.vehicle.abort || !self.vehicle.busy.as_str().is_empty() {
            return IdleAction::Owned;
        }
        match policy {
            IdlePolicy::Hold => IdleAction::Hover,
            IdlePolicy::SlotHold => if has_slot {
                IdleAction::ClimbToSlot
            } else {
                IdleAction::HoverWithoutSlot
            },
            IdlePolicy::RtlAfter(_) => IdleAction::ArmTimer,
        }
    }

    /// Poll the armed return-to-launch timer; `due` says that its time is up.
    pub fn poll_idle_timer(&mut self, due: bool) -> (r: (TimerPoll, Vec<Effect>))
        ensures
            r.0 == (if !unclaimed(old(self)@.v) {
                TimerPoll::Cancelled
            } else if due {
                TimerPoll::Return { smart: old(self).smart_rtl }
            } else {
                TimerPoll::Waiting
            }),
            ({
                let smart = r.0 == TimerPoll::Return { smart: true };
                &&& effects(r.1@) == (if smart {
                    seq![EffectView::Send(AgentCommand::SmartRtl)]
                } else {
                    Seq::empty()
                })
                &&& final(self)@ == (if smart {
                    AgentView { v: VehicleView { busy: RTL@, ..old(self)@.v }, ..old(self)@ }
                } else {
                    old(self)@
                })
            }),
            final(self).same_setup(*old(self)),
    {
        let mut todo: Vec<Effect> = Vec::new();
        assert(effects(todo@) =~= Seq::<EffectView>::empty());
        if self.vehicle.abort || !self.vehicle.busy.as_str().is_empty() {
            return (TimerPoll::Cancelled, todo);
        }
        if !due {
            return (TimerPoll::Waiting, todo);
        }
        if self.smart_rtl {
            self.vehicle.busy = RTL.to_owned();
            todo.push(Effect::Send(AgentCommand::SmartRtl));
            assert(effects(todo@) =~= seq![EffectView::Send(AgentCommand::SmartRtl)]);
        }
        (TimerPoll::Return { smart: self.smart_rtl }, todo)
    }

    /// Whether the task with this label must end: an abort is up, or the
    /// vehicle is no longer its own.
    pub fn interrupted(&self, label: &str) -> (r: bool)
        ensures
            r == (self@.v.abort || self@.v.busy != label@),
    {
        self.vehicle.abort || !same(self.vehicle.busy.as_str(), label)
    }

    /// Release the vehicle while it is still held under the label; never clobber the
    /// command that interrupted it.
    pub fn clear_busy(&mut self, label: &str)
        ensures
            final(self)@ == (if old(self)@.v.busy == label@ {
                AgentView { v: VehicleView { busy: Seq::empty(), ..old(self)@.v }, ..old(self)@ }
            } else {
                old(self)@
            }),
            final(self).same_setup(*old(self)),
    {
        if same(self.vehicle.busy.as_str(), label) {
            self.vehicle.busy = String::new();
        }
    }

    /// A flight ended aborted. A scoped operator cancel means that the
    /// vehicle is simply idle again: the flags are consumed, and the idle
    /// policy applies. A ladder abort leaves the vehicle to its command.
    pub fn operator_abort_handoff(&mut self) -> (r: bool)
        ensures
            r == old(self)@.v.operator_abort,
            final(self)@ == (if r {
                AgentView {
                    v: VehicleView { abort: false, operator_abort: false, ..old(self)@.v },
                    ..old(self)@
                }
            } else {
                old(self)@
            }),
            final(self).same_setup(*old(self)),
    {
        if self.vehicle.operator_abort {
            self.vehicle.operator_abort = false;
            self.vehicle.abort = false;
            true
        } else {
            false
        }
    }

    /// The end of a task flown outside the queue: release the vehicle, and
    /// say whether the idle policy applies.
    pub fn release(&mut self, label: &str, outcome: FlightOutcome) -> (r: bool)
        ensures
            r == (outcome != FlightOutcome::Aborted || old(self)@.v.operator_abort),
            final(self)@ == released(old(self)@, label@, outcome),
            final(self).same_setup(*old(self)),
    {
        self.clear_busy(label);
        match outcome {
            FlightOutcome::Completed => true,
            FlightOutcome::TimedOut => true,
            FlightOutcome::Aborted => self.operator_abort_handoff(),
        }
    }

    /// The flight outcome of a task that never got airborne.
    pub fn grounded_outcome(&self, label: &str) -> (r: FlightOutcome)
        ensures
            r == (if self@.v.abort || self@.v.busy != label@ {
                FlightOutcome::Aborted
            } else {
                FlightOutcome::TimedOut
            }),
    {
        if self.interrupted(label) {
            FlightOutcome::Aborted
        } else {
            FlightOutcome::TimedOut
        }
    }
}

/// The agent after a task flown outside the queue ended.
pub open spec fn released(a: AgentView, label: Seq<char>, outcome: FlightOutcome) -> AgentView {
    let handed = outcome == FlightOutcome::Aborted && a.v.operator_abort;
    AgentView {
        v: VehicleView {
            busy: if a.v.busy == label {
                Seq::empty()
            } else {
                a.v.busy
            },
            abort: a.v.abort && !handed,
            operator_abort: a.v.operator_abort && !handed,
            ..a.v
        },
        ..a
    }
}

/// The idle policy only ever moves a vehicle that nobody owns, and a claim on
/// the vehicle cancels an armed timer.
pub proof fn idle_policy_respects_owners(v: VehicleView, policy: IdlePolicyView, has_slot: bool)
    requires
        v.abort || v.busy.len() > 0,
    ensures
        idle_decision(v, policy, has_slot) == IdleAction::Owned,
{
}

/// After a scoped cancel of the task in flight the vehicle is nobody's, so the
/// idle policy applies; after a ladder abort it is still its command's.
pub proof fn cancelled_tasks_hand_over_to_the_idle_policy(a: AgentView, label: Seq<char>)
    requires
        a.v.busy.len() == 0 || a.v.busy == label,
    ensures
        a.v.operator_abort ==> unclaimed(released(a, label, FlightOutcome::Aborted).v),
        a.v.abort && !a.v.operator_abort ==> !unclaimed(
            released(a, label, FlightOutcome::Aborted).v,
        ),
{
}

} // verus!
