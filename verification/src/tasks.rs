//! Task kinds, states and origins, and the queue snapshot a vehicle
//! publishes.

use vstd::prelude::*;

use crate::quantity::Real;

verus! {

/// What the queue engine schedules. Watchpoints stay outside the queue: they
/// ride along with whatever the vehicle is doing.
#[derive(Clone, Copy, Debug, PartialEq, Eq, Structural)]
pub enum TaskKind {
    RasterSearch,
    Investigate,
    SensorOverride,
}

impl TaskKind {
    /// The busy label of a task of this kind.
    pub open spec fn text(self) -> Seq<char> {
        match self {
            TaskKind::RasterSearch => "raster-search"@,
            TaskKind::Investigate => "investigate"@,
            TaskKind::SensorOverride => "sensor-override"@,
        }
    }

    /// The busy label of a task of this kind.
    pub fn as_str(&self) -> (r: &'static str)
        ensures
            r@ == self.text(),
    {
        match self {
            TaskKind::RasterSearch => "raster-search",
            TaskKind::Investigate => "investigate",
            TaskKind::SensorOverride => "sensor-override",
        }
    }

    /// Labels tell kinds apart, and none is empty.
    pub proof fn labels_are_distinct(a: TaskKind, b: TaskKind)
        ensures
            a.text() == b.text() ==> a == b,
            a.text().len() > 0,
            a.text() != "rtl"@,
            a.text() != "rc-manual"@,
            a.text() != "takeoff"@,
    {
        reveal_strlit("raster-search");
        reveal_strlit("investigate");
        reveal_strlit("sensor-override");
        reveal_strlit("rtl");
        reveal_strlit("rc-manual");
        reveal_strlit("takeoff");
        assert("raster-search"@[0] != "investigate"@[0]);
        assert("raster-search"@[0] != "sensor-override"@[0]);
        assert("investigate"@[0] != "sensor-override"@[0]);
        assert("raster-search"@.len() == 13);
        assert("investigate"@.len() == 11);
        assert("sensor-override"@.len() == 15);
        assert("rtl"@.len() == 3);
        assert("rc-manual"@.len() == 9);
        assert("takeoff"@.len() == 7);
    }
}

/// Where a task stands.
#[derive(Clone, Copy, Debug, PartialEq, Eq, Structural)]
pub enum TaskState {
    /// The one task currently flying.
    Active,
    /// Waiting in the queue.
    Pending,
    /// Ran to its natural end (also the parent side of a split).
    Done,
    /// Cancelled (operator, ladder command, queue flush).
    Aborted,
    /// Ended without completing (timeout, could not get airborne).
    Failed,
}

impl TaskState {
    /// The published word.
    pub open spec fn text(self) -> Seq<char> {
        match self {
            TaskState::Active => "active"@,
            TaskState::Pending => "pending"@,
            TaskState::Done => "done"@,
            TaskState::Aborted => "aborted"@,
            TaskState::Failed => "failed"@,
        }
    }

    /// The published word.
    pub fn as_str(&self) -> (r: &'static str)
        ensures
            r@ == self.text(),
    {
        match self {
            TaskState::Active => "active",
            TaskState::Pending => "pending",
            TaskState::Done => "done",
            TaskState::Aborted => "aborted",
            TaskState::Failed => "failed",
        }
    }
}

/// Who asked for a task.
#[derive(Clone, Copy, Debug, PartialEq, Eq, Structural)]
pub enum TaskOrigin {
    /// Issued by the operator.
    Operator,
    /// Dispatched by the mission machine.
    Dispatch,
    /// Continuation of a preempted task.
    Split,
}

impl TaskOrigin {
    /// The published word.
    pub open spec fn text(self) -> Seq<char> {
        match self {
            TaskOrigin::Operator => "operator"@,
            TaskOrigin::Dispatch => "dispatch"@,
            TaskOrigin::Split => "split"@,
        }
    }

    /// The published word.
    pub fn as_str(&self) -> (r: &'static str)
        ensures
            r@ == self.text(),
    {
        match self {
            TaskOrigin::Operator => "operator",
            TaskOrigin::Dispatch => "dispatch",
            TaskOrigin::Split => "split",
        }
    }
}

/// Live progress of the active task.
#[derive(Debug)]
pub struct TaskProgress {
    /// Percent complete, 0..100.
    pub pct: Real,
    /// Human-readable note ("leg 3/7, 12 frames").
    pub detail: String,
    /// Estimated seconds to completion.
    pub eta_s: Real,
}

/// Progress by its values.
#[verifier::ext_equal]
pub struct TaskProgressView {
    pub pct: Real,
    pub detail: Seq<char>,
    pub eta_s: Real,
}

impl View for TaskProgress {
    type V = TaskProgressView;

    open spec fn view(&self) -> TaskProgressView {
        TaskProgressView { pct: self.pct, detail: self.detail@, eta_s: self.eta_s }
    }
}

impl Clone for TaskProgress {
    fn clone(&self) -> (r: Self)
        ensures
            r == *self,
    {
        TaskProgress { pct: self.pct, detail: self.detail.clone(), eta_s: self.eta_s }
    }
}

} // verus!
