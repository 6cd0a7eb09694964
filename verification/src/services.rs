//! The vehicle service contract: requests and the acknowledgement every
//! operation returns.

use vstd::prelude::*;

use crate::policy::PolicyRejection;
use crate::quantity::{real_zero, zero, Quantity, Real};
use crate::text::views;

verus! {

/// Service acknowledgement. `detail` is the provider's note in both
/// directions: on acceptance it says what will happen, on a refusal it is the
/// reason. An error exists only when `accepted` is false.
#[derive(Debug)]
pub struct Ack {
    pub accepted: bool,
    /// Machine-readable refusal code, or an advisory code (`queued`) of an
    /// acceptance; empty otherwise.
    pub code: String,
    /// Human-readable detail.
    pub detail: String,
}

/// An acknowledgement by its texts.
pub struct AckView {
    pub accepted: bool,
    pub code: Seq<char>,
    pub detail: Seq<char>,
}

impl View for Ack {
    type V = AckView;

    open spec fn view(&self) -> AckView {
        AckView { accepted: self.accepted, code: self.code@, detail: self.detail@ }
    }
}

/// Accepted with a note.
pub open spec fn accepted_with(detail: Seq<char>) -> AckView {
    AckView { accepted: true, code: Seq::empty(), detail }
}

/// Refused with a code and a reason.
pub open spec fn refused_with(code: Seq<char>, detail: Seq<char>) -> AckView {
    AckView { accepted: false, code, detail }
}

/// Refused by a rail.
pub open spec fn rejected_by(rejection: PolicyRejection) -> AckView {
    refused_with(rejection.code_text(), rejection.detail_text())
}

impl Ack {
    /// Accepted, no note.
    pub fn ok() -> (r: Self)
        ensures
            r@ == accepted_with(Seq::empty()),
    {
        Ack { accepted: true, code: String::new(), detail: String::new() }
    }

    /// Accepted with a note.
    pub fn ok_detail(detail: &str) -> (r: Self)
        ensures
            r@ == accepted_with(detail@),
    {
        Ack { accepted: true, code: String::new(), detail: detail.to_owned() }
    }

    /// Accepted into the task queue: an acceptance with the advisory code.
    pub fn queued(detail: &str) -> (r: Self)
        ensures
            r@ == (AckView { accepted: true, code: "queued"@, detail: detail@ }),
    {
        Ack { accepted: true, code: "queued".to_owned(), detail: detail.to_owned() }
    }

    /// Refused by a rail.
    pub fn reject(rejection: &PolicyRejection) -> (r: Self)
        ensures
            r@ == rejected_by(*rejection),
    {
        Ack { accepted: false, code: rejection.code().to_owned(), detail: rejection.detail() }
    }

    /// Refused outside the rails, e.g. by the autopilot.
    pub fn refuse(code: &str, detail: &str) -> (r: Self)
        ensures
            r@ == refused_with(code@, detail@),
    {
        Ack { accepted: false, code: code.to_owned(), detail: detail.to_owned() }
    }

    /// Collapse a gate: `Ok` is accepted, `Err` a typed refusal.
    pub fn gate(result: Result<(), PolicyRejection>) -> (r: Self)
        ensures
            r@ == (match result {
                Ok(_) => accepted_with(Seq::empty()),
                Err(e) => rejected_by(e),
            }),
    {
        match result {
            Ok(_) => Ack::ok(),
            Err(rejection) => Ack::reject(&rejection),
        }
    }
}

/// A gate accepts exactly when it passed, and a refusal always names its
/// code: consumers tell the two apart by `accepted` alone.
pub proof fn gate_refusals_carry_a_code(result: Result<(), PolicyRejection>)
    ensures
        (match result {
            Ok(_) => accepted_with(Seq::empty()),
            Err(e) => rejected_by(e),
        }).accepted <==> result is Ok,
        result matches Err(e) ==> rejected_by(e).code.len() > 0,
{
    reveal_strlit("out-of-range");
    reveal_strlit("agl-out-of-bounds");
    reveal_strlit("busy");
    reveal_strlit("shutdown-confirm-mismatch");
    reveal_strlit("shutdown-while-armed");
    reveal_strlit("shutdown-while-busy");
    reveal_strlit("audio-out-of-range");
}

/// A takeoff to a height.
#[derive(Debug)]
pub struct TakeoffRequest {
    /// Target altitude, metres above ground.
    pub agl_m: Quantity,
}

/// Serpentine survey of the area within `corners`.
#[derive(Debug)]
pub struct RasterRequest {
    /// Survey altitude, metres above ground.
    pub agl_m: Real,
    /// Leg spacing, metres.
    pub spacing_m: Real,
    /// Along-track capture interval, metres (0 = no captures).
    pub capture_every_m: Real,
    /// Commanded ground speed, m/s.
    pub speed_m_s: Real,
    /// Area corners as `(lat_deg, lon_deg)`.
    pub corners: Vec<(Real, Real)>,
    /// Detection object query, empty = stub detector.
    pub object_query: String,
    /// Minimum detection confidence 0..1.
    pub min_confidence: Real,
    /// Distinct-target separation, metres.
    pub target_separation_m: Real,
    /// Mission id the artifacts publish under.
    pub mission_id: String,
}

/// A survey request by its values.
#[verifier::ext_equal]
pub struct RasterRequestView {
    pub agl_m: Real,
    pub spacing_m: Real,
    pub capture_every_m: Real,
    pub speed_m_s: Real,
    pub corners: Seq<(Real, Real)>,
    pub object_query: Seq<char>,
    pub min_confidence: Real,
    pub target_separation_m: Real,
    pub mission_id: Seq<char>,
}

impl View for RasterRequest {
    type V = RasterRequestView;

    open spec fn view(&self) -> RasterRequestView {
        RasterRequestView {
            agl_m: self.agl_m,
            spacing_m: self.spacing_m,
            capture_every_m: self.capture_every_m,
            speed_m_s: self.speed_m_s,
            corners: self.corners@,
            object_query: self.object_query@,
            min_confidence: self.min_confidence,
            target_separation_m: self.target_separation_m,
            mission_id: self.mission_id@,
        }
    }
}

impl Clone for RasterRequest {
    fn clone(&self) -> (r: Self)
        ensures
            r@ == self@,
    {
        let mut corners: Vec<(Real, Real)> = Vec::new();
        let mut i: usize = 0;
        while i < self.corners.len()
            invariant
                i <= self.corners@.len(),
                corners@ == self.corners@.take(i as int),
            decreases self.corners@.len() - i,
        {
            corners.push((self.corners[i].0, self.corners[i].1));
            assert(self.corners@.take(i + 1) =~= self.corners@.take(i as int).push(
                self.corners@[i as int],
            ));
            i = i + 1;
        }
        assert(corners@ =~= self.corners@);
        RasterRequest {
            agl_m: self.agl_m,
            spacing_m: self.spacing_m,
            capture_every_m: self.capture_every_m,
            speed_m_s: self.speed_m_s,
            corners,
            object_query: self.object_query.clone(),
            min_confidence: self.min_confidence,
            target_separation_m: self.target_separation_m,
            mission_id: self.mission_id.clone(),
        }
    }
}

impl Default for RasterRequest {
    fn default() -> (r: Self)
        ensures
            r@ == (RasterRequestView {
                agl_m: zero(),
                spacing_m: zero(),
                capture_every_m: zero(),
                speed_m_s: zero(),
                corners: Seq::empty(),
                object_query: Seq::empty(),
                min_confidence: zero(),
                target_separation_m: zero(),
                mission_id: Seq::empty(),
            }),
    {
        RasterRequest {
            agl_m: real_zero(),
            spacing_m: real_zero(),
            capture_every_m: real_zero(),
            speed_m_s: real_zero(),
            corners: Vec::new(),
            object_query: String::new(),
            min_confidence: real_zero(),
            target_separation_m: real_zero(),
            mission_id: String::new(),
        }
    }
}

/// Let the provider select by requested sensor and capability.
pub const PATTERN_AUTO: &'static str = "auto";

/// Force the continuous carrot-chasing orbit.
pub const PATTERN_ORBIT: &'static str = "orbit";

/// Force the acoustic flyover.
pub const PATTERN_FLYOVER: &'static str = "flyover";

/// Close inspection of a target point.
#[derive(Debug)]
pub struct InvestigateRequest {
    /// Target latitude, degrees.
    pub lat_deg: Real,
    /// Target longitude, degrees.
    pub lon_deg: Real,
    /// Orbit/cruise altitude, metres above ground.
    pub agl_m: Real,
    /// Orbit radius (or flyover dip radius), metres.
    pub radius_m: Real,
    /// Number of turns to fly (flyover: number of passes).
    pub turns: Real,
    /// Sensors to run during the inspection (`"camera"`, `"audio"`).
    pub sensors: Vec<String>,
    /// Mission id the artifacts publish under.
    pub mission_id: String,
    /// Flight pattern; empty means automatic selection.
    pub pattern: String,
}

/// An inspection request by its values.
#[verifier::ext_equal]
pub struct InvestigateRequestView {
    pub lat_deg: Real,
    pub lon_deg: Real,
    pub agl_m: Real,
    pub radius_m: Real,
    pub turns: Real,
    pub sensors: Seq<Seq<char>>,
    pub mission_id: Seq<char>,
    pub pattern: Seq<char>,
}

impl View for InvestigateRequest {
    type V = InvestigateRequestView;

    open spec fn view(&self) -> InvestigateRequestView {
        InvestigateRequestView {
            lat_deg: self.lat_deg,
            lon_deg: self.lon_deg,
            agl_m: self.agl_m,
            radius_m: self.radius_m,
            turns: self.turns,
            sensors: views(self.sensors@),
            mission_id: self.mission_id@,
            pattern: self.pattern@,
        }
    }
}

/// A copy of a list of strings.
pub fn copy_strings(v: &Vec<String>) -> (r: Vec<String>)
    ensures
        r@ == v@,
{
    let mut out: Vec<String> = Vec::new();
    let mut i: usize = 0;
    while i < v.len()
        invariant
            i <= v@.len(),
            out@ == v@.take(i as int),
        decreases v@.len() - i,
    {
        out.push(v[i].clone());
        assert(v@.take(i + 1) =~= v@.take(i as int).push(v@[i as int]));
        i = i + 1;
    }
    assert(out@ =~= v@);
    out
}

impl Clone for InvestigateRequest {
    fn clone(&self) -> (r: Self)
        ensures
            r@ == self@,
    {
        InvestigateRequest {
            lat_deg: self.lat_deg,
            lon_deg: self.lon_deg,
            agl_m: self.agl_m,
            radius_m: self.radius_m,
            turns: self.turns,
            sensors: copy_strings(&self.sensors),
            mission_id: self.mission_id.clone(),
            pattern: self.pattern.clone(),
        }
    }
}

impl Default for InvestigateRequest {
    fn default() -> (r: Self)
        ensures
            r@ == (InvestigateRequestView {
                lat_deg: zero(),
                lon_deg: zero(),
                agl_m: zero(),
                radius_m: zero(),
                turns: zero(),
                sensors: Seq::empty(),
                mission_id: Seq::empty(),
                pattern: Seq::empty(),
            }),
    {
        let sensors: Vec<String> = Vec::new();
        assert(views(sensors@) =~= Seq::empty());
        InvestigateRequest {
            lat_deg: real_zero(),
            lon_deg: real_zero(),
            agl_m: real_zero(),
            radius_m: real_zero(),
            turns: real_zero(),
            sensors,
            mission_id: String::new(),
            pattern: String::new(),
        }
    }
}

/// Capture immediately at the current position.
pub const MODE_NOW: &'static str = "now";

/// Fly to the point, capture, resume.
pub const MODE_OVERRIDE: &'static str = "override";

/// Watchpoint with radius and expiry, captured in passing.
pub const MODE_OPPORTUNISTIC: &'static str = "opportunistic";

/// One tasked capture (camera or audio).
#[derive(Debug)]
pub struct SensorRequest {
    /// `"camera"` or `"audio"`.
    pub sensor: String,
    /// Capture mode.
    pub mode: String,
    /// Capture point latitude, degrees (ignored for mode `now`).
    pub lat_deg: Real,
    /// Capture point longitude, degrees (ignored for mode `now`).
    pub lon_deg: Real,
    /// Watchpoint radius, metres (mode `opportunistic`).
    pub radius_m: Real,
    /// Watchpoint expiry, seconds (mode `opportunistic`).
    pub expiry_s: Real,
    /// Capture duration, seconds (audio).
    pub duration_s: Real,
    /// Mission id the artifact publishes under.
    pub mission_id: String,
}

/// A capture request by its values.
#[verifier::ext_equal]
pub struct SensorRequestView {
    pub sensor: Seq<char>,
    pub mode: Seq<char>,
    pub lat_deg: Real,
    pub lon_deg: Real,
    pub radius_m: Real,
    pub expiry_s: Real,
    pub duration_s: Real,
    pub mission_id: Seq<char>,
}

impl View for SensorRequest {
    type V = SensorRequestView;

    open spec fn view(&self) -> SensorRequestView {
        SensorRequestView {
            sensor: self.sensor@,
            mode: self.mode@,
            lat_deg: self.lat_deg,
            lon_deg: self.lon_deg,
            radius_m: self.radius_m,
            expiry_s: self.expiry_s,
            duration_s: self.duration_s,
            mission_id: self.mission_id@,
        }
    }
}

impl Clone for SensorRequest {
    fn clone(&self) -> (r: Self)
        ensures
            r@ == self@,
    {
        SensorRequest {
            sensor: self.sensor.clone(),
            mode: self.mode.clone(),
            lat_deg: self.lat_deg,
            lon_deg: self.lon_deg,
            radius_m: self.radius_m,
            expiry_s: self.expiry_s,
            duration_s: self.duration_s,
            mission_id: self.mission_id.clone(),
        }
    }
}

impl Default for SensorRequest {
    fn default() -> (r: Self)
        ensures
            r@ == (SensorRequestView {
                sensor: Seq::empty(),
                mode: Seq::empty(),
                lat_deg: zero(),
                lon_deg: zero(),
                radius_m: zero(),
                expiry_s: zero(),
                duration_s: zero(),
                mission_id: Seq::empty(),
            }),
    {
        SensorRequest {
            sensor: String::new(),
            mode: String::new(),
            lat_deg: real_zero(),
            lon_deg: real_zero(),
            radius_m: real_zero(),
            expiry_s: real_zero(),
            duration_s: real_zero(),
            mission_id: String::new(),
        }
    }
}

/// Live-video knob.
#[derive(Clone, Copy, Debug, PartialEq, Eq, Structural)]
pub struct VideoRequest {
    /// Start (`true`) or stop (`false`) the stream.
    pub enabled: bool,
    /// Frame width, pixels (0 = provider default).
    pub width: u32,
    /// Frame height, pixels (0 = provider default).
    pub height: u32,
    /// Frames per second (0 = provider default).
    pub fps: u32,
    /// JPEG quality 1..100 (0 = provider default).
    pub quality: u32,
}

/// A complete new order of the task queue.
#[derive(Debug)]
pub struct QueueReorderRequest {
    /// Every queued id, the active one included.
    pub ordered_task_ids: Vec<String>,
}

} // verus!
