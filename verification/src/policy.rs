//! Field-safety rails: the gates a request passes before it is acknowledged.

use vstd::prelude::*;

use crate::quantity::{Quantity, Real};
use crate::text::{cat, same};

verus! {

/// Commandable altitude window, metres above ground.
#[derive(Debug)]
pub struct AglBounds {
    pub min_agl_m: Quantity,
    pub max_agl_m: Quantity,
}

/// Bits of the default range limit, 300 m.
pub const DEFAULT_MAX_RANGE_BITS: u64 = 0x4072_c000_0000_0000;

/// Bits of the default altitude floor, 3.5 m.
pub const DEFAULT_MIN_AGL_BITS: u64 = 0x400c_0000_0000_0000;

/// Bits of the default altitude ceiling, 20 m.
pub const DEFAULT_MAX_AGL_BITS: u64 = 0x4034_0000_0000_0000;

impl Default for AglBounds {
    fn default() -> (r: Self)
        ensures
            r.min_agl_m.value.bits == DEFAULT_MIN_AGL_BITS,
            r.min_agl_m.text@ == "3.5"@,
            r.max_agl_m.value.bits == DEFAULT_MAX_AGL_BITS,
            r.max_agl_m.text@ == "20.0"@,
            r.min_agl_m.value.bits == 0x400c_0000_0000_0000,
            r.max_agl_m.value.bits == 0x4034_0000_0000_0000,
    {
        AglBounds {
            min_agl_m: Quantity {
                value: Real { bits: DEFAULT_MIN_AGL_BITS },
                text: "3.5".to_owned(),
            },
            max_agl_m: Quantity {
                value: Real { bits: DEFAULT_MAX_AGL_BITS },
                text: "20.0".to_owned(),
            },
        }
    }
}

/// The range limit of a vehicle that none was configured for.
pub fn default_max_range() -> (r: Quantity)
    ensures
        r.value.bits == DEFAULT_MAX_RANGE_BITS,
        r.text@ == "300.0"@,
        r.value.bits == 0x4072_c000_0000_0000,
{
    Quantity { value: Real { bits: DEFAULT_MAX_RANGE_BITS }, text: "300.0".to_owned() }
}

/// Why a gate refused.
#[derive(Debug)]
pub enum PolicyRejection {
    /// A commanded point lies beyond the range limit.
    OutOfRange { distance_m: Quantity, max_range_m: Quantity },
    /// The commanded altitude is outside the window.
    AglOutOfBounds { agl_m: Quantity, min_agl_m: Quantity, max_agl_m: Quantity },
    /// The vehicle is already occupied by a long-running task.
    Busy { task: String },
    /// The confirm phrase is not the vehicle id.
    ShutdownConfirmMismatch,
    /// Shutdown refused while the vehicle is armed.
    ShutdownWhileArmed,
    /// Shutdown refused while a task is running.
    ShutdownWhileBusy { task: String },
    /// Capture point beyond the microphone's useful range.
    AudioOutOfRange { distance_m: Quantity, audio_range_m: Quantity },
}

impl PolicyRejection {
    /// Machine-readable code.
    pub open spec fn code_text(self) -> Seq<char> {
        match self {
            PolicyRejection::OutOfRange { .. } => "out-of-range"@,
            PolicyRejection::AglOutOfBounds { .. } => "agl-out-of-bounds"@,
            PolicyRejection::Busy { .. } => "busy"@,
            PolicyRejection::ShutdownConfirmMismatch => "shutdown-confirm-mismatch"@,
            PolicyRejection::ShutdownWhileArmed => "shutdown-while-armed"@,
            PolicyRejection::ShutdownWhileBusy { .. } => "shutdown-while-busy"@,
            PolicyRejection::AudioOutOfRange { .. } => "audio-out-of-range"@,
        }
    }

    /// Human-readable reason.
    pub open spec fn detail_text(self) -> Seq<char> {
        match self {
            PolicyRejection::OutOfRange { distance_m, max_range_m } => "target "@ + distance_m.text@
                + " m from home exceeds max range "@ + max_range_m.text@ + " m"@,
            PolicyRejection::AglOutOfBounds { agl_m, min_agl_m, max_agl_m } => "agl "@
                + agl_m.text@ + " m outside allowed "@ + min_agl_m.text@ + "..="@ + max_agl_m.text@
                + " m"@,
            PolicyRejection::Busy { task } => "vehicle busy with task '"@ + task@ + "'"@,
            PolicyRejection::ShutdownConfirmMismatch =>
                "shutdown confirm phrase does not match the vehicle id"@,
            PolicyRejection::ShutdownWhileArmed => "shutdown refused: vehicle is armed"@,
            PolicyRejection::ShutdownWhileBusy { task } =>
                "shutdown refused: vehicle busy with task '"@ + task@ + "'"@,
            PolicyRejection::AudioOutOfRange { distance_m, audio_range_m } => "audio target "@
                + distance_m.text@ + " m away exceeds audio range "@ + audio_range_m.text@ + " m"@,
        }
    }

    /// Stable machine-readable code of the acknowledgement.
    pub fn code(&self) -> (r: &'static str)
        ensures
            r@ == self.code_text(),
    {
        match self {
            PolicyRejection::OutOfRange { .. } => "out-of-range",
            PolicyRejection::AglOutOfBounds { .. } => "agl-out-of-bounds",
            PolicyRejection::Busy { .. } => "busy",
            PolicyRejection::ShutdownConfirmMismatch => "shutdown-confirm-mismatch",
            PolicyRejection::ShutdownWhileArmed => "shutdown-while-armed",
            PolicyRejection::ShutdownWhileBusy { .. } => "shutdown-while-busy",
            PolicyRejection::AudioOutOfRange { .. } => "audio-out-of-range",
        }
    }

    /// Human-readable reason of the acknowledgement.
    pub fn detail(&self) -> (r: String)
        ensures
            r@ == self.detail_text(),
    {
        match self {
            PolicyRejection::OutOfRange { distance_m, max_range_m } => {
                let mut s = cat("target ", distance_m.text.as_str());
                s.append(" m from home exceeds max range ");
                s.append(max_range_m.text.as_str());
                s.append(" m");
                s
            },
            PolicyRejection::AglOutOfBounds { agl_m, min_agl_m, max_agl_m } => {
                let mut s = cat("agl ", agl_m.text.as_str());
                s.append(" m outside allowed ");
                s.append(min_agl_m.text.as_str());
                s.append("..=");
                s.append(max_agl_m.text.as_str());
                s.append(" m");
                s
            },
            PolicyRejection::Busy { task } => {
                let mut s = cat("vehicle busy with task '", task.as_str());
                s.append("'");
                s
            },
            PolicyRejection::ShutdownConfirmMismatch =>
                "shutdown confirm phrase does not match the vehicle id".to_owned(),
            PolicyRejection::ShutdownWhileArmed => "shutdown refused: vehicle is armed".to_owned(),
            PolicyRejection::ShutdownWhileBusy { task } => {
                let mut s = cat("shutdown refused: vehicle busy with task '", task.as_str());
                s.append("'");
                s
            },
            PolicyRejection::AudioOutOfRange { distance_m, audio_range_m } => {
                let mut s = cat("audio target ", distance_m.text.as_str());
                s.append(" m away exceeds audio range ");
                s.append(audio_range_m.text.as_str());
                s.append(" m");
                s
            },
        }
    }
}

/// First distance beyond the limit, or the number of distances.
pub open spec fn first_beyond(distances: Seq<Quantity>, limit: Real) -> int
    decreases distances.len(),
{
    if distances.len() == 0 {
        0
    } else if limit.below(distances[0].value) {
        0
    } else {
        1 + first_beyond(distances.skip(1), limit)
    }
}

/// What the range guard says of the distances of the targets from home.
pub open spec fn range_verdict(
    from_home: Option<Seq<Quantity>>,
    max_range_m: Quantity,
) -> Result<(), PolicyRejection> {
    match from_home {
        None => Ok(()),
        Some(distances) => {
            let k = first_beyond(distances, max_range_m.value);
            if k < distances.len() {
                Err(PolicyRejection::OutOfRange { distance_m: distances[k], max_range_m })
            } else {
                Ok(())
            }
        },
    }
}

/// Range guard: every commanded point must lie within `max_range_m` of home.
/// With home unknown the guard cannot evaluate and passes: the rail arms
/// itself once home is captured at the first ground arm.
pub fn range_guard(from_home: &Option<Vec<Quantity>>, max_range_m: &Quantity) -> (r: Result<
    (),
    PolicyRejection,
>)
    ensures
        r == range_verdict(
            match from_home {
                Some(d) => Some(d@),
                None => None,
            },
            *max_range_m,
        ),
{
    match from_home {
        None => Ok(()),
        Some(distances) => {
            let mut i: usize = 0;
            assert(distances@.skip(0) =~= distances@);
            while i < distances.len()
                invariant
                    i <= distances@.len(),
                    *from_home == Some(*distances),
                    first_beyond(distances@, max_range_m.value) == i + first_beyond(
                        distances@.skip(i as int),
                        max_range_m.value,
                    ),
                decreases distances@.len() - i,
            {
                assert(distances@.skip(i as int)[0] == distances@[i as int]);
                if max_range_m.value.lt(&distances[i].value) {
                    return Err(
                        PolicyRejection::OutOfRange {
                            distance_m: distances[i].clone(),
                            max_range_m: max_range_m.clone(),
                        },
                    );
                }
                assert(distances@.skip(i as int).skip(1) =~= distances@.skip(i + 1));
                i = i + 1;
            }
            Ok(())
        },
    }
}

/// What the altitude guard says.
pub open spec fn agl_verdict(agl_m: Quantity, bounds: AglBounds) -> Result<(), PolicyRejection> {
    if bounds.min_agl_m.value.at_most(agl_m.value) && agl_m.value.at_most(bounds.max_agl_m.value) {
        Ok(())
    } else {
        Err(
            PolicyRejection::AglOutOfBounds {
                agl_m,
                min_agl_m: bounds.min_agl_m,
                max_agl_m: bounds.max_agl_m,
            },
        )
    }
}

/// Altitude guard: the commanded altitude must lie in the window, both ends
/// included.
pub fn agl_guard(agl_m: &Quantity, bounds: &AglBounds) -> (r: Result<(), PolicyRejection>)
    ensures
        r == agl_verdict(*agl_m, *bounds),
{
    if bounds.min_agl_m.value.le(&agl_m.value) && agl_m.value.le(&bounds.max_agl_m.value) {
        Ok(())
    } else {
        Err(
            PolicyRejection::AglOutOfBounds {
                agl_m: agl_m.clone(),
                min_agl_m: bounds.min_agl_m.clone(),
                max_agl_m: bounds.max_agl_m.clone(),
            },
        )
    }
}

/// Busy guard: a non-empty label means a long-running task owns the vehicle.
/// The abort ladder never calls this.
pub fn busy_guard(busy: &str) -> (r: Result<(), PolicyRejection>)
    ensures
        r is Ok <==> busy@.len() == 0,
        r matches Err(e) ==> (e matches PolicyRejection::Busy { task } && task@ == busy@),
{
    if busy.is_empty() {
        Ok(())
    } else {
        Err(PolicyRejection::Busy { task: busy.to_owned() })
    }
}

/// The code a shutdown request is refused with; `None` when it is allowed.
pub open spec fn shutdown_code(
    confirm: Seq<char>,
    vehicle_id: Seq<char>,
    armed: bool,
    busy: Seq<char>,
) -> Option<Seq<char>> {
    if confirm != vehicle_id {
        Some("shutdown-confirm-mismatch"@)
    } else if armed {
        Some("shutdown-while-armed"@)
    } else if busy.len() > 0 {
        Some("shutdown-while-busy"@)
    } else {
        None
    }
}

/// Shutdown authorization: the operator-typed `confirm` must equal
/// `vehicle_id`, and the vehicle must be neither armed nor busy. Providers
/// call it at acknowledgement and again at commit.
pub fn shutdown_guard(confirm: &str, vehicle_id: &str, armed: bool, busy: &str) -> (r: Result<
    (),
    PolicyRejection,
>)
    ensures
        r is Ok <==> confirm@ == vehicle_id@ && !armed && busy@.len() == 0,
        r matches Err(e) ==> shutdown_code(confirm@, vehicle_id@, armed, busy@) == Some(
            e.code_text(),
        ),
        r matches Err(e) ==> match e {
            PolicyRejection::ShutdownConfirmMismatch => confirm@ != vehicle_id@,
            PolicyRejection::ShutdownWhileArmed => confirm@ == vehicle_id@ && armed,
            PolicyRejection::ShutdownWhileBusy { task } => confirm@ == vehicle_id@ && !armed
                && task@ == busy@ && busy@.len() > 0,
            _ => false,
        },
{
    if !same(confirm, vehicle_id) {
        return Err(PolicyRejection::ShutdownConfirmMismatch);
    }
    if armed {
        return Err(PolicyRejection::ShutdownWhileArmed);
    }
    if !busy.is_empty() {
        return Err(PolicyRejection::ShutdownWhileBusy { task: busy.to_owned() });
    }
    Ok(())
}

/// Audio range guard: a capture point farther than `audio_range_m` from the
/// vehicle would record nothing useful.
pub fn audio_range_guard(distance_m: &Quantity, audio_range_m: &Quantity) -> (r: Result<
    (),
    PolicyRejection,
>)
    ensures
        r == (if audio_range_m.value.below(distance_m.value) {
            Err::<(), PolicyRejection>(
                PolicyRejection::AudioOutOfRange {
                    distance_m: *distance_m,
                    audio_range_m: *audio_range_m,
                },
            )
        } else {
            Ok::<(), PolicyRejection>(())
        }),
{
    if audio_range_m.value.lt(&distance_m.value) {
        Err(
            PolicyRejection::AudioOutOfRange {
                distance_m: distance_m.clone(),
                audio_range_m: audio_range_m.clone(),
            },
        )
    } else {
        Ok(())
    }
}

} // verus!
