//! The states of the silence ladder, as the status stream names them.

use vstd::prelude::*;

verus! {

/// Receiver running, no stream ever admitted.
pub const IDLE: &'static str = "idle";

/// Frames flowing, sticks applied.
pub const MANUAL: &'static str = "manual";

/// Holding position after the hold threshold.
pub const HOLD: &'static str = "hold";

/// Returned to launch after the return threshold.
pub const RTL: &'static str = "rtl";

/// Operator emergency stop; live frames with the flag cleared release it.
pub const EMERGENCY_STOP: &'static str = "emergency-stop";

} // verus!
