//! The telemetry sample a vehicle publishes.

use vstd::prelude::*;

use crate::quantity::{real_zero, zero, Real};

verus! {

/// What a flight back end reports.
#[derive(Debug)]
pub struct BackendTelemetry {
    pub lat_deg: Real,
    pub lon_deg: Real,
    pub alt_m: Real,
    pub agl_m: Real,
    pub heading_deg: Real,
    pub armed: bool,
    pub mode: String,
    pub battery_pct: Real,
    pub rangefinder_m: Real,
    pub agl_alarm: bool,
    /// Velocity north, m/s.
    pub vn_m_s: Real,
    /// Velocity east, m/s.
    pub ve_m_s: Real,
    pub avoid_bias_m: Real,
}

/// One published sample.
#[derive(Debug)]
pub struct TelemetrySample {
    pub agl_alarm: bool,
    pub agl_m: Real,
    pub alt_m: Real,
    pub armed: bool,
    pub avoid_bias_m: Real,
    pub battery_pct: Real,
    /// Pack voltage; zero = unknown.
    pub battery_v: Real,
    pub busy: String,
    pub gps_time_ns: u64,
    pub groundspeed_m_s: Real,
    pub heading_deg: Real,
    pub lat_deg: Real,
    pub lon_deg: Real,
    pub mode: String,
    pub rangefinder_m: Real,
    pub source: String,
    pub ve_m_s: Real,
    pub vehicle_id: String,
    pub vn_m_s: Real,
}

/// Build the published sample. The ground speed is the length of the velocity.
pub fn build_sample(
    vehicle_id: &str,
    busy: &str,
    source: &str,
    t: &BackendTelemetry,
    groundspeed_m_s: Real,
    gps_time_ns: u64,
) -> (r: TelemetrySample)
    ensures
        r.vehicle_id@ == vehicle_id@,
        r.busy@ == busy@,
        r.source@ == source@,
        r.mode@ == t.mode@,
        r.gps_time_ns == gps_time_ns,
        r.groundspeed_m_s == groundspeed_m_s,
        r.battery_v == zero(),
        r.agl_alarm == t.agl_alarm,
        r.armed == t.armed,
        r.agl_m == t.agl_m,
        r.alt_m == t.alt_m,
        r.avoid_bias_m == t.avoid_bias_m,
        r.battery_pct == t.battery_pct,
        r.heading_deg == t.heading_deg,
        r.lat_deg == t.lat_deg,
        r.lon_deg == t.lon_deg,
        r.rangefinder_m == t.rangefinder_m,
        r.ve_m_s == t.ve_m_s,
        r.vn_m_s == t.vn_m_s,
{
    TelemetrySample {
        agl_alarm: t.agl_alarm,
        agl_m: t.agl_m,
        alt_m: t.alt_m,
        armed: t.armed,
        avoid_bias_m: t.avoid_bias_m,
        battery_pct: t.battery_pct,
        battery_v: real_zero(),
        busy: busy.to_owned(),
        gps_time_ns,
        groundspeed_m_s,
        heading_deg: t.heading_deg,
        lat_deg: t.lat_deg,
        lon_deg: t.lon_deg,
        mode: t.mode.clone(),
        rangefinder_m: t.rangefinder_m,
        source: source.to_owned(),
        ve_m_s: t.ve_m_s,
        vehicle_id: vehicle_id.to_owned(),
        vn_m_s: t.vn_m_s,
    }
}

} // verus!
