//! The status stream of the remote-control receiver: what it says, and when.

use vstd::prelude::*;

use crate::quantity::Real;
use crate::text::cat;

pub mod failsafe_state;

verus! {

/// Where a receiver takes its frames from.
#[derive(Debug)]
pub enum RcTransport {
    /// Plain datagrams at an address.
    Listen(String),
    /// Spark datagrams at an address.
    Spark(String),
}

impl RcTransport {
    /// The label of a receiver binding.
    pub fn label(&self) -> (r: String)
        ensures
            r@ == (match *self {
                RcTransport::Listen(addr) => "listen:"@ + addr@,
                RcTransport::Spark(addr) => "spark:"@ + addr@,
            }),
    {
        match self {
            RcTransport::Listen(addr) => cat("listen:", addr.as_str()),
            RcTransport::Spark(addr) => cat("spark:", addr.as_str()),
        }
    }
}

/// One status sample.
#[derive(Debug)]
pub struct RcStatus {
    /// Which vehicle the sample describes.
    pub vehicle_id: String,
    /// Publisher clock, ns since the Unix epoch.
    pub gps_time_ns: u64,
    /// Whether a session owns, or is making safe, the vehicle.
    pub engaged: bool,
    /// Label of the receiver binding.
    pub source: String,
    /// Share of the expected frames that never came (percent).
    pub seq_gap_pct: Real,
    /// Milliseconds since the last admitted frame; none before the first.
    pub age_ms: Option<u64>,
    /// State of the silence ladder.
    pub failsafe_state: String,
}

/// What a receiver tells of itself.
#[derive(Debug)]
pub struct ReceiverSnapshot {
    pub seq_gap_pct: Real,
    /// Milliseconds since the last admitted frame.
    pub silence_ms: Option<u64>,
    /// Name of the ladder's state.
    pub state: String,
}

/// The status sample of a vehicle's session.
pub fn status_of(
    vehicle_id: &str,
    gps_time_ns: u64,
    engaged: bool,
    source: &str,
    snapshot: &ReceiverSnapshot,
) -> (r: RcStatus)
    ensures
        r.vehicle_id@ == vehicle_id@,
        r.gps_time_ns == gps_time_ns,
        r.engaged == engaged,
        r.source@ == source@,
        r.seq_gap_pct == snapshot.seq_gap_pct,
        r.age_ms == snapshot.silence_ms,
        r.failsafe_state@ == snapshot.state@,
{
    RcStatus {
        vehicle_id: vehicle_id.to_owned(),
        gps_time_ns,
        engaged,
        source: source.to_owned(),
        seq_gap_pct: snapshot.seq_gap_pct,
        age_ms: snapshot.silence_ms,
        failsafe_state: snapshot.state.clone(),
    }
}

/// Longest time between status samples (ms).
pub const STATUS_PERIOD_MS: u64 = 250;

/// Whether a status sample is due: on every transition, at the start, and
/// when the last one is a period old.
pub fn status_due(transition: bool, since_last_ms: Option<u64>) -> (r: bool)
    ensures
        r == (transition || (match since_last_ms {
            Some(t) => t >= STATUS_PERIOD_MS,
            None => true,
        })),
        !r <==> !transition && since_last_ms is Some && since_last_ms->0 < 250,
{
    transition || match since_last_ms {
        Some(t) => t >= STATUS_PERIOD_MS,
        None => true,
    }
}

} // verus!
