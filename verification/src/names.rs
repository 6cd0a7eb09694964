//! The `/muas/v3` name tree.

use vstd::prelude::*;

use crate::text::cat;

verus! {

/// Application prefix for everything the fleet publishes or serves.
pub const APP_PREFIX: &'static str = "/muas/v3";

/// Group prefix for service-layer sync. It must run a multicast forwarding
/// strategy: best-route silently breaks group sync.
pub const GROUP_PREFIX: &'static str = "/muas/v3/group";

/// Latest-wins stream of a vehicle's task queue.
pub const TASK_QUEUE_STREAM: &'static str = "tasks/queue";

/// Latest-wins stream of a vehicle's remote-control session.
pub const RC_STATUS_STREAM: &'static str = "rc/status";

/// `parent` and `child` as one name.
pub open spec fn under(parent: Seq<char>, child: Seq<char>) -> Seq<char> {
    parent + "/"@ + child
}

/// `parent` and `child` as one name.
pub fn join(parent: &str, child: &str) -> (r: String)
    ensures
        r@ == under(parent@, child@),
{
    let mut s = cat(parent, "/");
    s.append(child);
    s
}

/// Everything of one vehicle lives below this name.
pub fn vehicle_prefix(vehicle_id: &str) -> (r: String)
    ensures
        r@ == under(APP_PREFIX@, vehicle_id@),
{
    join(APP_PREFIX, vehicle_id)
}

/// Service name under a vehicle, e.g. `flight/rtl`, `sensor/capture`,
/// `video/control`, `system/shutdown`.
pub fn vehicle_service(vehicle_id: &str, service: &str) -> (r: String)
    ensures
        r@ == under(under(APP_PREFIX@, vehicle_id@), service@),
{
    join(vehicle_prefix(vehicle_id).as_str(), service)
}

/// Latest-wins data stream under a vehicle, e.g. `telemetry/live`,
/// `telemetry/state`, `search/status`, `coord/status`, `video/live`.
pub fn vehicle_stream(vehicle_id: &str, stream: &str) -> (r: String)
    ensures
        r@ == under(under(APP_PREFIX@, vehicle_id@), stream@),
{
    join(vehicle_prefix(vehicle_id).as_str(), stream)
}

/// Latest-wins data stream of the simulated world.
pub fn sim_stream(stream: &str) -> (r: String)
    ensures
        r@ == under(under(APP_PREFIX@, "sim"@), stream@),
{
    join(join(APP_PREFIX, "sim").as_str(), stream)
}

/// Mission-scoped object name, e.g.
/// `/muas/v3/mission/<mid>/<vid>/camera/<cam>/frame/<gps_ns>/<seq>`.
pub fn mission_object(mission_id: &str, vehicle_id: &str, rest: &str) -> (r: String)
    ensures
        r@ == under(under(under(under(APP_PREFIX@, "mission"@), mission_id@), vehicle_id@), rest@),
{
    let root = join(APP_PREFIX, "mission");
    let mission = join(root.as_str(), mission_id);
    let vehicle = join(mission.as_str(), vehicle_id);
    join(vehicle.as_str(), rest)
}

/// A mission object rooted at the vehicle that serves it, so that the
/// vehicle's own route reaches it.
pub fn vehicle_mission_object(vehicle_id: &str, mission_id: &str, rest: &str) -> (r: String)
    ensures
        r@ == under(under(under(under(APP_PREFIX@, vehicle_id@), "mission"@), mission_id@), rest@),
{
    let root = join(vehicle_prefix(vehicle_id).as_str(), "mission");
    let mission = join(root.as_str(), mission_id);
    join(mission.as_str(), rest)
}

/// Services and streams of a vehicle share one name space: the same leaf is
/// the same name.
pub proof fn service_and_stream_names_agree(vehicle_id: Seq<char>, leaf: Seq<char>)
    ensures
        under(under(APP_PREFIX@, vehicle_id), leaf) == APP_PREFIX@ + "/"@ + vehicle_id + "/"@ + leaf,
{
    assert(under(under(APP_PREFIX@, vehicle_id), leaf) =~= APP_PREFIX@ + "/"@ + vehicle_id + "/"@
        + leaf);
}

} // verus!
