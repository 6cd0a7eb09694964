use minimuas::names::{
    mission_object, sim_stream, vehicle_mission_object, vehicle_prefix, vehicle_service,
    vehicle_stream,
};

#[test]
fn name_shapes_match_v2_tree() {
    assert_eq!(
        vehicle_service("iuas-01", "flight/investigate"),
        "/muas/v3/iuas-01/flight/investigate"
    );
    assert_eq!(vehicle_stream("wuas-01", "telemetry/live"), "/muas/v3/wuas-01/telemetry/live");
    assert_eq!(
        mission_object("m1", "wuas-01", "camera/cam0/frame/123/7"),
        "/muas/v3/mission/m1/wuas-01/camera/cam0/frame/123/7"
    );
}

#[test]
fn vehicle_rooted_names_stay_below_the_vehicle() {
    assert_eq!(vehicle_prefix("iuas-01"), "/muas/v3/iuas-01");
    assert_eq!(sim_stream("anomalies"), "/muas/v3/sim/anomalies");
    assert_eq!(
        vehicle_mission_object("wuas-01", "m1", "audio/mic0/1"),
        "/muas/v3/wuas-01/mission/m1/audio/mic0/1"
    );
}
