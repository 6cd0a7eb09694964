use minimuas::json::{parse_json, Figure, Json};
use minimuas::quantity::Real;
use minimuas::sensors::{
    from_profile_json, merge_into_profile, meta_from, meta_json, AudioLobe, AudioMeta, CameraMeta,
    SensorMeta,
};

fn figure(x: f64) -> Figure {
    Figure {
        real: Real { bits: x.to_bits() },
        plain: format!("{x}"),
        whole: format!("{x:.0}"),
        tenth: format!("{x:.1}"),
        json: format!("{x:?}"),
    }
}

fn value(f: &Figure) -> f64 {
    f64::from_bits(f.real.bits)
}

#[test]
fn merge_is_additive_and_round_trips() {
    let profile = parse_json(
        br#"{"vehicle_id":"wuas-01","extras":["raster","camera"],"gps_time_ns":1}"#,
    )
    .unwrap();
    let meta = SensorMeta {
        camera: Some(CameraMeta {
            hfov_deg: figure(66.0),
            dri_m: vec![figure(40.0), figure(20.0), figure(8.0)],
            width_px: 320,
            height_px: 240,
        }),
        audio: Some(AudioMeta { omni_range_m: figure(30.0), lobes: Vec::new() }),
    };
    let profile = merge_into_profile(profile, &meta);
    // Other fields untouched (additive rule).
    assert_eq!(profile.text_field("vehicle_id").as_deref(), Some("wuas-01"));
    assert_eq!(profile.get("extras").unwrap().print(), r#"["raster","camera"]"#);
    let back = from_profile_json(&profile).expect("sensor_meta present");
    let camera = back.camera.unwrap();
    assert_eq!(value(&camera.hfov_deg), 66.0);
    assert_eq!(camera.dri_m.iter().map(value).collect::<Vec<_>>(), [40.0, 20.0, 8.0]);
    assert_eq!((camera.width_px, camera.height_px), (320, 240));
    let audio = back.audio.unwrap();
    assert_eq!(value(&audio.omni_range_m), 30.0);
    assert!(audio.lobes.is_empty());
    assert_eq!(
        profile.print(),
        r#"{"extras":["raster","camera"],"gps_time_ns":1,"sensor_meta":{"audio":{"omni_range_m":30.0},"camera":{"dri_m":[40.0,20.0,8.0],"height_px":240,"hfov_deg":66.0,"width_px":320}},"vehicle_id":"wuas-01"}"#
    );
    // The document still reads back as one from its text.
    let again = parse_json(profile.print().as_bytes()).unwrap();
    assert!(from_profile_json(&again).is_some());
}

#[test]
fn empty_meta_does_not_pollute_the_profile() {
    let profile = parse_json(br#"{"vehicle_id":"iuas-01"}"#).unwrap();
    let profile = merge_into_profile(profile, &SensorMeta { camera: None, audio: None });
    assert!(profile.get("sensor_meta").is_none());
    assert!(from_profile_json(&profile).is_none());
}

#[test]
fn partial_advertisements_parse_with_defaults() {
    let meta = meta_from(&parse_json(br#"{"audio":{"omni_range_m":25.0}}"#).unwrap()).unwrap();
    assert!(meta.camera.is_none());
    let audio = meta.audio.unwrap();
    assert_eq!(value(&audio.omni_range_m), 25.0);
    assert!(audio.lobes.is_empty(), "missing lobes default empty");
}

#[test]
fn what_is_no_object_is_left_alone() {
    let meta = SensorMeta {
        camera: None,
        audio: Some(AudioMeta {
            omni_range_m: figure(1.5),
            lobes: vec![AudioLobe {
                bearing_deg: figure(-45.0),
                width_deg: figure(30.0),
                range_m: figure(60.0),
            }],
        }),
    };
    assert!(matches!(merge_into_profile(Json::Null, &meta), Json::Null));
    let j = meta_json(&meta);
    assert_eq!(
        j.print(),
        r#"{"audio":{"lobes":[{"bearing_deg":-45.0,"range_m":60.0,"width_deg":30.0}],"omni_range_m":1.5}}"#
    );
    let back = meta_from(&j).unwrap().audio.unwrap();
    assert_eq!(value(&back.lobes[0].bearing_deg), -45.0);
}

#[test]
fn facts_that_do_not_fit_are_refused() {
    for text in [
        r#"{"camera":{}}"#,
        r#"{"camera":{"hfov_deg":66,"width_px":-1}}"#,
        r#"{"camera":{"hfov_deg":66,"width_px":4294967296}}"#,
        r#"{"camera":{"hfov_deg":66,"dri_m":[1,"x"]}}"#,
        r#"{"audio":{"lobes":[{"bearing_deg":1}]}}"#,
        r#"[{"hfov_deg":66},null,3]"#,
        r#""camera""#,
    ] {
        assert!(meta_from(&parse_json(text.as_bytes()).unwrap()).is_none(), "{text}");
    }
    let camera = meta_from(&parse_json(br#"[[66,[1],64],null]"#).unwrap()).unwrap().camera.unwrap();
    assert_eq!((camera.width_px, camera.height_px), (64, 0));
    let none = meta_from(&parse_json(br#"{"camera":null,"radar":1}"#).unwrap()).unwrap();
    assert!(none.is_empty());
}
