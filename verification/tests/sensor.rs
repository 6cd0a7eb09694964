use std::hash::{Hash, Hasher};

use minimuas::agent::AgentShared;
use minimuas::clock::{
    clock_ns, gps_time_ns, journal_key_seed, request_id, seed_of, signature_freq_hz, tone_of,
};
use minimuas::detour::DetourFlight;
use minimuas::json::Figure;
use minimuas::policy::AglBounds;
use minimuas::quantity::Real;
use minimuas::sensor::{
    audio_duration, capture_result, compose, detour_report, mission_or_adhoc, noise_next, push_recent,
    raster_frame_name, session_fps, signature_rgb, tasked_capture_name, video_payload, watch_limits,
    watch_poll, watch_report, wav_pcm16, Blob, Capture, CaptureStatus, Detour, FramePublisher, SensorFeedConfig,
    SyntheticFeed, Watch,
};
use minimuas::services::SensorRequest;

fn r(x: f64) -> Real {
    Real { bits: x.to_bits() }
}

fn figure(x: f64) -> Figure {
    Figure {
        real: r(x),
        plain: format!("{x}"),
        whole: format!("{x:.0}"),
        tenth: format!("{x:.1}"),
        json: format!("{x:?}"),
    }
}

#[test]
fn pictures_paint_blobs_over_the_ground() {
    let mut on_grid = vec![false; 6];
    on_grid[1] = true;
    let under = Blob { signature: "red".into(), pixels: vec![2, 3] };
    let over = Blob { signature: "blue".into(), pixels: vec![2, 99] };
    let rgb = compose(&on_grid, &vec![under, over]);
    assert_eq!(rgb.len(), 18);
    assert_eq!(&rgb[0..3], &[34, 40, 34]);
    assert_eq!(&rgb[3..6], &[46, 54, 46]);
    assert_eq!(&rgb[6..9], &[50, 90, 220], "the last blob wins");
    assert_eq!(&rgb[9..12], &[210, 40, 40]);
    let red = signature_rgb("anything else");
    assert_eq!((red.r, red.g, red.b), (210, 40, 40));
}

#[test]
fn frames_are_jpeg_of_the_configured_size() {
    let feed = SyntheticFeed::new(&SensorFeedConfig::synthetic(), true).unwrap();
    let (w, h) = feed.size();
    assert_eq!((w, h), (320, 240));
    let frame = feed.video_frame(&vec![false; (w * h) as usize], &vec![]).unwrap();
    assert_eq!((frame.width, frame.height), (320, 240));
    assert_eq!(&frame.jpeg[..2], &[0xff, 0xd8], "a JPEG starts with its marker");
    assert_eq!(&frame.jpeg[frame.jpeg.len() - 2..], &[0xff, 0xd9]);
    // The picture is encoded, not handed through.
    let other = feed.video_frame(&vec![true; (w * h) as usize], &vec![]).unwrap();
    assert_ne!(frame.jpeg, other.jpeg);
    assert!(feed.video_frame(&vec![false; 3], &vec![]).is_none());
    assert!(SyntheticFeed::new(&SensorFeedConfig::Absent, true).is_none());

    let meta = feed.sensor_meta(figure(66.0), vec![figure(61.6)], figure(30.0));
    let camera = meta.camera.unwrap();
    assert_eq!((camera.width_px, camera.height_px), (320, 240));
    assert!(meta.audio.is_some());
    let deaf = SyntheticFeed::new(&SensorFeedConfig::synthetic(), false).unwrap();
    assert!(!deaf.has_audio());
    assert!(deaf.sensor_meta(figure(66.0), vec![], figure(30.0)).audio.is_none());
}

#[test]
fn sound_is_a_wave_file() {
    let wav = wav_pcm16(&vec![0, 1, -1], 8_000);
    assert_eq!(wav.len(), 44 + 6);
    assert_eq!(&wav[0..4], b"RIFF");
    assert_eq!(u32::from_le_bytes(wav[4..8].try_into().unwrap()), 36 + 6);
    assert_eq!(&wav[8..16], b"WAVEfmt ");
    assert_eq!(u32::from_le_bytes(wav[24..28].try_into().unwrap()), 8_000);
    assert_eq!(u32::from_le_bytes(wav[28..32].try_into().unwrap()), 16_000);
    assert_eq!(&wav[36..40], b"data");
    assert_eq!(u32::from_le_bytes(wav[40..44].try_into().unwrap()), 6);
    assert_eq!(&wav[44..], &[0, 0, 1, 0, 0xff, 0xff]);
    assert_ne!(noise_next(1), 1);
}

#[test]
fn video_payloads_lead_with_a_sequence() {
    let p = video_payload(5_000_000_000, &vec![9, 8]);
    assert_eq!(&p[..8], &5_000u64.to_be_bytes());
    assert_eq!(&p[8..], &[9, 8]);
    assert_eq!(session_fps(0), 5);
    assert_eq!(session_fps(30), 15);
    assert_eq!(session_fps(7), 7);
}

#[test]
fn the_freshest_frames_are_kept() {
    let mut frames = FramePublisher::new();
    for i in 0..64u64 {
        assert_eq!(frames.keep(i), None);
    }
    assert_eq!(frames.keep(64), Some(0), "the oldest is let go");
    let mut names = Vec::new();
    for i in 0..20 {
        push_recent(&mut names, format!("n{i}"));
    }
    assert_eq!(names[0], "n19", "newest first");
}

#[test]
fn captures_are_named_and_reported() {
    assert_eq!(mission_or_adhoc(""), "adhoc");
    assert_eq!(mission_or_adhoc("m1"), "m1");
    assert_eq!(raster_frame_name(123, 7), "camera/cam0/frame/123/7");
    assert!(tasked_capture_name("audio", 5).contains("5"));
    assert_eq!(request_id(1_234_567_890_123_456_789), "cap-67890123");
    let failed = capture_result("camera", "now", Capture::NoData, 1_000_000);
    assert_eq!(failed.status, CaptureStatus::Failed);
    assert_eq!((failed.message.as_str(), failed.artifacts.len()), ("camera capture failed", 0));
    let lost = capture_result("audio", "now", Capture::NotPublished, 1_000_000);
    assert_eq!(lost.message, "audio artifact publish failed");
    let done = capture_result("camera", "override", Capture::Published("/n".into()), 1_000_000);
    assert_eq!((done.message.as_str(), done.status.as_str()), ("synthetic capture (override)", "captured"));
    assert_eq!(done.artifacts, ["/n"]);
    let mut a = AgentShared::bench("iuas-01");
    a.occupy("sensor-override");
    let mut flight = DetourFlight::new("sensor-override", 500, 10_000);
    assert_eq!(flight.steer(&a, false, 500), Ok(true));
    assert_eq!(flight.steer(&a, false, 700), Ok(false));
    assert_eq!(flight.steer(&a, false, 2_500), Ok(true));
    assert_eq!(flight.check(true, 20_000), Detour::Arrived);
    assert_eq!(flight.check(false, 10_000), Detour::Flying);
    assert_eq!(flight.check(false, 10_001), Detour::TimedOut);
    a.task_abort("sensor-override");
    assert_eq!(flight.steer(&a, false, 3_000), Err(Detour::Preempted));
    assert_eq!(flight.steer(&a, true, 3_000), Err(Detour::ShutDown));
    assert_eq!(
        detour_report(Detour::ShutDown, "camera", 1).unwrap().message,
        "override flight failed: agent shutdown"
    );
    assert!(detour_report(Detour::Arrived, "camera", 1).is_none());
    assert_eq!(watch_poll(false, false, Some(r(3.0)), r(15.0), true), Watch::Fired);
    assert_eq!(watch_poll(false, false, Some(r(30.0)), r(15.0), true), Watch::Expired);
    assert_eq!(watch_poll(false, true, Some(r(3.0)), r(15.0), false), Watch::Cancelled);
    assert_eq!(watch_poll(false, false, None, r(15.0), false), Watch::Armed);
    assert_eq!(
        watch_report(Watch::Cancelled, "wp-1", "camera", 1).unwrap().message,
        "watchpoint wp-1 cancelled by operator"
    );
    assert!(watch_report(Watch::Fired, "wp-1", "camera", 1).is_none());
}

#[test]
fn captures_take_defaults_for_what_is_not_stated() {
    let mut req = SensorRequest {
        sensor: "audio".into(),
        mode: "opportunistic".into(),
        lat_deg: r(0.0),
        lon_deg: r(0.0),
        radius_m: r(0.0),
        expiry_s: r(-1.0),
        duration_s: r(0.0),
        mission_id: String::new(),
    };
    assert_eq!(audio_duration(&req), r(6.0));
    assert_eq!(watch_limits(&req), (r(15.0), r(120.0)));
    req.duration_s = r(2.5);
    req.radius_m = r(4.0);
    req.expiry_s = r(9.0);
    assert_eq!(audio_duration(&req), r(2.5));
    assert_eq!(watch_limits(&req), (r(4.0), r(9.0)));
}

#[test]
fn clocks_hashes_and_seeds() {
    assert!(gps_time_ns() > 1_600_000_000_000_000_000);
    assert_eq!(clock_ns(None), 0);
    assert_eq!(clock_ns(Some(5)), 5);
    assert_eq!(clock_ns(Some((1u128 << 64) + 7)), 7);
    assert_eq!(tone_of(901), 301);
    let tone = signature_freq_hz("siren");
    let mut hasher = std::collections::hash_map::DefaultHasher::new();
    "siren".hash(&mut hasher);
    assert_eq!(tone, 300 + hasher.finish() % 900);
    assert_eq!(tone, signature_freq_hz("siren"));
    let seed = journal_key_seed("iuas-01", 1);
    assert_ne!(seed, journal_key_seed("iuas-01", 2));
    assert_ne!(seed, journal_key_seed("iuas-02", 1));
    for (i, part) in seed.chunks(8).enumerate() {
        let mut hasher = std::collections::hash_map::DefaultHasher::new();
        ("iuas-01", 1u64, i as u64).hash(&mut hasher);
        assert_eq!(part, hasher.finish().to_le_bytes());
    }
    assert_eq!(&seed_of(&[0x0102, 0, 0, 0])[..3], &[2, 1, 0]);
}

#[test]
fn detours_fly_within_the_altitude_window() {
    let window = AglBounds::default();
    assert_eq!(window.confine(r(1.0)), r(3.5));
    assert_eq!(window.confine(r(8.0)), r(8.0));
    assert_eq!(window.confine(r(50.0)), r(20.0));
}

#[test]
fn sensor_meta_reflects_geometry() {
    let feed = SyntheticFeed::new(&SensorFeedConfig::synthetic(), true).unwrap();
    // A 4 m blob spans 4, 12 and 32 pixels at these heights.
    let tan_half = (66.0f64.to_radians() / 2.0).tan();
    let agl_for = |px: f64| (4.0 * 320.0 / (2.0 * px * tan_half)).min(400.0);
    let dri = [4.0, 12.0, 32.0].iter().map(|px| figure(agl_for(*px))).collect();
    let meta = feed.sensor_meta(figure(66.0), dri, figure(30.0));
    let camera = meta.camera.expect("camera advertised");
    let number = |f: &Figure| f64::from_bits(f.real.bits);
    assert_eq!(number(&camera.hfov_deg), 66.0);
    assert_eq!(camera.width_px, 320);
    assert_eq!(camera.dri_m.len(), 3);
    let dri: Vec<f64> = camera.dri_m.iter().map(number).collect();
    assert!(
        dri[0] > dri[1] && dri[1] > dri[2],
        "detection range exceeds recognition exceeds identification: {dri:?}"
    );
    assert_eq!(number(&meta.audio.expect("mic advertised").omni_range_m), 30.0);
}

#[test]
fn feeds_advertise_a_supported_field_of_view() {
    let feed = |hfov: f64, width: u32| {
        let SensorFeedConfig::Synthetic(mut s) = SensorFeedConfig::synthetic() else {
            panic!("synthetic");
        };
        s.hfov_deg = r(hfov);
        s.width = width;
        SyntheticFeed::new(&SensorFeedConfig::Synthetic(s), false).unwrap().geometry()
    };
    assert_eq!(feed(66.0, 2560), (r(66.0), 1280));
    assert_eq!(feed(5.0, 1), (r(20.0), 64));
    assert_eq!(feed(170.0, 320), (r(120.0), 320));
}
