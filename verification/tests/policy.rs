use minimuas::policy::{
    agl_guard, audio_range_guard, busy_guard, default_max_range, range_guard, shutdown_guard,
    AglBounds, PolicyRejection,
};
use minimuas::quantity::{Quantity, Real};
use minimuas::services::Ack;

const EARTH_M_PER_DEG_LAT: f64 = 111_111.0;
const HOME: (f64, f64) = (35.0, -90.0);

fn metres(x: f64) -> Quantity {
    Quantity { value: Real { bits: x.to_bits() }, text: format!("{x:.1}") }
}

fn value(q: &Quantity) -> f64 {
    f64::from_bits(q.value.bits)
}

/// A point `metres` north of `origin` on the flat-earth frame.
fn north_of(origin: (f64, f64), metres: f64) -> (f64, f64) {
    (origin.0 + metres / EARTH_M_PER_DEG_LAT, origin.1)
}

fn dist_m(a: (f64, f64), b: (f64, f64)) -> f64 {
    let dn = (b.0 - a.0) * EARTH_M_PER_DEG_LAT;
    let de = (b.1 - a.1) * EARTH_M_PER_DEG_LAT * a.0.to_radians().cos();
    dn.hypot(de)
}

fn from_home(points: &[(f64, f64)]) -> Option<Vec<Quantity>> {
    Some(points.iter().map(|p| metres(dist_m(HOME, *p))).collect())
}

#[test]
fn range_guard_accepts_inside_and_rejects_beyond_300m() {
    assert!(range_guard(&from_home(&[north_of(HOME, 299.0)]), &metres(300.0)).is_ok());
    let err = range_guard(
        &from_home(&[north_of(HOME, 10.0), north_of(HOME, 301.0)]),
        &metres(300.0),
    )
    .unwrap_err();
    match &err {
        PolicyRejection::OutOfRange { distance_m, max_range_m } => {
            assert!((value(distance_m) - 301.0).abs() < 0.5, "distance {distance_m:?}");
            assert_eq!(value(max_range_m), 300.0);
        }
        other => panic!("wrong rejection: {other:?}"),
    }
    assert_eq!(err.code(), "out-of-range");
    assert_eq!(value(&default_max_range()), 300.0);
}

#[test]
fn range_guard_passes_when_home_unknown() {
    assert!(range_guard(&None, &metres(300.0)).is_ok());
}

#[test]
fn agl_guard_enforces_the_3_5_to_20_window() {
    let bounds = AglBounds::default();
    assert!(agl_guard(&metres(3.5), &bounds).is_ok());
    assert!(agl_guard(&metres(20.0), &bounds).is_ok());
    assert!(matches!(
        agl_guard(&metres(3.4), &bounds),
        Err(PolicyRejection::AglOutOfBounds { .. })
    ));
    assert!(matches!(
        agl_guard(&metres(20.1), &bounds),
        Err(PolicyRejection::AglOutOfBounds { .. })
    ));
    assert_eq!(agl_guard(&metres(3.4), &bounds).unwrap_err().code(), "agl-out-of-bounds");
}

#[test]
fn agl_guard_respects_bench_bounds() {
    let bench = AglBounds { min_agl_m: metres(0.5), max_agl_m: metres(20.0) };
    assert!(agl_guard(&metres(1.0), &bench).is_ok());
}

#[test]
fn agl_guard_refuses_what_is_not_a_number() {
    let bounds = AglBounds::default();
    assert!(agl_guard(&metres(f64::NAN), &bounds).is_err());
    assert!(agl_guard(&metres(f64::NEG_INFINITY), &bounds).is_err());
}

#[test]
fn busy_guard_rejects_only_nonempty_tasks() {
    assert!(busy_guard("").is_ok());
    let err = busy_guard("investigate").unwrap_err();
    assert!(matches!(&err, PolicyRejection::Busy { task } if task == "investigate"));
    assert_eq!(err.code(), "busy");
}

#[test]
fn shutdown_guard_checks_confirm_then_armed_then_busy() {
    // Wrong phrase loses first, regardless of the rest.
    assert!(matches!(
        shutdown_guard("iuas-02", "iuas-01", true, "raster-search"),
        Err(PolicyRejection::ShutdownConfirmMismatch)
    ));
    // Right phrase, armed.
    assert!(matches!(
        shutdown_guard("iuas-01", "iuas-01", true, ""),
        Err(PolicyRejection::ShutdownWhileArmed)
    ));
    // Right phrase, disarmed, busy.
    assert!(matches!(
        shutdown_guard("iuas-01", "iuas-01", false, "investigate"),
        Err(PolicyRejection::ShutdownWhileBusy { task }) if task == "investigate"
    ));
    // Fully authorized.
    assert!(shutdown_guard("iuas-01", "iuas-01", false, "").is_ok());
}

#[test]
fn audio_range_guard_uses_flat_earth_distance() {
    let vehicle = HOME;
    let near = metres(dist_m(vehicle, north_of(vehicle, 25.0)));
    assert!(audio_range_guard(&near, &metres(30.0)).is_ok());
    let far = metres(dist_m(vehicle, north_of(vehicle, 45.0)));
    let err = audio_range_guard(&far, &metres(30.0)).unwrap_err();
    match &err {
        PolicyRejection::AudioOutOfRange { distance_m, .. } => {
            assert!((value(distance_m) - 45.0).abs() < 0.5)
        }
        other => panic!("wrong rejection: {other:?}"),
    }
    assert_eq!(err.code(), "audio-out-of-range");
}

#[test]
fn rejections_say_what_was_wrong() {
    let bounds = AglBounds::default();
    assert_eq!(
        agl_guard(&metres(3.4), &bounds).unwrap_err().detail(),
        "agl 3.4 m outside allowed 3.5..=20.0 m"
    );
    assert_eq!(busy_guard("rtl").unwrap_err().detail(), "vehicle busy with task 'rtl'");
}

#[test]
fn rejected_ack_carries_policy_code_and_detail() {
    let rejection = agl_guard(&metres(50.0), &AglBounds::default()).unwrap_err();
    let ack = Ack::reject(&rejection);
    assert!(!ack.accepted);
    assert_eq!(ack.code, "agl-out-of-bounds");
    assert!(ack.detail.contains("50"), "detail: {}", ack.detail);
}
