use minimuas::anomaly::{decode_lossy, Anomaly};
use minimuas::quantity::Real;

fn bits_of(x: f64) -> Real {
    Real { bits: x.to_bits() }
}

#[test]
fn tagged_round_trip() {
    let bytes = br#"[
        {"kind":"visual","id":"a-1","lat_deg":35.0,"lon_deg":149.0,"size_m":4.0,"signature":"red","created_ns":7},
        {"kind":"audio","id":"a-2","lat_deg":35.001,"lon_deg":149.001,"loudness_db":80.0,"signature":"siren","created_ns":8}
    ]"#;
    let list = decode_lossy(bytes);
    assert_eq!(list.len(), 2);
    match &list[0] {
        Anomaly::Visual { id, lat_deg, lon_deg, size_m, signature, created_ns } => {
            assert_eq!(id, "a-1");
            assert_eq!(*lat_deg, bits_of(35.0));
            assert_eq!(*lon_deg, bits_of(149.0));
            assert_eq!(*size_m, bits_of(4.0));
            assert_eq!(signature, "red");
            assert_eq!(*created_ns, 7);
        }
        other => panic!("wrong kind: {other:?}"),
    }
    match &list[1] {
        Anomaly::Audio { id, lat_deg, lon_deg, loudness_db, signature, created_ns } => {
            assert_eq!(id, "a-2");
            assert_eq!(*lat_deg, bits_of(35.001));
            assert_eq!(*lon_deg, bits_of(149.001));
            assert_eq!(*loudness_db, bits_of(80.0));
            assert_eq!(signature, "siren");
            assert_eq!(*created_ns, 8);
        }
        other => panic!("wrong kind: {other:?}"),
    }
}

#[test]
fn unknown_kinds_are_skipped_not_fatal() {
    let bytes = br#"[
            {"kind":"thermal","id":"x","lat_deg":1.0,"lon_deg":2.0,"peak_c":90.0},
            {"kind":"visual","id":"a","lat_deg":35.0,"lon_deg":149.0,"size_m":2.0}
        ]"#;
    let decoded = decode_lossy(bytes);
    assert_eq!(decoded.len(), 1);
    assert_eq!(decoded[0].id(), "a");
    assert_eq!(decoded[0].kind(), "visual");
}

#[test]
fn entries_that_do_not_fit_are_skipped() {
    let bytes = br#"[
        {"kind":"visual","id":"no size","lat_deg":1,"lon_deg":2},
        {"kind":"visual","id":7,"lat_deg":1,"lon_deg":2,"size_m":3},
        {"kind":"audio","lat_deg":1,"lon_deg":2,"loudness_db":3,"created_ns":-1},
        {"kind":"audio","lat_deg":1,"lon_deg":2,"loudness_db":3,"later":"field"},
        ["visual","by place",1,2,3],
        ["visual","too long",1,2,3,"red",4,5],
        "visual"
    ]"#;
    let decoded = decode_lossy(bytes);
    assert_eq!(decoded.len(), 2);
    assert_eq!(decoded[0].id(), "");
    assert_eq!(decoded[0].kind(), "audio");
    assert_eq!(decoded[0].position(), (bits_of(1.0), bits_of(2.0)));
    assert_eq!(decoded[1].id(), "by place");
    assert!(decode_lossy(b"{}").is_empty());
    assert!(decode_lossy(b"[").is_empty());
}

#[test]
fn owners_assign_ids_and_times() {
    let mut a = decode_lossy(br#"[{"kind":"audio","lat_deg":1,"lon_deg":2,"loudness_db":3}]"#)
        .remove(0);
    a.set_id("a-9".into());
    a.set_created_ns(5);
    assert_eq!(a.id(), "a-9");
    assert!(matches!(a, Anomaly::Audio { created_ns: 5, .. }));
}
