use minimuas::blocks::BlockRef;
use minimuas::dataset::MissionDataset;
use minimuas::json::Figure;
use minimuas::metrics::{metrics, outcome_columns, pctl, Measured, RunMetrics};
use minimuas::quantity::Real;

fn figure(x: f64) -> Figure {
    Figure {
        real: Real { bits: x.to_bits() },
        plain: format!("{x}"),
        whole: format!("{x:.0}"),
        tenth: format!("{x:.1}"),
        json: format!("{x:?}"),
    }
}

fn value(f: &Figure) -> f64 {
    f64::from_bits(f.real.bits)
}

fn measured(m: &RunMetrics) -> Measured {
    Measured {
        duration_s: figure(m.duration_ns as f64 / 1e9),
        coop_rate_pct: m.coop_rate_pct().map(|(a, b)| figure(a as f64 / b as f64 * 100.0)),
        interarrival_ms: m
            .vehicles
            .iter()
            .map(|v| {
                v.interarrival.map(|p| (figure(p.p50 as f64 / 1e6), figure(p.p95 as f64 / 1e6)))
            })
            .collect(),
        video_kbps_mean: None,
    }
}

fn bref(byte: u8, chain: &str) -> BlockRef {
    BlockRef { hash: [byte; 32], chain: chain.into(), seq: 0 }
}

#[test]
fn metrics_fold_the_fixture_shapes() {
    let mut ds = MissionDataset::new();
    let journal = [
        r#"{"kind":"coord.coop","ts_ns":10000000000,"vehicle_id":"a","peer":"b","bias_m":2.0}"#,
        r#"{"kind":"coord.unco","ts_ns":20000000000,"vehicle_id":"a","peer":"b","bias_m":4.0}"#,
        r#"{"kind":"service.flight_takeoff","ts_ns":1000000000,"vehicle_id":"a","accepted":true,"rtt_ms":12.0}"#,
        r#"{"kind":"flight.takeoff.result","ts_ns":5000000000,"vehicle_id":"a","airborne":true}"#,
        r#"{"kind":"rtl.done","ts_ns":30000000000,"vehicle_id":"a","outcome":"landed"}"#,
        r#"{"kind":"spark.stats","ts_ns":29000000000,"vehicle_id":"a","frame_loss_pct":1.3}"#,
    ];
    ds.add_journal_block(bref(1, "/j"), journal.join("\n").as_bytes());
    let telem: Vec<String> = (0..5u64)
        .map(|i| {
            format!(
                r#"{{"t_ns":{},"event":{{"type":"telemetry","vehicle":"a","sample":{{"agl_m":{:.1},"groundspeed_m_s":2.0,"battery_pct":{:.1},"mode":"GUIDED"}}}}}}"#,
                1_000_000_000u64 + i * 200_000_000,
                5.0 + i as f64,
                90.0 - i as f64
            )
        })
        .collect();
    ds.add_recording_block(bref(2, "/r"), telem.join("\n").as_bytes());
    ds.finish();

    let m = metrics(&ds);
    assert_eq!(m.coop, 1);
    assert_eq!(m.unco, 1);
    assert_eq!(m.coop_rate_pct(), Some((1, 2)));
    assert_eq!(m.coop_rate_pct().map(|(a, b)| a as f64 / b as f64 * 100.0), Some(50.0));
    assert_eq!(m.max_bias_m.as_ref().map(value), Some(4.0));
    assert_eq!(m.takeoff_attempts, 1);
    assert_eq!(m.takeoff_ok, 1);
    assert_eq!(m.service_ops, 1);
    assert_eq!(m.rtl_outcome.as_deref(), Some("landed"));
    assert_eq!(m.spark_loss_pct.as_ref().map(value), Some(1.3));
    let v = m.vehicle("a").expect("vehicle a");
    assert_eq!(v.samples, 5);
    assert_eq!(value(&v.max_agl_m), 9.0);
    assert_eq!(v.battery_pct.as_ref().map(|(a, b)| (value(a), value(b))), Some((90.0, 86.0)));
    let ia = v.interarrival.as_ref().expect("inter-arrival");
    assert_eq!(ia.n, 4);
    assert!((ia.p50 as f64 / 1e6 - 200.0).abs() < 1e-9);
    let cols = outcome_columns(&m, &measured(&m));
    let names: Vec<&str> = cols.iter().map(|c| c.name.as_str()).collect();
    assert!(names.contains(&"coop rate %"));
    assert!(names.contains(&"spark loss %"));

    // The whole table row, in the order of the names.
    let cells: Vec<(&str, &str, Option<&str>)> = cols
        .iter()
        .map(|c| (c.name.as_str(), c.cell.display.as_str(), c.cell.num.as_deref()))
        .collect();
    assert_eq!(
        cells,
        [
            ("coop rate %", "50", Some("50")),
            ("coop/unco", "1/1", Some("1")),
            ("duration s", "29", Some("29")),
            ("max bias m", "4.0", Some("4")),
            ("rtl", "landed", None),
            ("spark loss %", "1.3", Some("1.3")),
            ("svc ok/rejected", "1/0", Some("0")),
            ("svc rtt p50 ms", "12.0", Some("12")),
            ("svc rtt p95 ms", "12.0", Some("12")),
            ("takeoffs", "1/1", Some("1")),
            ("telem p50 ms", "200.0", Some("200")),
            ("telem p95 ms", "200.0", Some("200")),
        ]
    );
    let mut sorted = names.clone();
    sorted.sort_unstable();
    assert_eq!(names, sorted);
}

#[test]
fn mirrored_coord_events_count_as_one_episode() {
    // Both sides of the pair journal the same maneuver ~0.3 s apart;
    // the mutual publication is ONE episode. A later episode of the
    // same pair (outside the merge window) counts again.
    let mut ds = MissionDataset::new();
    let t = 10_000_000_000u64;
    let lines = [
        format!(r#"{{"kind":"coord.coop","ts_ns":{t},"vehicle_id":"iuas-01","peer":"wuas-01","bias_m":2.0}}"#),
        format!(r#"{{"kind":"coord.coop","ts_ns":{},"vehicle_id":"wuas-01","peer":"iuas-01","bias_m":-2.0}}"#, t + 300_000_000),
        format!(r#"{{"kind":"coord.coop","ts_ns":{},"vehicle_id":"iuas-01","peer":"wuas-01","bias_m":2.0}}"#, t + 9_000_000_000),
        format!(r#"{{"kind":"coord.coop","ts_ns":{},"vehicle_id":"wuas-01","peer":"iuas-01","bias_m":-2.0}}"#, t + 9_300_000_000),
        format!(r#"{{"kind":"coord.unco","ts_ns":{},"vehicle_id":"iuas-01","peer":"wuas-01","bias_m":4.5}}"#, t + 20_000_000_000),
    ];
    ds.add_journal_block(bref(3, "/j"), lines.join("\n").as_bytes());
    ds.finish();
    let m = metrics(&ds);
    assert_eq!(m.coop, 2, "two coop episodes, each journaled by both sides");
    assert_eq!(m.unco, 1);
    assert_eq!(m.max_bias_m.as_ref().map(value), Some(4.5));
}

#[test]
fn percentiles_round_their_positions() {
    // Positions 0.5 (n - 1) and 0.95 (n - 1), rounded half away from zero.
    for n in 1..60usize {
        let samples: Vec<Figure> = (0..n).rev().map(|i| figure(i as f64)).collect();
        let p = pctl(&samples).unwrap();
        let q = |f: f64| ((n - 1) as f64 * f).round();
        assert_eq!(value(&p.p50), q(0.50), "p50 of {n}");
        assert_eq!(value(&p.p95), q(0.95), "p95 of {n}");
        assert_eq!(value(&p.max), (n - 1) as f64);
        assert_eq!(p.n, n);
    }
    assert!(pctl(&Vec::new()).is_none());
}

#[test]
fn an_empty_run_has_no_outcomes_but_its_length() {
    let ds = MissionDataset::new();
    let m = metrics(&ds);
    assert_eq!(m.duration_ns, 0);
    assert_eq!(m.coop_rate_pct(), None);
    let g = measured(&m);
    assert!(g.telemetry_interarrival_ms().is_none());
    let cols = outcome_columns(&m, &g);
    assert_eq!(cols.len(), 1);
    assert_eq!(cols[0].name, "duration s");
}

#[test]
fn negative_biases_count_by_size_and_rejections_are_told_apart() {
    let mut ds = MissionDataset::new();
    let lines = [
        r#"{"kind":"coord.note","ts_ns":1,"bias_m":-3.25}"#,
        r#"{"kind":"service.x","ts_ns":2,"accepted":false,"rtt_ms":5}"#,
        r#"{"kind":"service.x","ts_ns":3,"rtt_ms":7.5}"#,
        r#"{"kind":"flight.takeoff.result","ts_ns":4,"airborne":false}"#,
    ];
    ds.add_journal_block(bref(1, "/j"), lines.join("\n").as_bytes());
    let links = [
        r#"{"t_ns":5,"event":{"type":"video_stats","kbps":100}}"#,
        r#"{"t_ns":6,"event":{"type":"telemetry_stale"}}"#,
        r#"{"t_ns":7,"event":{"type":"video_stats","kbps":50.5}}"#,
    ];
    ds.add_recording_block(bref(2, "/r"), links.join("\n").as_bytes());
    ds.finish();
    let m = metrics(&ds);
    assert_eq!((m.coop, m.unco), (0, 0));
    let bias = m.max_bias_m.as_ref().unwrap();
    assert_eq!(value(bias), 3.25);
    assert_eq!((bias.plain.as_str(), bias.tenth.as_str()), ("3.25", "3.2"));
    assert_eq!((m.service_ops, m.service_rejected), (2, 1));
    let rtt = m.service_rtt_ms.as_ref().unwrap();
    assert_eq!((value(&rtt.p50), value(&rtt.max), rtt.n), (7.5, 7.5, 2));
    assert_eq!((m.takeoff_attempts, m.takeoff_ok), (1, 0));
    assert_eq!(m.stale_marks, 1);
    let kbps: Vec<f64> = m.video_kbps.iter().map(value).collect();
    assert_eq!(kbps, [100.0, 50.5]);
    assert!(m.vehicle("nobody").is_none());
}
