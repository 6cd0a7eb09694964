use minimuas::blocks::{hex, BlockRef, DatumKind};
use minimuas::chains::{build_dataset, ChainRole, ResolvedBlock};
use minimuas::dataset::MissionDataset;
use minimuas::json::parse_json;

fn bref(byte: u8, chain: &str, seq: u64) -> BlockRef {
    BlockRef { hash: [byte; 32], chain: chain.into(), seq }
}

#[test]
fn journal_lines_classify_and_carry_provenance() {
    let mut ds = MissionDataset::new();
    let lines = [
        r#"{"kind":"run.config","ts_ns":10,"vehicle_id":"iuas-01","run_id":"r1","config":{"coord":{"grace_s":2.5},"carrier":"rpc"}}"#,
        r#"{"kind":"agent.up","ts_ns":11,"vehicle_id":"iuas-01","run_id":"r1","fleet_ids":["iuas-01","wuas-01"],"carrier":"rpc"}"#,
        r#"{"kind":"coord.coop","ts_ns":20,"vehicle_id":"iuas-01","peer":"wuas-01","bias_m":2.0}"#,
        r#"{"kind":"service.flight_takeoff","ts_ns":15,"vehicle_id":"iuas-01","accepted":true}"#,
        r#"{"kind":"rtl.done","ts_ns":30,"vehicle_id":"iuas-01","outcome":"landed"}"#,
    ];
    let payload = lines.join("\n");
    ds.add_journal_block(bref(1, "/muas/v3/iuas-01/journal/companion", 0), payload.as_bytes());
    ds.finish();

    assert_eq!(ds.run.run_id.as_deref(), Some("r1"));
    assert!(!ds.run.synthesized);
    assert_eq!(ds.run.display("coord.grace_s").as_deref(), Some("2.5"));
    assert_eq!(ds.of_kind(DatumKind::Coord).len(), 1);
    assert_eq!(ds.of_kind(DatumKind::Service).len(), 1);
    assert_eq!(ds.of_kind(DatumKind::Rtl).len(), 1);
    // Time-sorted: service (15) before coord (20).
    let labels: Vec<&str> = ds.data.iter().map(|d| d.label.as_str()).collect();
    assert_eq!(
        labels,
        ["run.config", "agent.up", "service.flight_takeoff", "coord.coop", "rtl.done"]
    );
    // Every datum cites the one block.
    for d in &ds.data {
        assert_eq!(ds.citation_of(d).hash, hex(&[1u8; 32]));
    }
}

#[test]
fn missing_run_config_synthesizes_and_marks_unknown() {
    let mut ds = MissionDataset::new();
    let line = r#"{"kind":"agent.up","ts_ns":1,"vehicle_id":"iuas-01","fleet_ids":["iuas-01"],"carrier":"ndnsf","source":"sim"}"#;
    ds.add_journal_block(bref(2, "/c", 0), line.as_bytes());
    ds.finish();
    assert!(ds.run.synthesized);
    assert_eq!(ds.run.display("carrier").as_deref(), Some("ndnsf"));
    assert_eq!(ds.run.display("fleet_size").as_deref(), Some("1"));
    assert_eq!(ds.run.display("coord.grace_s"), None, "unknown stays unknown");
    assert!(ds.run_label().starts_with("run-"), "content-derived label");
    assert_eq!(ds.run_label(), "run-02020202");
    assert_eq!(ds.run.display("endpoint.source").as_deref(), Some("sim"));
}

#[test]
fn disagreeing_vehicle_settings_split_per_vehicle() {
    let mut ds = MissionDataset::new();
    for (vid, floor, byte) in [("iuas-01", "3.5", 3u8), ("wuas-01", "4.0", 4u8)] {
        let line = format!(
            r#"{{"kind":"run.config","ts_ns":1,"vehicle_id":"{vid}","run_id":"r2","config":{{"coord":{{"floor_agl_m":{floor},"grace_s":2.5}}}}}}"#
        );
        ds.add_journal_block(bref(byte, &format!("/{vid}"), 0), line.as_bytes());
    }
    ds.finish();
    assert_eq!(ds.run.display("coord.grace_s").as_deref(), Some("2.5"), "agreement collapses");
    assert_eq!(ds.run.display("coord.floor_agl_m@iuas-01").as_deref(), Some("3.5"));
    assert_eq!(ds.run.display("coord.floor_agl_m@wuas-01").as_deref(), Some("4.0"));
    assert_eq!(ds.run.display("coord.floor_agl_m"), None);
}

#[test]
fn recording_lines_classify() {
    let mut ds = MissionDataset::new();
    let lines = [
        r#"{"t_ns":5,"event":{"type":"telemetry","vehicle":"iuas-01","sample":{"lat_deg":35.0,"lon_deg":-90.0,"agl_m":6.0}}}"#,
        r#"{"t_ns":6,"event":{"type":"video_stats","vehicle":"iuas-01","fps":12.0}}"#,
        r#"{"t_ns":7,"event":{"type":"event","kind":"mission.start"}}"#,
        r#"{"t_ns":8,"event":{"type":"telemetry_stale","vehicle":"wuas-01","silent_s":3.0}}"#,
    ];
    ds.add_recording_block(bref(9, "/muas/v3/gcs/recording/dash", 0), lines.join("\n").as_bytes());
    ds.finish();
    assert_eq!(ds.of_kind(DatumKind::Telemetry).len(), 1);
    assert_eq!(ds.of_kind(DatumKind::Link).len(), 2);
    assert_eq!(ds.vehicles(), ["iuas-01", "wuas-01"]);
    let cites = ds.citations_where(|d| d.kind == DatumKind::Telemetry);
    assert_eq!(cites.len(), 1);
    assert_eq!(cites[0].chain, "/muas/v3/gcs/recording/dash");
    assert_eq!(ds.t0(), 5);
    assert_eq!(ds.t1(), 8);
    assert_eq!(ds.data[2].label, "mission.start");
}

#[test]
fn torn_and_blank_lines_are_skipped() {
    let mut ds = MissionDataset::new();
    let payload = "{\"kind\":\"a\",\"ts_ns\":2}\n \t\r\n\n{\"kind\":\"b\",\"ts_ns\":1";
    ds.add_journal_block(bref(1, "/c", 0), payload.as_bytes());
    ds.finish();
    assert_eq!(ds.data.len(), 1);
    assert_eq!(ds.data[0].label, "a");
    assert_eq!(ds.data[0].vehicle, None);
    assert_eq!(ds.data[0].kind, DatumKind::Event);
}

#[test]
fn data_of_one_instant_keep_their_order() {
    let mut ds = MissionDataset::new();
    let payload = "{\"kind\":\"a\",\"ts_ns\":2}\n{\"kind\":\"b\",\"ts_ns\":1}\n{\"kind\":\"c\",\"ts_ns\":2}\n{\"kind\":\"d\",\"ts_ns\":1}";
    ds.add_journal_block(bref(1, "/c", 0), payload.as_bytes());
    ds.finish();
    let labels: Vec<&str> = ds.data.iter().map(|d| d.label.as_str()).collect();
    assert_eq!(labels, ["b", "d", "a", "c"]);
}

#[test]
fn configuration_lines_without_a_config_object_flatten_themselves() {
    let mut ds = MissionDataset::new();
    let line = r#"{"kind":"run.config","ts_ns":1,"link_profile":{"loss_pct":5,"name":"lossy"},"list":[1,"x"],"run_id":"r"}"#;
    ds.add_journal_block(bref(1, "/c", 0), line.as_bytes());
    ds.finish();
    assert_eq!(ds.run.run_id.as_deref(), Some("r"));
    assert_eq!(ds.run.display("link_profile.loss_pct").as_deref(), Some("5"));
    assert_eq!(ds.run.display("link_profile.name").as_deref(), Some("lossy"));
    assert_eq!(ds.run.display("list").as_deref(), Some("1,x"));
    assert_eq!(ds.run.display("kind"), None);
    assert_eq!(ds.run.display("run_id"), None);
}

#[test]
fn run_ids_inside_a_config_object_count() {
    let mut ds = MissionDataset::new();
    let line = r#"{"kind":"run.config","ts_ns":1,"config":{"run_id":"inner","a":1}}"#;
    ds.add_journal_block(bref(1, "/c", 0), line.as_bytes());
    ds.finish();
    assert_eq!(ds.run.run_id.as_deref(), Some("inner"));
    assert_eq!(ds.run.display("run_id"), None);
    assert_eq!(ds.run.display("a").as_deref(), Some("1"));
}

#[test]
fn a_silent_vehicle_keeps_the_others_apart() {
    let mut ds = MissionDataset::new();
    let lines = [
        r#"{"kind":"run.config","ts_ns":1,"vehicle_id":"a","config":{"k":1}}"#,
        r#"{"kind":"run.config","ts_ns":1,"vehicle_id":"b","config":{"j":2}}"#,
    ];
    ds.add_journal_block(bref(1, "/c", 0), lines.join("\n").as_bytes());
    ds.finish();
    assert_eq!(ds.run.display("k"), None);
    assert_eq!(ds.run.display("k@a").as_deref(), Some("1"));
    assert_eq!(ds.run.display("j@b").as_deref(), Some("2"));
    assert_eq!(ds.run.settings.len(), 2);
}

#[test]
fn all_citations_are_sorted_and_unique() {
    let mut ds = MissionDataset::new();
    for (byte, chain, seq) in [(2u8, "/b", 0u64), (1, "/a", 1), (1, "/a", 0), (2, "/b", 0)] {
        ds.add_journal_block(bref(byte, chain, seq), b"");
    }
    let all = ds.all_citations();
    let seen: Vec<(&str, u64)> = all.iter().map(|c| (c.chain.as_str(), c.seq)).collect();
    assert_eq!(seen, [("/a", 0), ("/a", 1), ("/b", 0)]);
    assert!(ds.citations_where(|_| true).is_empty());
    assert_eq!(ds.t0(), 0);
    assert_eq!(MissionDataset::new().run_label(), "run-empty");
}

#[test]
fn resolved_blocks_build_the_dataset() {
    let journal = ResolvedBlock {
        role: ChainRole::VehicleJournal,
        block: bref(1, "/j", 0),
        payload: Some(br#"{"kind":"coord.coop","ts_ns":5}"#.to_vec()),
    };
    let recording = ResolvedBlock {
        role: ChainRole::DashboardRecording,
        block: bref(2, "/r", 0),
        payload: Some(br#"{"t_ns":3,"event":{"type":"telemetry","vehicle":"a"}}"#.to_vec()),
    };
    let ds = build_dataset(vec![journal, recording]).unwrap();
    assert_eq!(ds.blocks.len(), 2);
    assert_eq!(ds.data[0].kind, DatumKind::Telemetry);
    assert_eq!(ds.data[0].block, 1);
    assert_eq!(ds.data[1].kind, DatumKind::Coord);
    assert!(ds.run.synthesized);

    let empty =
        ResolvedBlock { role: ChainRole::VehicleJournal, block: bref(1, "/j", 4), payload: None };
    assert_eq!(build_dataset(vec![empty]).unwrap_err(), "block /j seq 4 has no payload");
}

#[test]
fn json_values_print_as_they_are_read() {
    let text = r#"{"b":[1,2.5,null,true],"a":"x\"<é","n":{"m":-3}}"#;
    let j = parse_json(text.as_bytes()).unwrap();
    // Object keys come in order.
    assert_eq!(j.print(), r#"{"a":"x\"<é","b":[1,2.5,null,true],"n":{"m":-3}}"#);
    assert_eq!(j.text_field("a").as_deref(), Some("x\"<é"));
    assert!(j.get("missing").is_none());
    assert!(parse_json(b"{").is_none());
    assert!(parse_json(b"1 2").is_none());
    let f = parse_json(br#"{"x":-1.25,"n":7}"#).unwrap();
    let x = f.figure_field("x").unwrap();
    assert_eq!(f64::from_bits(x.real.bits), -1.25);
    assert_eq!(x.plain, "-1.25");
    assert_eq!(x.whole, "-1");
    assert_eq!(x.tenth, "-1.2");
    assert_eq!(x.json, "-1.25");
    assert_eq!(f.count_field("n"), Some(7));
    assert_eq!(f.figure_field("n").unwrap().json, "7.0");
    assert_eq!(f.count_field("x"), None);
}

#[test]
fn section_citations_are_sorted_and_unique() {
    let mut ds = MissionDataset::new();
    let line = br#"{"kind":"coord.coop","ts_ns":1}"#;
    for (byte, chain, seq) in
        [(2u8, "/b", 0u64), (1, "/b", 4), (1, "/a", 7), (2, "/b", 0), (1, "/a", 3), (0, "/z", 0)]
    {
        let payload: &[u8] = if byte == 0 { br#"{"kind":"agent.up","ts_ns":2}"# } else { line };
        ds.add_journal_block(bref(byte, chain, seq), payload);
    }
    ds.finish();
    let cites = ds.citations_where(|d| d.kind == DatumKind::Coord);
    let seen: Vec<(&str, &str, u64)> =
        cites.iter().map(|c| (&c.hash[..2], c.chain.as_str(), c.seq)).collect();
    assert_eq!(
        seen,
        [("01", "/a", 3), ("01", "/a", 7), ("01", "/b", 4), ("02", "/b", 0)],
        "by hash, chain and position, each once"
    );
}
