use minimuas::blocks::{BlockRef, DatumKind};
use minimuas::dataset::MissionDataset;
use minimuas::journal::{ack_event, event, file_name, line_text, of_run, tagged, Batch};
use minimuas::json::{parse_json, Json};
use minimuas::metrics::metrics;
use minimuas::services::Ack;

#[test]
fn journal_lines_are_tagged() {
    let fields = parse_json(br#"{"agl_m":5.0}"#).unwrap();
    let line = tagged(event("service.flight_takeoff", fields, 42), "iuas-01");
    assert_eq!(
        line_text(&line),
        "{\"agl_m\":5.0,\"kind\":\"service.flight_takeoff\",\"ts_ns\":42,\"vehicle_id\":\"iuas-01\"}\n"
    );
    // A line that names its vehicle keeps it.
    let own = parse_json(br#"{"vehicle_id":"wuas-01"}"#).unwrap();
    let line = tagged(event("x", own, 1), "iuas-01");
    assert_eq!(line.text_field("vehicle_id").as_deref(), Some("wuas-01"));
    // What is no object stands under `value`.
    let line = event("x", Json::Bool(true), 1);
    assert_eq!(line.print(), "{\"kind\":\"x\",\"ts_ns\":1,\"value\":true}");
    // The envelope wins over fields of the same name.
    let clash = parse_json(br#"{"kind":"fake","ts_ns":9}"#).unwrap();
    assert_eq!(event("x", clash, 1).print(), "{\"kind\":\"x\",\"ts_ns\":1}");
    assert_eq!(file_name("iuas-01", 12_345_678_901), "agent-iuas-01-12.jsonl");
}

#[test]
fn batches_are_cut_only_for_a_chain() {
    let mut b = Batch::new(true);
    b.gather("a\n");
    b.gather("b\n");
    assert_eq!(b.cut().as_deref(), Some("a\nb\n"));
    assert_eq!(b.cut(), None);
    let mut none = Batch::new(false);
    none.gather("a\n");
    assert_eq!(none.cut(), None);
}

#[test]
fn journaled_answers_come_back_as_counted_services() {
    let mut text = String::new();
    for (ack, ts) in [(Ack::ok(), 1), (Ack::refuse("busy", "say \"why\""), 2)] {
        let (kind, fields) = ack_event("flight_takeoff", Json::Null, &ack);
        text.push_str(&line_text(&tagged(event(&kind, fields, ts), "iuas-01")));
    }
    let (_, fields) = ack_event("flight_takeoff", Json::Null, &Ack::ok());
    assert_eq!(fields.print(), r#"{"accepted":true,"code":"","detail":"","request":null}"#);
    let mut ds = MissionDataset::new();
    ds.add_journal_block(BlockRef { hash: [1; 32], chain: "/c".into(), seq: 0 }, text.as_bytes());
    ds.finish();
    assert_eq!(ds.data.len(), 2);
    assert_eq!(ds.data[1].kind, DatumKind::Service);
    assert_eq!(ds.data[1].label, "service.flight_takeoff");
    assert_eq!(ds.data[1].vehicle.as_deref(), Some("iuas-01"));
    assert_eq!(ds.data[1].body.text_field("detail").as_deref(), Some("say \"why\""));
    let m = metrics(&ds);
    assert_eq!((m.service_ops, m.service_rejected), (2, 1));
}

#[test]
fn spellings_are_read_as_they_were_written() {
    let text = r#"{"a":[1,-2,0.1,1e300,null,true],"k\n\"\u0001":{"":"\u00e9\ud83d\ude00\\"},"n":18446744073709551615}"#;
    let value = parse_json(text.as_bytes()).unwrap();
    let spelled = value.print();
    assert!(spelled.chars().all(|c| c >= ' '), "one line: {spelled}");
    let again = parse_json(spelled.as_bytes()).unwrap();
    assert_eq!(again.print(), spelled);
    assert_eq!(again.count_field("n"), Some(u64::MAX));
    assert_eq!(value.text_field("k\n\"\u{1}"), None);
    let inner = again.get("k\n\"\u{1}").unwrap();
    assert_eq!(inner.text_field("").as_deref(), Some("\u{e9}\u{1f600}\\"));

    // 127 lists are read, 128 are not.
    let deep = |n: usize| format!("{}{}", "[".repeat(n), "]".repeat(n));
    assert!(parse_json(deep(127).as_bytes()).is_some());
    assert!(parse_json(deep(128).as_bytes()).is_none());
    assert!(parse_json(b"{} {}").is_none());
    // Keys come in order, whatever order they are spelled in.
    assert_eq!(parse_json(br#"{"b":1,"a":2}"#).unwrap().print(), r#"{"a":2,"b":1}"#);
}

#[test]
fn journals_are_read_back_line_by_line() {
    let mut batch = Batch::new(true);
    for (kind, note, ts) in [("task.queued", "one\ntwo", 5), ("coord.avoid", "\"q\"", 6)] {
        let mut fields = parse_json(b"{\"bias_m\":0.25}").unwrap();
        if let Json::Object(entries) = fields {
            fields = Json::Object(Json::set_field(entries, "note", Json::Text(note.into())));
        }
        batch.gather(&line_text(&tagged(event(kind, fields, ts), "wuas-01")));
    }
    let payload = batch.cut().unwrap();
    assert_eq!(payload.lines().count(), 2);
    let mut ds = MissionDataset::new();
    ds.add_journal_block(BlockRef { hash: [1; 32], chain: "/c".into(), seq: 0 }, payload.as_bytes());
    assert_eq!(ds.data.len(), 2);
    assert_eq!((ds.data[0].t_ns, ds.data[0].label.as_str()), (5, "task.queued"));
    assert_eq!(ds.data[0].body.text_field("note").as_deref(), Some("one\ntwo"));
    assert_eq!((ds.data[1].t_ns, ds.data[1].kind), (6, DatumKind::Coord));
    assert_eq!(ds.data[1].vehicle.as_deref(), Some("wuas-01"));
    assert_eq!(ds.data[1].body.text_field("note").as_deref(), Some("\"q\""));
    assert_eq!(f64::from_bits(ds.data[1].body.figure_field("bias_m").unwrap().real.bits), 0.25);
}

#[test]
fn every_line_carries_the_run() {
    let line = |run: Option<&str>| {
        let fields = parse_json(br#"{"agl_m":5.0}"#).unwrap();
        of_run(tagged(event("agent.up", fields, 7), "iuas-01"), run)
    };
    assert_eq!(line(None).text_field("run_id"), None);
    assert_eq!(
        line_text(&line(Some("r1"))),
        "{\"agl_m\":5.0,\"kind\":\"agent.up\",\"run_id\":\"r1\",\"ts_ns\":7,\"vehicle_id\":\"iuas-01\"}\n"
    );
    // A line that names its run keeps it.
    assert_eq!(of_run(line(Some("r1")), Some("r2")).text_field("run_id").as_deref(), Some("r1"));
    let mut ds = MissionDataset::new();
    let text = line_text(&line(Some("r1")));
    ds.add_journal_block(BlockRef { hash: [1; 32], chain: "/c".into(), seq: 0 }, text.as_bytes());
    assert_eq!(ds.run.run_id.as_deref(), Some("r1"));
}

#[test]
fn texts_are_quoted_with_escapes() {
    let all: String = (0u8..=127).map(char::from).collect();
    let mut want = String::from("\"");
    for c in all.chars() {
        match c {
            '"' => want.push_str("\\\""),
            '\\' => want.push_str("\\\\"),
            '\u{8}' => want.push_str("\\b"),
            '\t' => want.push_str("\\t"),
            '\n' => want.push_str("\\n"),
            '\u{c}' => want.push_str("\\f"),
            '\r' => want.push_str("\\r"),
            c if c < ' ' => want.push_str(&format!("\\u{:04x}", c as u32)),
            c => want.push(c),
        }
    }
    want.push('"');
    assert_eq!(Json::Text(all).print(), want);
    assert_eq!(Json::Text("\u{2028}/\u{7f}\u{e9}".into()).print(), "\"\u{2028}/\u{7f}\u{e9}\"");
}
