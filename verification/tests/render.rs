use minimuas::blocks::{hex, same_citation, BlockRef};
use minimuas::dataset::MissionDataset;
use minimuas::json::Figure;
use minimuas::lens::{artifact_contract, intent, renderer};
use minimuas::metrics::{metrics, Measured};
use minimuas::quantity::Real;
use minimuas::render::compare::percent_encode;
use minimuas::render::deck::{bias_series, Chart, GridLine, Spot};
use minimuas::render::demo::replay_data;
use minimuas::render::registry::{
    artifact_filename, dataset_view, produce, render_by, Binding, ProduceError, RenderError, ViewModel,
};
use minimuas::render::{assoc_line, config_panel, esc, page, prov_drawer, t_rel, Run, RunSet};

fn figure(x: f64) -> Figure {
    Figure {
        real: Real { bits: x.to_bits() },
        plain: format!("{x}"),
        whole: format!("{x:.0}"),
        tenth: format!("{x:.1}"),
        json: format!("{x:?}"),
    }
}

/// What the program around the library measures and prints of a run.
fn run(ds: MissionDataset) -> Run {
    let m = metrics(&ds);
    let t0 = ds.t0();
    let mean = |v: &[Figure]| {
        v.iter().map(|f| f64::from_bits(f.real.bits)).sum::<f64>() / v.len() as f64
    };
    let measured = Measured {
        duration_s: figure(m.duration_ns as f64 / 1e9),
        coop_rate_pct: m.coop_rate_pct().map(|(a, b)| figure(a as f64 / b as f64 * 100.0)),
        interarrival_ms: m
            .vehicles
            .iter()
            .map(|v| {
                v.interarrival.map(|p| (figure(p.p50 as f64 / 1e6), figure(p.p95 as f64 / 1e6)))
            })
            .collect(),
        video_kbps_mean: if m.video_kbps.is_empty() { None } else { Some(figure(mean(&m.video_kbps))) },
    };
    let spots = bias_series(&ds)
        .iter()
        .map(|s| s.points.iter().map(|_| Spot { x: "50.0".into(), y: "60.0".into() }).collect())
        .collect();
    let chart = Chart {
        grid: vec![GridLine { y: "234.0".into(), label_y: "237.5".into(), value: "0".into() }],
        base_y: "234.0".into(),
        spots,
    };
    let times =
        ds.data.iter().map(|d| format!("{:?}", d.t_ns.saturating_sub(t0) as f64 / 1e9)).collect();
    let duration = format!("{:?}", ds.t1().saturating_sub(t0) as f64 / 1e9);
    Run { dataset: ds, measured, chart, times, duration }
}

fn mission(byte: u8, run_id: &str, loss: &str) -> MissionDataset {
    let mut ds = MissionDataset::new();
    let journal = [
        format!(r#"{{"kind":"run.config","ts_ns":1000000000,"vehicle_id":"a","run_id":"{run_id}","config":{{"coord":{{"grace_s":2.5}},"link_profile":{{"loss_pct":{loss}}}}}}}"#),
        r#"{"kind":"coord.coop","ts_ns":11000000000,"vehicle_id":"a","peer":"b","bias_m":2.0}"#.to_string(),
        r#"{"kind":"service.flight_takeoff","ts_ns":2000000000,"vehicle_id":"a","accepted":true,"rtt_ms":12.4}"#.to_string(),
        r#"{"kind":"rtl.done","ts_ns":61000000000,"vehicle_id":"a","outcome":"<landed>"}"#.to_string(),
    ];
    ds.add_journal_block(
        BlockRef { hash: [byte; 32], chain: "/j".into(), seq: 3 },
        journal.join("\n").as_bytes(),
    );
    let telem = [
        r#"{"t_ns":1000000000,"event":{"type":"telemetry","vehicle":"a","sample":{"lat_deg":35,"lon_deg":-90.5,"agl_m":6.25,"battery_pct":90,"mode":"GUIDED"}}}"#,
        r#"{"t_ns":1200000000,"event":{"type":"telemetry","vehicle":"a","sample":{"lat_deg":35.5,"lon_deg":-90.25,"battery_pct":80.4,"mode":"LAND"}}}"#,
    ];
    ds.add_recording_block(
        BlockRef { hash: [byte + 1; 32], chain: "/r".into(), seq: 0 },
        telem.join("\n").as_bytes(),
    );
    ds.finish();
    ds
}

fn bind(intents: &[&str]) -> Vec<Binding> {
    let contract = artifact_contract();
    intents
        .iter()
        .map(|i| Binding {
            intent: i.to_string(),
            renderer: contract
                .clauses
                .iter()
                .find(|c| c.intent == *i)
                .map(|c| c.via.to_string())
                .ok_or_else(|| "no clause".to_string()),
        })
        .collect()
}

#[test]
fn three_lenses_render_and_share_hashes() {
    let set = RunSet { runs: vec![run(mission(1, "r1", "5"))] };
    let out = produce(&set, &bind(&[intent::REPORT, intent::DECK, intent::DEMO])).unwrap();
    assert_eq!(out.len(), 3);
    for name in ["report.html", "deck.html", "demo.html"] {
        let art = out.get(name).unwrap_or_else(|| panic!("{name} produced"));
        assert!(art.html.starts_with("<!doctype html>"), "{name} is a full page");
        assert!(!art.citations.is_empty(), "{name} carries provenance");
    }
    // A datum consumed by several artifacts cites one hash.
    let ds = &set.runs[0].dataset;
    let coop = ds.data.iter().find(|d| d.label == "coord.coop").unwrap();
    let cite = ds.citation_of(coop);
    for name in ["report.html", "deck.html", "demo.html"] {
        assert!(out.get(name).unwrap().citations.iter().any(|c| same_citation(c, &cite)));
    }
    let report = &out.get("report.html").unwrap().html;
    assert!(report.contains("Run configuration"));
    assert!(report.contains("associated settings"));
    assert!(report.contains("provenance —"));
    assert!(report.contains(&cite.hash), "full hash available in tooltips and drawers");
}

#[test]
fn reports_state_what_happened() {
    let set = RunSet { runs: vec![run(mission(1, "r<1>", "5"))] };
    let html = render_by(&set, renderer::REPORT, &dataset_view(&set, intent::REPORT)).unwrap().html;
    for piece in [
        "<title>Mission report — r&lt;1&gt;</title>",
        "<h1>Mission report — r&lt;1&gt;</h1><p class=\"sub\">1 vehicle(s) · 60 s window · 6 data · 2 blocks across 2 chains</p>",
        "<p class=\"assoc\">coop grace 2.5 s · h-sep ? · v-sep ? · flight floor ? · link loss 5 % · link delay ?</p>",
        "succeeded in <strong>1</strong> of <strong>1</strong> episodes (100%); max vertical bias 2.0 m. Smart RTL: &lt;landed&gt;.</p>",
        "<td>00:10</td><td>a</td><td>coord.coop</td><td>b</td><td>+2.0 m</td></tr>",
        "<td>00:01</td><td>a</td><td>service.flight_takeoff</td><td>accepted · 12 ms</td></tr>",
        "<td>01:00</td><td>a</td><td>rtl.done</td><td>&lt;landed&gt;</td></tr>",
        "<tr><td>a</td><td>2</td><td>6.2 m</td><td>0.0 m/s</td><td>90% → 80%</td><td>GUIDED, LAND</td></tr>",
        "<p>Service RTT p50/p95: <strong>12.4 / 12.4 ms (n=1)</strong>.</p>",
        "<tr><td>a</td><td>200.0 / 200.0 ms (n=1)</td></tr>",
        "provenance — 1 block · coordination events",
        "provenance — 2 blocks · entire artifact",
    ] {
        assert!(html.contains(piece), "missing: {piece}\n{html}");
    }
    assert!(!html.contains("<landed>"));
    // The configuration line is shown as the panel, not on the timeline.
    assert!(!html.contains("<td>run.config</td>"));
}

#[test]
fn decks_lead_with_the_outcome() {
    let set = RunSet { runs: vec![run(mission(1, "r1", "5"))] };
    let html = render_by(&set, renderer::DECK, &dataset_view(&set, intent::DECK)).unwrap().html;
    assert_eq!(html.matches("<section class=\"slide\">").count(), 7);
    for piece in [
        "<span title=\"0101010101, 0202020202\">run r1 · derived from 2 content-addressed blocks</span>",
        "<div class=\"k\">link loss</div><div class=\"v\">5 %</div><div class=\"k\">coop grace</div><div class=\"v\">2.5 s</div>",
        "<div class=\"hero\">100%</div><div class=\"hero-label\">cooperative avoidance success (1/1 episodes)</div>",
        "0/0 takeoffs airborne · RTL &lt;landed&gt; · 1 service calls (0 rejected)",
        "<path d=\"M 44.0 234.0 L 50.0 234.0 L 50.0 60.0 L 664.0 60.0\" fill=\"none\" stroke=\"var(--s1)\"",
        "<circle cx=\"50.0\" cy=\"60.0\" r=\"4\" fill=\"var(--s1)\"",
        "<text x=\"664\" y=\"252\" text-anchor=\"end\">01:00</text></svg><div class=\"legend\">",
        "<tr><td>a</td><td>200 / 200 ms</td></tr>",
        "<p class=\"note\">service RTT 12/12 ms</p>",
    ] {
        assert!(html.contains(piece), "missing: {piece}");
    }
}

#[test]
fn demos_embed_the_replay() {
    let ds = mission(1, "r1", "5");
    let r = run(ds);
    assert_eq!(
        replay_data(&r.dataset, &r.times, &r.duration),
        concat_json(&[
            r#"{"dur":60.0,"events":[[1.0,0,"service.flight_takeoff"],[10.0,0,"coord.coop"],[60.0,0,"rtl.done"]],"#,
            r#""tracks":[[[0.0,35.0,-90.5,6.25],[0.2,35.5,-90.25,0.0]]],"vehicles":["a"]}"#,
        ])
    );
    let set = RunSet { runs: vec![r] };
    let html = render_by(&set, renderer::DEMO, &dataset_view(&set, intent::DEMO)).unwrap().html;
    assert!(html.contains("<p class=\"assoc\">coop grace 2.5 s</p>"));
    assert!(html.contains("<script>const DATA = {\"dur\":60.0,"));
}

fn concat_json(parts: &[&str]) -> String {
    parts.concat()
}

#[test]
fn comparisons_lead_with_setting_deltas() {
    let set = RunSet { runs: vec![run(mission(1, "A", "5")), run(mission(5, "B,1", "9"))] };
    let out = produce(&set, &bind(&[intent::COMPARE])).unwrap();
    let cmp = out.get("compare.html").unwrap();
    for piece in [
        "Only <strong>1</strong> setting differs between these runs: <code>link_profile.loss_pct</code>.",
        "shared settings (1 identical across all runs)",
        "<tr><td class=\"mono\">coord.grace_s</td><td class=\"mono\">2.5</td></tr>",
        "<th colspan=\"1\" class=\"delta\">settings that changed</th>",
        "<tr class=\"cols\"><th>run</th><th class=\"delta\">link_profile.loss_pct</th><th>coop rate %</th>",
        "<tr><td>B,1</td><td class=\"delta\">9</td><td data-num=\"100\">100</td><td data-num=\"1\">1/0</td>",
        "<td>&lt;landed&gt;</td>",
        "run%2Clink_profile.loss_pct%2Ccoop%20rate%20%25%2Ccoop/unco%2C",
        "%0AB;1%2C9%2C100%2C".replace(';', "%3B").as_str(),
        "<span class=\"key-dot\" style=\"background:var(--s2)\"></span><strong>B,1</strong> <span class=\"delta-note\">link_profile.loss_pct 9</span>",
        "provenance — 2 blocks · run A",
        "<script>const RUNS = [{\"label\":\"A\",\"tracks\":[[[35.0,-90.5],[35.5,-90.25]]],\"vehicles\":[\"a\"]},",
        "4 blocks total",
    ] {
        assert!(cmp.html.contains(piece), "missing: {piece}");
    }
    // All runs are cited, each Block as the single-run report cites it.
    let report = produce(
        &RunSet { runs: vec![run(mission(5, "B,1", "9"))] },
        &bind(&[intent::REPORT]),
    )
    .unwrap();
    for c in &report.get("report.html").unwrap().citations {
        assert!(cmp.citations.iter().any(|d| same_citation(c, d)));
    }
    assert!(cmp.citations.iter().any(|c| c.hash == hex(&[1; 32])));

    let same = RunSet { runs: vec![run(mission(1, "A", "5")), run(mission(1, "B", "5"))] };
    let html =
        render_by(&same, renderer::COMPARE, &dataset_view(&same, intent::COMPARE)).unwrap().html;
    assert!(html.contains("No settings differ between these runs"));
    assert!(html.contains("outcomes (no settings differ)</th>"));
    assert!(html.contains("(identical settings)"));
}

#[test]
fn artifact_bytes_depend_on_the_data_alone() {
    let one = RunSet { runs: vec![run(mission(1, "r1", "5"))] };
    let two = RunSet { runs: vec![run(mission(1, "r1", "5"))] };
    let intents = [intent::REPORT, intent::DECK, intent::DEMO];
    let (a, b) = (produce(&one, &bind(&intents)).unwrap(), produce(&two, &bind(&intents)).unwrap());
    for name in ["report.html", "deck.html", "demo.html"] {
        assert_eq!(a.get(name).unwrap().html, b.get(name).unwrap().html);
    }
}

#[test]
fn renderers_refuse_what_they_cannot_render() {
    let empty = RunSet { runs: vec![] };
    let view = dataset_view(&empty, intent::REPORT);
    match render_by(&empty, renderer::REPORT, &view).unwrap_err() {
        RenderError::Unrenderable { renderer: id, reason } => {
            assert_eq!((id.as_str(), reason.as_str()), (renderer::REPORT, "empty run set"));
        }
        other => panic!("wrong error: {other:?}"),
    }
    let one = RunSet { runs: vec![run(mission(1, "r", "1"))] };
    let view = dataset_view(&one, intent::COMPARE);
    match render_by(&one, renderer::COMPARE, &view).unwrap_err() {
        RenderError::Unrenderable { reason, .. } => {
            assert_eq!(reason, "comparison needs >= 2 runs, got 1")
        }
        other => panic!("wrong error: {other:?}"),
    }
    match render_by(&one, renderer::DECK, &view).unwrap_err() {
        RenderError::Unrenderable { reason, .. } => {
            assert_eq!(reason, "expected a mission-dataset handle, got kind `run-set`")
        }
        other => panic!("wrong error: {other:?}"),
    }
    let chart = ViewModel::Other("chart".into());
    match render_by(&one, renderer::DEMO, &chart).unwrap_err() {
        RenderError::WrongViewModel { expected, got, .. } => {
            assert_eq!((expected.as_str(), got.as_str()), ("raw", "chart"))
        }
        other => panic!("wrong error: {other:?}"),
    }
    assert!(matches!(
        render_by(&one, "artifact.render.poster", &chart),
        Err(RenderError::Unregistered { .. })
    ));
    match produce(&one, &bind(&[intent::REPORT, "artifact.poster"])).unwrap_err() {
        ProduceError::Bind { intent, error } => {
            assert_eq!((intent.as_str(), error.as_str()), ("artifact.poster", "no clause"))
        }
        other => panic!("wrong error: {other:?}"),
    }
    assert!(matches!(
        produce(&one, &bind(&[intent::COMPARE])).unwrap_err(),
        ProduceError::Render { .. }
    ));
}

#[test]
fn handles_name_the_data() {
    let one = RunSet { runs: vec![run(mission(1, "r", "1"))] };
    match dataset_view(&one, intent::DECK) {
        ViewModel::Raw(v) => {
            assert_eq!(v.name, "/muas/v3/artifacts/run/r");
            assert_eq!((v.kind.as_str(), v.size), ("mission-dataset", 6));
            assert_eq!(v.media_type, "application/x-mission-dataset");
        }
        other => panic!("wrong handle: {other:?}"),
    }
    match dataset_view(&one, intent::COMPARE) {
        ViewModel::Raw(v) => {
            assert_eq!(v.name, "/muas/v3/artifacts/run-set");
            assert_eq!((v.kind.as_str(), v.size), ("run-set", 1));
        }
        other => panic!("wrong handle: {other:?}"),
    }
    assert_eq!(artifact_filename(intent::DEMO), "demo.html");
    assert_eq!(artifact_filename("x"), "artifact.html");
}

#[test]
fn shared_pieces_escape_and_fold() {
    assert_eq!(esc("a<b>&\"'"), "a&lt;b&gt;&amp;&quot;'");
    assert_eq!(esc("&lt;"), "&amp;lt;");
    assert_eq!(t_rel(3_661_000_000_000, 0), "61:01");
    assert_eq!(t_rel(5, 9_000_000_000), "00:00");
    assert_eq!(prov_drawer("x", &vec![]), "");
    assert_eq!(percent_encode("a b,é~"), "a%20b%2C%C3%A9~");
    assert!(page("T<", "x{}", "B").ends_with("x{}</style></head><body>B</body></html>"));
    let empty = MissionDataset::new();
    assert_eq!(assoc_line(&empty.run, &vec!["carrier", "no such"], true), "carrier ?");
    assert_eq!(assoc_line(&empty.run, &vec!["carrier"], false), "");
    let panel = config_panel(&empty.run);
    assert!(panel.contains("full configuration (0 settings)"));
    assert!(!panel.contains("No <code>run.config</code> record"));
    let mut inferred = MissionDataset::new();
    inferred.finish();
    assert!(config_panel(&inferred.run).contains("No <code>run.config</code> record"));
}
