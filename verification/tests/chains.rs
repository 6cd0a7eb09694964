use minimuas::audit::{all_verified, audit, shared_hashes, RefetchedBlock};
use minimuas::blocks::{BlockRef, Citation};
use minimuas::chains::{
    chain_spec, cut_batches, identity_seed, offline_seed, sniff_source, Bootstrap, ChainCfg,
    ChainRole, Drain, IdentitySpec, Round,
};
use minimuas::render::RenderedArtifact;
use minimuas::text_map::TextMap;

fn cfg(role: &str, key: &str) -> ChainCfg {
    ChainCfg {
        role: role.into(),
        root: "/root".into(),
        writer: "/writer".into(),
        writer_key_hex: key.into(),
    }
}

#[test]
fn chain_configurations_name_a_role_and_a_key() {
    let key = "0f".repeat(32);
    let (role, addr) = chain_spec(&cfg("vehicle-journal", &key)).unwrap();
    assert_eq!(role, ChainRole::VehicleJournal);
    assert_eq!((addr.root.as_str(), addr.writer.as_str()), ("/root", "/writer"));
    assert_eq!(addr.writer_key, [0x0f; 32]);
    let (role, _) = chain_spec(&cfg("dashboard-recording", &key)).unwrap();
    assert_eq!(role, ChainRole::DashboardRecording);
    assert_eq!(
        chain_spec(&cfg("radio", &key)).unwrap_err(),
        "chain role 'radio': expected vehicle-journal|dashboard-recording"
    );
    assert_eq!(
        chain_spec(&cfg("vehicle-journal", "0f")).unwrap_err(),
        "chain /root: writer_key_hex: expected 64 hex chars, got 2"
    );
    let identity = IdentitySpec {
        principal: "/muas/v3/gcs".into(),
        device: "artifacts".into(),
        key_seed_hex: "zz".repeat(32),
    };
    assert_eq!(identity_seed(&identity).unwrap_err(), "identity.key_seed_hex: bad hex digit");
    let b = Bootstrap::with_defaults(identity, vec![], vec![], None, Some(7), None, None);
    assert_eq!((b.settle_ms, b.max_rounds, b.quiet_rounds, b.step_timeout_ms), (300, 7, 3, 1_000));
}

#[test]
fn batches_follow_the_windows() {
    let line = |t: u64, s: &str| (t, s.to_string());
    let cut = cut_batches(&vec![
        line(0, "a"),
        line(1_999_999_999, "b"),
        line(2_000_000_000, "c"),
        line(7_000_000_000, "d"),
        line(1, "e"),
    ]);
    assert_eq!(cut, ["a\nb\n", "c\n", "d\n", "e\n"]);
    assert!(cut_batches(&vec![]).is_empty());
    // Nothing is lost.
    assert_eq!(cut.concat(), "a\nb\nc\nd\ne\n");
}

#[test]
fn source_files_are_told_by_their_lines() {
    let text = "{\"x\":1}\n\n{\"kind\":\"k\",\"ts_ns\":5}\r\n{\"kind\":\"k\",\"ts_ns\":6,\"vehicle_id\":\"iuas-01\"}\n{\"torn\n";
    let f = sniff_source(text, Some("file name")).unwrap();
    assert_eq!(f.role, ChainRole::VehicleJournal);
    assert_eq!((f.principal.as_str(), f.device.as_str(), f.app.as_str()), ("/muas/v3/iuas-01", "companion", "journal"));
    assert_eq!(f.lines.len(), 2);
    assert_eq!(f.lines[0], (5, "{\"kind\":\"k\",\"ts_ns\":5}".to_string()));

    let unnamed = sniff_source("{\"kind\":\"k\",\"ts_ns\":5}", Some("my file_1")).unwrap();
    assert_eq!(unnamed.principal, "/muas/v3/my-file-1");

    let rec = sniff_source("{\"t_ns\":3,\"event\":{}}", Some("dash.2")).unwrap();
    assert_eq!(rec.role, ChainRole::DashboardRecording);
    assert_eq!((rec.principal.as_str(), rec.device.as_str(), rec.app.as_str()), ("/muas/v3/gcs", "dash-2", "recording"));
    assert_eq!(sniff_source("{\"t_ns\":3,\"event\":{}}", None).unwrap().device, "source");
    assert!(sniff_source("nothing here", Some("x")).is_none());
    assert_eq!(
        offline_seed("/muas/v3/iuas-01", "companion"),
        "muas-artifacts/offline-writer:/muas/v3/iuas-01/companion"
    );
}

#[test]
fn chains_are_drained_until_they_fall_silent() {
    let (max, quiet) = (10, 2);
    let mut d = Drain::new();
    d.step(Round::Silence, max);
    d.step(Round::Silence, max);
    d.step(Round::Silence, max);
    assert!(d.goes_on(max, quiet), "silence before anything came does not end it");
    d.step(Round::Update(4), max);
    d.step(Round::Silence, max);
    assert!(d.goes_on(max, quiet));
    d.step(Round::Silence, max);
    assert!(!d.goes_on(max, quiet));
    assert_eq!(d.fetched, 4);
    let mut budget = Drain::new();
    while budget.goes_on(3, quiet) {
        budget.step(Round::Silence, 3);
    }
    assert_eq!(budget.rounds, 3);
}

fn artifact(cites: &[(u8, u64)]) -> RenderedArtifact {
    let citations: Vec<Citation> = cites
        .iter()
        .map(|(b, seq)| BlockRef { hash: [*b; 32], chain: "/c".into(), seq: *seq }.citation())
        .collect();
    RenderedArtifact { html: String::new(), citations }
}

fn fetched(b: u8, seq: u64) -> RefetchedBlock {
    let c = BlockRef { hash: [b; 32], chain: "/c".into(), seq }.citation();
    RefetchedBlock { chain: c.chain, seq, stored: c.hash.clone(), rehashed: c.hash }
}

#[test]
fn audits_verify_every_citation() {
    let mut arts: TextMap<RenderedArtifact> = TextMap::new();
    arts.insert("report.html".into(), artifact(&[(1, 0), (2, 1)]));
    arts.insert("deck.html".into(), artifact(&[(1, 0)]));
    let report = audit(&vec![fetched(1, 0), fetched(2, 1)], &arts);
    assert!(all_verified(&report));
    assert_eq!(report.blocks_fetched, 2);
    assert_eq!(shared_hashes(&report), ["01".repeat(32)]);
    assert_eq!(report.shared[0].artifacts, ["deck.html", "report.html"]);
    assert_eq!(report.artifacts[0].name, "deck.html");
    assert_eq!(report.artifacts[1].citations.len(), 2);
}

#[test]
fn audits_fail_on_what_was_changed_or_lost() {
    let mut arts: TextMap<RenderedArtifact> = TextMap::new();
    arts.insert("report.html".into(), artifact(&[(1, 0)]));
    let lost = audit(&vec![], &arts);
    assert!(!all_verified(&lost));
    assert_eq!(lost.artifacts[0].citations[0].rehashed, None);
    let moved = audit(&vec![fetched(1, 5)], &arts);
    assert!(!all_verified(&moved));
    let mut tampered = fetched(1, 0);
    tampered.rehashed = "ff".repeat(32);
    let report = audit(&vec![tampered], &arts);
    assert!(!all_verified(&report));
    assert_eq!(report.artifacts[0].citations[0].rehashed.as_deref(), Some("ff".repeat(32).as_str()));
    // The last fetch of a hash counts.
    let report = audit(&vec![fetched(1, 5), fetched(1, 0)], &arts);
    assert!(all_verified(&report));
}

#[test]
fn only_hashes_of_several_artifacts_are_shared() {
    let mut arts: TextMap<RenderedArtifact> = TextMap::new();
    // One artifact cites a hash under two positions: that shares nothing.
    arts.insert("deck.html".into(), artifact(&[(1, 0), (1, 9), (2, 1)]));
    arts.insert("demo.html".into(), artifact(&[(3, 0)]));
    arts.insert("report.html".into(), artifact(&[(2, 1), (2, 5)]));
    let report = audit(&vec![], &arts);
    assert_eq!(shared_hashes(&report), ["02".repeat(32)]);
    assert_eq!(report.shared[0].artifacts, ["deck.html", "report.html"], "each named once");
}
