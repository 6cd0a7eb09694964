use minimuas::address::is_socket_address;
use minimuas::artifact_args;
use minimuas::config::{
    fleet_floor, parse_args, AgentConfig, CarrierKind, Endpoint, FeedChoice, IdlePolicy,
    ParseOutcome, HELP,
};
use minimuas::numerals::{is_number, is_positive};
use minimuas::quantity::Real;

fn args(list: &[&str]) -> Vec<String> {
    list.iter().map(|s| s.to_string()).collect()
}

fn run(list: &[&str]) -> AgentConfig {
    match parse_args(&args(list)).unwrap() {
        ParseOutcome::Run(config) => *config,
        ParseOutcome::Help => panic!("expected Run"),
    }
}

fn number(text: &str) -> f64 {
    text.parse().unwrap()
}

#[test]
fn help_short_circuits() {
    assert!(matches!(parse_args(&args(&["--help"])).unwrap(), ParseOutcome::Help));
    assert!(HELP.contains("--vehicle-id"));
}

#[test]
fn vehicle_id_is_required() {
    assert!(parse_args(&args(&["--telemetry-hz", "2"])).is_err());
}

#[test]
fn full_flag_set_parses() {
    let config = run(&[
        "--vehicle-id",
        "iuas-01",
        "--fleet-ids",
        "iuas-01,wuas-01",
        "--endpoint",
        "mavlink:udpin:0.0.0.0:14550",
        "--telemetry-hz",
        "2",
        "--carrier",
        "rpc",
        "--peer",
        "wuas-01=127.0.0.1:47001,127.0.0.1:47101",
        "--link",
        "127.0.0.1:47002,127.0.0.1:47201",
        "--max-range-m",
        "250",
        "--min-agl-m",
        "3.5",
        "--max-agl-m",
        "18",
        "--grace-s",
        "3.0",
        "--rtl-base-agl-m",
        "10",
        "--log-dir",
        "/tmp/muas-log",
        "--journal-chain",
        "--spark-udp",
        "127.0.0.1:48000",
    ]);
    assert_eq!(config.vehicle_id, "iuas-01");
    assert_eq!(config.peer_ids(), vec!["wuas-01".to_string()]);
    assert!(config.smart_rtl_available());
    assert!(matches!(&config.endpoint, Endpoint::Mavlink(ep) if ep == "udpin:0.0.0.0:14550"));
    assert_eq!(config.links.len(), 2);
    assert_eq!(
        config.links[0].route.as_deref(),
        Some("/muas/v3/wuas-01"),
        "--peer routes the peer's vehicle prefix"
    );
    assert_eq!(config.links[1].route, None, "--link is inbound-only");
    assert_eq!(number(&config.max_range_m), 250.0);
    assert_eq!(number(&config.max_agl_m), 18.0);
    assert_eq!(number(&config.grace_s), 3.0);
    // No explicit floor: it is the larger of the window's floor and 3.5 m.
    assert_eq!(config.floor_agl_m, None);
    assert_eq!(number(&config.min_agl_m).max(3.5), 3.5);
    assert!(config.journal_chain);
    assert!(config.spark_udp.is_some());
}

#[test]
fn sim_origin_applies_to_sim_endpoint() {
    let config = run(&["--vehicle-id", "wuas-01", "--sim-origin", "35.5,-90.25"]);
    match &config.endpoint {
        Endpoint::Sim { lat_deg, lon_deg } => {
            assert_eq!(number(lat_deg), 35.5);
            assert_eq!(number(lon_deg), -90.25);
        }
        other => panic!("wrong endpoint: {other:?}"),
    }
}

#[test]
fn idle_policy_parses_all_three_shapes() {
    assert!(matches!(IdlePolicy::parse("hold"), Ok(IdlePolicy::Hold)));
    assert!(matches!(IdlePolicy::parse("slot-hold"), Ok(IdlePolicy::SlotHold)));
    match IdlePolicy::parse("rtl-after:45") {
        Ok(IdlePolicy::RtlAfter(s)) => assert_eq!(number(&s), 45.0),
        other => panic!("wrong policy: {other:?}"),
    }
    assert!(IdlePolicy::parse("rtl-after:0").is_err());
    assert!(IdlePolicy::parse("rtl-after:soon").is_err());
    assert!(IdlePolicy::parse("wander").is_err());

    let config = run(&["--vehicle-id", "iuas-01", "--idle-policy", "rtl-after:30"]);
    match &config.idle_policy {
        IdlePolicy::RtlAfter(s) => assert_eq!(number(s), 30.0),
        other => panic!("wrong policy: {other:?}"),
    }
    assert!(matches!(AgentConfig::default().idle_policy, IdlePolicy::Hold));
}

#[test]
fn ndnsf_carrier_requires_listen_addr() {
    let err = parse_args(&args(&["--vehicle-id", "a", "--carrier", "ndnsf"])).unwrap_err();
    assert!(err.contains("--ndnsf-listen"), "{err}");
}

#[test]
fn bad_addresses_are_refused_in_the_order_they_are_read() {
    let err = |list: &[&str]| {
        let mut all = vec!["--vehicle-id", "a"];
        all.extend(list);
        parse_args(&args(&all)).unwrap_err()
    };
    assert_eq!(
        err(&["--link", "127.0.0.1:1,nowhere", "--spark-udp", "x"]),
        "--link: bad socket address 'nowhere': invalid socket address syntax"
    );
    assert_eq!(
        err(&["--forwarder", "a,b"]),
        "--forwarder: bad socket address 'a': invalid socket address syntax"
    );
    assert_eq!(
        err(&["--peer", "wuas-01=127.0.0.1:1,127.0.0.1:70000"]),
        "--peer: bad socket address '127.0.0.1:70000': invalid socket address syntax"
    );
    for flag in ["--ndnsf-listen", "--ndnsf-peer", "--spark-udp"] {
        assert_eq!(
            err(&[flag, "localhost:80"]),
            format!("{flag}: bad socket address 'localhost:80': invalid socket address syntax")
        );
    }
    // The first thing wrong with the line is what is said of it.
    assert_eq!(err(&["--spark-udp", "x", "--wander"]).split(':').next(), Some("--spark-udp"));
    assert!(err(&["--wander", "--spark-udp", "x"]).contains("--wander"));
    let config = run(&["--vehicle-id", "a", "--link", "[::1]:1,127.0.0.1:2", "--spark-udp", "1.2.3.4:5"]);
    assert_eq!((config.links[0].local.as_str(), config.links[0].remote.as_str()), ("[::1]:1", "127.0.0.1:2"));
    assert_eq!(config.spark_udp.as_deref(), Some("1.2.3.4:5"));
}

#[test]
fn socket_addresses_are_known_by_their_form() {
    for good in [
        "127.0.0.1:80", "0.0.0.0:0", "255.255.255.255:65535", "1.2.3.4:00080", "[::]:0", "[::1]:80",
        "[1::]:80", "[1:2:3:4:5:6:7:8]:9", "[1:2:3:4:5:6:7::]:9", "[::2:3:4:5:6:7:8]:9",
        "[fe80::Ab:1%3]:9", "[fe80::1%4294967295]:9", "[::ffff:1.2.3.4]:5", "[::1.2.3.4]:5",
        "[1:2:3:4:5:6:1.2.3.4]:5", "[1:2:3:4:5::1.2.3.4]:5", "[2001:db8::]:65535", "[1::8]:1",
    ] {
        assert!(is_socket_address(good), "{good}");
    }
    for bad in [
        "", ":", "80", "127.0.0.1", "127.0.0.1:", ":80", "127.0.0.1:65536", "127.0.0.1:-1",
        "127.0.0.1:+1", " 127.0.0.1:80", "127.0.0.1:80 ", "127.0.0:80", "127.0.0.0.1:80",
        "256.0.0.1:80", "01.2.3.4:80", "1.2.3.00:80", "0001.2.3.4:80", "1..3.4:80", "a.b.c.d:80",
        "localhost:80", "1.2.3.4:80:90", "[::1]", "[::1]80", "[::1]:", "::1:80", "[]:80", "[:]:80",
        "[:::]:80", "[1:::2]:80", "[1::2::3]:80", "[12345::]:80", "[g::]:80", "[1:2:3:4:5:6:7]:80",
        "[1:2:3:4:5:6:7:8:9]:80", "[1:2:3:4:5:6:7:8::]:80", "[::1:2:3:4:5:6:7:8]:80",
        "[1:2:3:4:5:6::1.2.3.4]:80", "[1.2.3.4::]:80", "[::1.2.3.4:5]:80", "[1:2:3:4:5:6:7:1.2.3.4]:80",
        "[::1%]:80", "[::1%eth0]:80", "[::1%4294967296]:80", "[::1%1%2]:80", "[1.2.3.4]:80",
        "[::1]:80]", "[[::1]:80", "[:1]:80", "[1:]:80", "[::1:]:80", "1.2.3.4:\u{661}",
    ] {
        assert!(!is_socket_address(bad), "{bad}");
    }
}

#[test]
fn defaults_are_the_bench_rails() {
    let config = run(&["--vehicle-id", "a"]);
    assert_eq!(number(&config.max_range_m), 300.0);
    assert_eq!(number(&config.min_agl_m), 3.5);
    assert_eq!(number(&config.max_agl_m), 20.0);
    assert_eq!(config.carrier, CarrierKind::Rpc);
    assert_eq!(config.sensor_feed, FeedChoice::Absent);
    assert!(!config.smart_rtl_available());
    assert!(config.peer_ids().is_empty());
}

#[test]
fn refusals_name_the_flag() {
    let err = parse_args(&args(&["--vehicle-id"])).unwrap_err();
    assert!(err.contains("--vehicle-id"), "{err}");
    let err = parse_args(&args(&["--vehicle-id", "a", "--telemetry-hz", "fast"])).unwrap_err();
    assert!(err.contains("telemetry-hz"), "{err}");
    let err = parse_args(&args(&["--vehicle-id", "a", "--wander"])).unwrap_err();
    assert!(err.contains("--wander"), "{err}");
}

#[test]
fn number_texts_are_those_that_doubles_parse_from() {
    for text in [
        "0", "-1", "+2.5", ".5", "5.", "1e3", "1E-3", "inf", "-Infinity", "NaN", "1.5e+10", "", "-",
        ".", "e5", "1e", "1 ", " 1", "0x10", "1_000", "infin", "nanx", "1.2.3", "+-1",
    ] {
        assert_eq!(is_number(text), text.parse::<f64>().is_ok(), "{text:?}");
    }
    assert!(is_positive("0.5"));
    assert!(!is_positive("0"));
    assert!(!is_positive("-3"));
    assert!(!is_positive("soon"));
}

#[test]
fn numerals_that_round_to_zero_are_not_positive() {
    // Two to the minus 1075 exactly: half way between zero and the next double.
    let mut half = vec![1u8];
    for _ in 0..1075 {
        let mut carry = 0;
        for d in half.iter_mut() {
            let t = *d * 5 + carry;
            *d = t % 10;
            carry = t / 10;
        }
        if carry > 0 {
            half.push(carry);
        }
    }
    let digits: String = half.iter().rev().map(|d| char::from(b'0' + d)).collect();
    let (tie, above) = (format!("{digits}e-1075"), format!("{digits}1e-1076"));
    let plain = format!("0.{}{digits}1", "0".repeat(1075 - digits.len()));
    for text in [
        "1e-400", "1e-323", "5e-324", "2.5e-324", "2.4e-324", "2.4703282292062327e-324",
        "2.4703282292062328e-324", "0.0001e-319", "0.00001e-319", "0e5", "000.000e99", "1e-0", "1e+5",
        "00.1", "1e-99999999999999999999999999999999999999", "1e99999999999999999999999999999999999",
        "7", "123456789e-332", "123456789e-333", &tie, &above, &plain,
    ] {
        assert_eq!(is_positive(text), text.parse::<f64>().unwrap() > 0.0, "{text}");
    }
    assert!(IdlePolicy::parse("rtl-after:1e-400").is_err());
    assert!(!is_positive(&tie) && is_positive(&above) && is_positive(&plain));
}

#[test]
fn fleet_floors_default_to_the_commandable_floor() {
    let bits = |x: f64| Real { bits: x.to_bits() };
    assert_eq!(fleet_floor(None, bits(5.0)), bits(5.0));
    assert_eq!(fleet_floor(None, bits(0.5)), bits(3.5));
    assert_eq!(fleet_floor(Some(bits(2.0)), bits(5.0)), bits(2.0));
    let config = run(&["--vehicle-id", "iuas-01", "--min-agl-m", "5"]);
    assert_eq!((config.min_agl_m.as_str(), config.floor_agl_m.as_deref()), ("5", None));
}

#[test]
fn artifact_arguments_name_exactly_one_source() {
    let ok = artifact_args::parse_args(&args(&["--from-journal", "j", "--audit"])).unwrap().unwrap();
    assert_eq!(ok.from_journal.as_deref(), Some("j"));
    assert_eq!(ok.out, "./artifacts");
    assert!(ok.audit);
    assert_eq!(
        artifact_args::intents_of(&ok),
        ["artifact.report", "artifact.deck", "artifact.demo"]
    );
    let runs = artifact_args::parse_args(&args(&["--runs", "a", "--runs", "b", "--out", "o"]))
        .unwrap()
        .unwrap();
    assert_eq!(runs.runs, ["a", "b"]);
    assert_eq!(runs.out, "o");
    assert_eq!(artifact_args::intents_of(&runs), ["artifact.compare"]);
    assert!(artifact_args::parse_args(&args(&["--audit", "-h"])).unwrap().is_none());
    assert_eq!(
        artifact_args::parse_args(&args(&[])).unwrap_err(),
        "exactly one of --bootstrap, --from-journal, --runs required (see --help)"
    );
    assert_eq!(
        artifact_args::parse_args(&args(&["--bootstrap", "b", "--from-journal", "j"])).unwrap_err(),
        "exactly one of --bootstrap, --from-journal, --runs required (see --help)"
    );
    assert_eq!(
        artifact_args::parse_args(&args(&["--runs", "a"])).unwrap_err(),
        "--runs needs at least two run directories (one run? use --from-journal)"
    );
    assert_eq!(
        artifact_args::parse_args(&args(&["--runs"])).unwrap_err(),
        "--runs: missing value"
    );
    assert_eq!(
        artifact_args::parse_args(&args(&["--wander"])).unwrap_err(),
        "unknown flag '--wander' (see --help)"
    );
    assert!(artifact_args::HELP.starts_with("muas-artifacts — NDF artifact lenses"));
}
