//! What the flags of an agent's command line mean.

use vstd::prelude::*;

use crate::address::socket_address;
use crate::config::{
    blank, concluded, defaults, others, parsed, policy_of, value_flag, CarrierKind, ConfigView,
    DraftView, EndpointView, FeedChoice, IdlePolicyView, OutcomeView, UdpLinkView,
};
use crate::numerals::{number_error, positive_text};
use crate::text::{first_index, lemma_first_index, pieces, split_at_char};

verus! {

// ---------------------------------------------------------------------------
// pieces of a value
// ---------------------------------------------------------------------------

/// A value is split at the first separator, and what stands on either side is
/// kept whole.
pub proof fn values_split_at_the_first_separator(a: Seq<char>, b: Seq<char>, sep: char)
    requires
        !a.contains(sep),
    ensures
        split_at_char(a + seq![sep] + b, sep) == Some((a, b)),
        split_at_char(a, sep) is None,
{
    lemma_first_index(a, sep);
    lemma_split_index(a, b, sep);
    let t = a + seq![sep] + b;
    assert(t.take(a.len() as int) =~= a);
    assert(t.skip(a.len() as int + 1) =~= b);
}

proof fn lemma_split_index(a: Seq<char>, b: Seq<char>, sep: char)
    requires
        !a.contains(sep),
    ensures
        first_index(a + seq![sep] + b, sep) == a.len(),
{
    let t = a + seq![sep] + b;
    lemma_first_index(t, sep);
    assert(t[a.len() as int] == sep);
    assert(t.contains(sep));
    let k = first_index(t, sep);
    if k < a.len() {
        assert(a[k] == t[k]);
        assert(a.contains(sep));
    }
}

/// A list value is its pieces between separators, in order, without the empty
/// ones.
pub proof fn lists_are_their_pieces(a: Seq<char>, b: Seq<char>, sep: char)
    requires
        !a.contains(sep),
    ensures
        pieces(a, sep) == (if a.len() > 0 {
            seq![a]
        } else {
            Seq::empty()
        }),
        pieces(a + seq![sep] + b, sep) == pieces(a, sep) + pieces(b, sep),
{
    lemma_first_index(a, sep);
    assert(a.take(a.len() as int) =~= a);
    lemma_split_index(a, b, sep);
    let t = a + seq![sep] + b;
    assert(t.take(a.len() as int) =~= a);
    assert(t.skip(a.len() as int + 1) =~= b);
}

/// The peers of a vehicle are the ids of its fleet without its own, in their
/// order.
pub proof fn peers_are_the_others(s: Seq<Seq<char>>, x: Seq<char>, y: Seq<char>)
    ensures
        others(Seq::empty(), x).len() == 0,
        others(s.push(x), x) == others(s, x),
        y != x ==> others(s.push(y), x) == others(s, x).push(y),
{
    assert(s.push(x).drop_last() =~= s);
    assert(s.push(y).drop_last() =~= s);
}

// ---------------------------------------------------------------------------
// flags
// ---------------------------------------------------------------------------

/// What a flag that is taken answers.
pub open spec fn taken(c: ConfigView, d: DraftView) -> Option<Result<DraftView, Seq<char>>> {
    Some(Ok(DraftView { config: c, ..d }))
}

/// What a flag that takes a number answers.
pub open spec fn numeric(flag: Seq<char>, v: Seq<char>, c: ConfigView, d: DraftView) -> Option<
    Result<DraftView, Seq<char>>,
> {
    match number_error(v) {
        None => taken(c, d),
        Some(why) => Some(Err(flag + ": bad number '"@ + v + "': "@ + why)),
    }
}

/// What a flag that takes an address answers.
pub open spec fn addressed(flag: Seq<char>, v: Seq<char>, c: ConfigView, d: DraftView) -> Option<
    Result<DraftView, Seq<char>>,
> {
    if socket_address(v) {
        taken(c, d)
    } else {
        Some(
            Err(flag + ": bad socket address '"@ + v + "': invalid socket address syntax"@),
        )
    }
}

proof fn lemma_flags_differ()
    ensures
        "--telemetry-hz"@.len() == 14 && "--telemetry-hz"@[2] == 't' && "--telemetry-hz"@[3] == 'e',
        "--max-range-m"@.len() == 13 && "--max-range-m"@[2] == 'm' && "--max-range-m"@[3] == 'a',
        "--min-agl-m"@.len() == 11 && "--min-agl-m"@[2] == 'm' && "--min-agl-m"@[3] == 'i',
        "--max-agl-m"@.len() == 11 && "--max-agl-m"@[2] == 'm' && "--max-agl-m"@[3] == 'a',
        "--audio-range-m"@.len() == 15 && "--audio-range-m"@[2] == 'a' && "--audio-range-m"@[3] == 'u',
        "--hsep-m"@.len() == 8 && "--hsep-m"@[2] == 'h' && "--hsep-m"@[3] == 's',
        "--vsep-m"@.len() == 8 && "--vsep-m"@[2] == 'v' && "--vsep-m"@[3] == 's',
        "--horizon-s"@.len() == 11 && "--horizon-s"@[2] == 'h' && "--horizon-s"@[3] == 'o',
        "--grace-s"@.len() == 9 && "--grace-s"@[2] == 'g' && "--grace-s"@[3] == 'r',
        "--rtl-base-agl-m"@.len() == 16 && "--rtl-base-agl-m"@[2] == 'r' && "--rtl-base-agl-m"@[3] == 't',
        "--rtl-sep-m"@.len() == 11 && "--rtl-sep-m"@[2] == 'r' && "--rtl-sep-m"@[3] == 't',
        "--floor-agl-m"@.len() == 13 && "--floor-agl-m"@[2] == 'f' && "--floor-agl-m"@[3] == 'l',
        "--vehicle-id"@.len() == 12 && "--vehicle-id"@[2] == 'v' && "--vehicle-id"@[3] == 'e',
        "--fleet-ids"@.len() == 11 && "--fleet-ids"@[2] == 'f' && "--fleet-ids"@[3] == 'l',
        "--extras"@.len() == 8 && "--extras"@[2] == 'e' && "--extras"@[3] == 'x',
        "--run-id"@.len() == 8 && "--run-id"@[2] == 'r' && "--run-id"@[3] == 'u',
        "--log-dir"@.len() == 9 && "--log-dir"@[2] == 'l' && "--log-dir"@[3] == 'o',
        "--ndnsf-listen"@.len() == 14 && "--ndnsf-listen"@[2] == 'n' && "--ndnsf-listen"@[3] == 'd',
        "--ndnsf-peer"@.len() == 12 && "--ndnsf-peer"@[2] == 'n' && "--ndnsf-peer"@[3] == 'd',
        "--spark-udp"@.len() == 11 && "--spark-udp"@[2] == 's' && "--spark-udp"@[3] == 'p',
        "--endpoint"@.len() == 10 && "--endpoint"@[2] == 'e' && "--endpoint"@[3] == 'n',
        "--carrier"@.len() == 9 && "--carrier"@[2] == 'c' && "--carrier"@[3] == 'a',
        "--idle-policy"@.len() == 13 && "--idle-policy"@[2] == 'i' && "--idle-policy"@[3] == 'd',
        "--sensor-feed"@.len() == 13 && "--sensor-feed"@[2] == 's' && "--sensor-feed"@[3] == 'e',
        "--sim-origin"@.len() == 12 && "--sim-origin"@[2] == 's' && "--sim-origin"@[3] == 'i',
        "--peer"@.len() == 6 && "--peer"@[2] == 'p' && "--peer"@[3] == 'e',
        "--forwarder"@.len() == 11 && "--forwarder"@[2] == 'f' && "--forwarder"@[3] == 'o',
        "--link"@.len() == 6 && "--link"@[2] == 'l' && "--link"@[3] == 'i',
        "--help"@.len() == 6 && "--help"@[2] == 'h' && "--help"@[3] == 'e',
        "--journal-chain"@.len() == 15 && "--journal-chain"@[2] == 'j' && "--journal-chain"@[3] == 'o',
{
    reveal_strlit("--telemetry-hz");
    reveal_strlit("--max-range-m");
    reveal_strlit("--min-agl-m");
    reveal_strlit("--max-agl-m");
    reveal_strlit("--audio-range-m");
    reveal_strlit("--hsep-m");
    reveal_strlit("--vsep-m");
    reveal_strlit("--horizon-s");
    reveal_strlit("--grace-s");
    reveal_strlit("--rtl-base-agl-m");
    reveal_strlit("--rtl-sep-m");
    reveal_strlit("--floor-agl-m");
    reveal_strlit("--vehicle-id");
    reveal_strlit("--fleet-ids");
    reveal_strlit("--extras");
    reveal_strlit("--run-id");
    reveal_strlit("--log-dir");
    reveal_strlit("--ndnsf-listen");
    reveal_strlit("--ndnsf-peer");
    reveal_strlit("--spark-udp");
    reveal_strlit("--endpoint");
    reveal_strlit("--carrier");
    reveal_strlit("--idle-policy");
    reveal_strlit("--sensor-feed");
    reveal_strlit("--sim-origin");
    reveal_strlit("--peer");
    reveal_strlit("--forwarder");
    reveal_strlit("--link");
    reveal_strlit("--help");
    reveal_strlit("--journal-chain");
    assert("--telemetry-hz"@.len() == 14 && "--telemetry-hz"@[2] == 't' && "--telemetry-hz"@[3] == 'e');
    assert("--max-range-m"@.len() == 13 && "--max-range-m"@[2] == 'm' && "--max-range-m"@[3] == 'a');
    assert("--min-agl-m"@.len() == 11 && "--min-agl-m"@[2] == 'm' && "--min-agl-m"@[3] == 'i');
    assert("--max-agl-m"@.len() == 11 && "--max-agl-m"@[2] == 'm' && "--max-agl-m"@[3] == 'a');
    assert("--audio-range-m"@.len() == 15 && "--audio-range-m"@[2] == 'a' && "--audio-range-m"@[3] == 'u');
    assert("--hsep-m"@.len() == 8 && "--hsep-m"@[2] == 'h' && "--hsep-m"@[3] == 's');
    assert("--vsep-m"@.len() == 8 && "--vsep-m"@[2] == 'v' && "--vsep-m"@[3] == 's');
    assert("--horizon-s"@.len() == 11 && "--horizon-s"@[2] == 'h' && "--horizon-s"@[3] == 'o');
    assert("--grace-s"@.len() == 9 && "--grace-s"@[2] == 'g' && "--grace-s"@[3] == 'r');
    assert("--rtl-base-agl-m"@.len() == 16 && "--rtl-base-agl-m"@[2] == 'r' && "--rtl-base-agl-m"@[3] == 't');
    assert("--rtl-sep-m"@.len() == 11 && "--rtl-sep-m"@[2] == 'r' && "--rtl-sep-m"@[3] == 't');
    assert("--floor-agl-m"@.len() == 13 && "--floor-agl-m"@[2] == 'f' && "--floor-agl-m"@[3] == 'l');
    assert("--vehicle-id"@.len() == 12 && "--vehicle-id"@[2] == 'v' && "--vehicle-id"@[3] == 'e');
    assert("--fleet-ids"@.len() == 11 && "--fleet-ids"@[2] == 'f' && "--fleet-ids"@[3] == 'l');
    assert("--extras"@.len() == 8 && "--extras"@[2] == 'e' && "--extras"@[3] == 'x');
    assert("--run-id"@.len() == 8 && "--run-id"@[2] == 'r' && "--run-id"@[3] == 'u');
    assert("--log-dir"@.len() == 9 && "--log-dir"@[2] == 'l' && "--log-dir"@[3] == 'o');
    assert("--ndnsf-listen"@.len() == 14 && "--ndnsf-listen"@[2] == 'n' && "--ndnsf-listen"@[3] == 'd');
    assert("--ndnsf-peer"@.len() == 12 && "--ndnsf-peer"@[2] == 'n' && "--ndnsf-peer"@[3] == 'd');
    assert("--spark-udp"@.len() == 11 && "--spark-udp"@[2] == 's' && "--spark-udp"@[3] == 'p');
    assert("--endpoint"@.len() == 10 && "--endpoint"@[2] == 'e' && "--endpoint"@[3] == 'n');
    assert("--carrier"@.len() == 9 && "--carrier"@[2] == 'c' && "--carrier"@[3] == 'a');
    assert("--idle-policy"@.len() == 13 && "--idle-policy"@[2] == 'i' && "--idle-policy"@[3] == 'd');
    assert("--sensor-feed"@.len() == 13 && "--sensor-feed"@[2] == 's' && "--sensor-feed"@[3] == 'e');
    assert("--sim-origin"@.len() == 12 && "--sim-origin"@[2] == 's' && "--sim-origin"@[3] == 'i');
    assert("--peer"@.len() == 6 && "--peer"@[2] == 'p' && "--peer"@[3] == 'e');
    assert("--forwarder"@.len() == 11 && "--forwarder"@[2] == 'f' && "--forwarder"@[3] == 'o');
    assert("--link"@.len() == 6 && "--link"@[2] == 'l' && "--link"@[3] == 'i');
    assert("--help"@.len() == 6 && "--help"@[2] == 'h' && "--help"@[3] == 'e');
    assert("--journal-chain"@.len() == 15 && "--journal-chain"@[2] == 'j' && "--journal-chain"@[3] == 'o');
}

/// Each flag sets its own field and no other: a text as it stands, a list by
/// its pieces, a number and an address if the value is one.
#[verifier::rlimit(60)]
pub proof fn flags_set_their_own_field(v: Seq<char>, d: DraftView)
    ensures
        value_flag("--vehicle-id"@, v, d) == taken(ConfigView { vehicle_id: v, ..d.config }, d),
        value_flag("--fleet-ids"@, v, d) == taken(ConfigView { fleet_ids: pieces(v, ','), ..d.config }, d),
        value_flag("--extras"@, v, d) == taken(ConfigView { extras: pieces(v, ','), ..d.config }, d),
        value_flag("--run-id"@, v, d) == taken(ConfigView { run_id: Some(v), ..d.config }, d),
        value_flag("--log-dir"@, v, d) == taken(ConfigView { log_dir: Some(v), ..d.config }, d),
        value_flag("--telemetry-hz"@, v, d) == numeric("--telemetry-hz"@, v, ConfigView { telemetry_hz: v, ..d.config }, d),
        value_flag("--max-range-m"@, v, d) == numeric("--max-range-m"@, v, ConfigView { max_range_m: v, ..d.config }, d),
        value_flag("--min-agl-m"@, v, d) == numeric("--min-agl-m"@, v, ConfigView { min_agl_m: v, ..d.config }, d),
        value_flag("--max-agl-m"@, v, d) == numeric("--max-agl-m"@, v, ConfigView { max_agl_m: v, ..d.config }, d),
        value_flag("--audio-range-m"@, v, d) == numeric("--audio-range-m"@, v, ConfigView { audio_range_m: v, ..d.config }, d),
        value_flag("--hsep-m"@, v, d) == numeric("--hsep-m"@, v, ConfigView { hsep_m: v, ..d.config }, d),
        value_flag("--vsep-m"@, v, d) == numeric("--vsep-m"@, v, ConfigView { vsep_m: v, ..d.config }, d),
        value_flag("--horizon-s"@, v, d) == numeric("--horizon-s"@, v, ConfigView { horizon_s: v, ..d.config }, d),
        value_flag("--grace-s"@, v, d) == numeric("--grace-s"@, v, ConfigView { grace_s: v, ..d.config }, d),
        value_flag("--rtl-base-agl-m"@, v, d) == numeric("--rtl-base-agl-m"@, v, ConfigView { rtl_base_agl_m: v, ..d.config }, d),
        value_flag("--rtl-sep-m"@, v, d) == numeric("--rtl-sep-m"@, v, ConfigView { rtl_sep_m: v, ..d.config }, d),
        value_flag("--floor-agl-m"@, v, d) == numeric("--floor-agl-m"@, v, ConfigView { floor_agl_m: Some(v), ..d.config }, d),
        value_flag("--ndnsf-listen"@, v, d) == addressed("--ndnsf-listen"@, v, ConfigView { ndnsf_listen: Some(v), ..d.config }, d),
        value_flag("--ndnsf-peer"@, v, d) == addressed("--ndnsf-peer"@, v, ConfigView { ndnsf_peers: d.config.ndnsf_peers.push(v), ..d.config }, d),
        value_flag("--spark-udp"@, v, d) == addressed("--spark-udp"@, v, ConfigView { spark_udp: Some(v), ..d.config }, d),
{
    lemma_flags_differ();
}

/// A flag that names one of a few words takes those and no other.
#[verifier::rlimit(60)]
pub proof fn choices_take_their_words(v: Seq<char>, d: DraftView, rest: Seq<char>)
    requires
        rest.len() > 0,
    ensures
        value_flag("--endpoint"@, "sim"@, d) == taken(
            ConfigView {
                endpoint: EndpointView::Sim { lat_deg: "35.0"@, lon_deg: "-90.0"@ },
                ..d.config
            },
            d,
        ),
        value_flag("--endpoint"@, "mavlink:"@ + rest, d) == taken(
            ConfigView { endpoint: EndpointView::Mavlink(rest), ..d.config },
            d,
        ),
        v != "sim"@ && !"mavlink:"@.is_prefix_of(v) || v == "mavlink:"@ ==> value_flag(
            "--endpoint"@,
            v,
            d,
        ) == Some(
            Err::<DraftView, Seq<char>>(
                "--endpoint: expected 'sim' or 'mavlink:<endpoint>', got '"@ + v + "'"@,
            ),
        ),
        value_flag("--carrier"@, "rpc"@, d) == taken(
            ConfigView { carrier: CarrierKind::Rpc, ..d.config },
            d,
        ),
        value_flag("--carrier"@, "ndnsf"@, d) == taken(
            ConfigView { carrier: CarrierKind::Ndnsf, ..d.config },
            d,
        ),
        v != "rpc"@ && v != "ndnsf"@ ==> value_flag("--carrier"@, v, d) == Some(
            Err::<DraftView, Seq<char>>("--carrier: expected rpc|ndnsf, got '"@ + v + "'"@),
        ),
        value_flag("--sensor-feed"@, "none"@, d) == taken(
            ConfigView { sensor_feed: FeedChoice::Absent, ..d.config },
            d,
        ),
        value_flag("--sensor-feed"@, "synthetic"@, d) == taken(
            ConfigView { sensor_feed: FeedChoice::Synthetic, ..d.config },
            d,
        ),
        v != "none"@ && v != "synthetic"@ ==> value_flag("--sensor-feed"@, v, d) == Some(
            Err::<DraftView, Seq<char>>("--sensor-feed: expected none|synthetic, got '"@ + v + "'"@),
        ),
        value_flag("--idle-policy"@, v, d) == (match policy_of(v) {
            Ok(p) => taken(ConfigView { idle_policy: p, ..d.config }, d),
            Err(e) => Some(Err(e)),
        }),
{
    lemma_flags_differ();
    reveal_strlit("sim");
    reveal_strlit("mavlink:");
    reveal_strlit("rpc");
    reveal_strlit("ndnsf");
    reveal_strlit("none");
    reveal_strlit("synthetic");
    assert("rpc"@.len() == 3 && "ndnsf"@.len() == 5 && "none"@.len() == 4 && "synthetic"@.len()
        == 9 && "sim"@.len() == 3 && "mavlink:"@.len() == 8);
    let m = "mavlink:"@ + rest;
    assert(m.skip(8) =~= rest);
    assert("mavlink:"@.is_prefix_of(m)) by {
        assert(m.subrange(0, 8) =~= "mavlink:"@);
    }
    assert("mavlink:"@.is_prefix_of("mavlink:"@)) by {
        assert("mavlink:"@.subrange(0, 8) =~= "mavlink:"@);
    }
}

/// What the idle policies are: holding, holding the slot, and returning after
/// a number of seconds above zero.
pub proof fn idle_policies_are_three(v: Seq<char>, seconds: Seq<char>)
    ensures
        policy_of("hold"@) == Ok::<IdlePolicyView, Seq<char>>(IdlePolicyView::Hold),
        policy_of("slot-hold"@) == Ok::<IdlePolicyView, Seq<char>>(IdlePolicyView::SlotHold),
        policy_of("rtl-after:"@ + seconds) == (if positive_text(seconds) {
            Ok::<IdlePolicyView, Seq<char>>(IdlePolicyView::RtlAfter(seconds))
        } else {
            Err("--idle-policy: bad rtl-after seconds '"@ + seconds + "'"@)
        }),
        v != "hold"@ && v != "slot-hold"@ && !"rtl-after:"@.is_prefix_of(v) ==> policy_of(v)
            == Err::<IdlePolicyView, Seq<char>>(
            "--idle-policy: expected hold|rtl-after:<s>|slot-hold, got '"@ + v + "'"@,
        ),
{
    reveal_strlit("hold");
    reveal_strlit("slot-hold");
    reveal_strlit("rtl-after:");
    assert("hold"@.len() == 4 && "slot-hold"@.len() == 9 && "rtl-after:"@.len() == 10);
    let t = "rtl-after:"@ + seconds;
    assert(t.subrange(0, 10) =~= "rtl-after:"@);
    assert("rtl-after:"@.is_prefix_of(t));
    assert(t.skip(10) =~= seconds);
    assert(t.len() >= 10);
}

/// What a flag for a face adds: the two addresses, with the route of the peer
/// it names, of the whole fleet, or none.
#[verifier::rlimit(60)]
pub proof fn faces_have_their_addresses_and_route(
    id: Seq<char>,
    local: Seq<char>,
    remote: Seq<char>,
    d: DraftView,
)
    requires
        !id.contains('='),
        !local.contains(','),
        socket_address(local),
        socket_address(remote),
    ensures
        value_flag("--link"@, local + seq![','] + remote, d) == faced(local, remote, None, d),
        value_flag("--forwarder"@, local + seq![','] + remote, d) == faced(
            local,
            remote,
            Some("/muas/v3"@),
            d,
        ),
        value_flag("--peer"@, id + seq!['='] + (local + seq![','] + remote), d) == faced(
            local,
            remote,
            Some("/muas/v3"@ + "/"@ + id),
            d,
        ),
{
    lemma_flags_differ();
    values_split_at_the_first_separator(local, remote, ',');
    values_split_at_the_first_separator(id, local + seq![','] + remote, '=');
}

/// What a flag that adds a face answers.
pub open spec fn faced(
    local: Seq<char>,
    remote: Seq<char>,
    route: Option<Seq<char>>,
    d: DraftView,
) -> Option<Result<DraftView, Seq<char>>> {
    taken(
        ConfigView {
            links: d.config.links.push(UdpLinkView { local, remote, route }),
            ..d.config
        },
        d,
    )
}

/// A bench position is two numbers with a comma between.
#[verifier::rlimit(60)]
pub proof fn bench_positions_are_two_numbers(lat: Seq<char>, lon: Seq<char>, d: DraftView)
    requires
        !lat.contains(','),
    ensures
        number_error(lat) is None && number_error(lon) is None ==> value_flag(
            "--sim-origin"@,
            lat + seq![','] + lon,
            d,
        ) == Some(Ok::<DraftView, Seq<char>>(DraftView { sim_origin: Some((lat, lon)), ..d })),
        number_error(lat) is Some || number_error(lon) is Some ==> value_flag(
            "--sim-origin"@,
            lat + seq![','] + lon,
            d,
        ) matches Some(Err(_)),
{
    lemma_flags_differ();
    values_split_at_the_first_separator(lat, lon, ',');
}

// ---------------------------------------------------------------------------
// command lines
// ---------------------------------------------------------------------------

/// A command line is read from the left: a flag with its value does what that
/// flag does, and the rest is read after it; the journal switch stands alone.
pub proof fn command_lines_are_read_from_the_left(args: Seq<Seq<char>>, i: int, d: DraftView)
    requires
        0 <= i < args.len(),
    ensures
        ({
            let help = args[i] == "--help"@ || args[i] == "-h"@;
            let switch = args[i] == "--journal-chain"@;
            let known = value_flag(args[i], Seq::empty(), d) is Some;
            &&& help ==> parsed(args, i, d) == Ok::<OutcomeView, Seq<char>>(OutcomeView::Help)
            &&& !help && switch ==> parsed(args, i, d) == parsed(
                args,
                i + 1,
                DraftView { config: ConfigView { journal_chain: true, ..d.config }, ..d },
            )
            &&& !help && !switch && !known ==> parsed(args, i, d) == Err::<
                OutcomeView,
                Seq<char>,
            >("unknown flag '"@ + args[i] + "' (see --help)"@)
            &&& !help && !switch && known && i + 1 == args.len() ==> parsed(args, i, d) == Err::<
                OutcomeView,
                Seq<char>,
            >(args[i] + ": missing value"@)
            &&& !help && !switch && known && i + 1 < args.len() ==> match value_flag(
                args[i],
                args[i + 1],
                d,
            ) {
                Some(Ok(next)) => parsed(args, i, d) == parsed(args, i + 2, next),
                Some(Err(e)) => parsed(args, i, d) == Err::<OutcomeView, Seq<char>>(e),
                None => false,
            }
        }),
{
    crate::config::flags_are_known_by_name(args[i], Seq::empty(), Seq::empty(), d, blank());
    if i + 1 < args.len() {
        crate::config::flags_are_known_by_name(args[i], Seq::empty(), args[i + 1], d, d);
    }
}

/// What is checked at the end of a command line: a vehicle id, and an address
/// to listen on for a group carrier. A bench position moves the bench vehicle
/// and no other.
pub proof fn command_lines_are_checked_at_their_end(args: Seq<Seq<char>>, i: int, d: DraftView)
    requires
        i >= args.len(),
    ensures
        ({
            let c = d.config;
            let r = parsed(args, i, d);
            let nameless = c.vehicle_id.len() == 0;
            let deaf = c.carrier == CarrierKind::Ndnsf && c.ndnsf_listen is None;
            &&& r == concluded(d)
            &&& r is Ok <==> !nameless && !deaf
            &&& nameless ==> r == Err::<OutcomeView, Seq<char>>(
                "--vehicle-id is required (see --help)"@,
            )
            &&& !nameless && deaf ==> r == Err::<OutcomeView, Seq<char>>(
                "--carrier ndnsf requires --ndnsf-listen (see --help)"@,
            )
            &&& r is Ok && (c.endpoint is Mavlink || d.sim_origin is None) ==> r->Ok_0
                == OutcomeView::Run(c)
            &&& r is Ok && c.endpoint is Sim ==> (d.sim_origin matches Some((lat_deg, lon_deg))
                ==> r->Ok_0 == OutcomeView::Run(
                ConfigView { endpoint: EndpointView::Sim { lat_deg, lon_deg }, ..c },
            ))
        }),
{
}

/// What an agent is configured with when the command line is silent.
pub proof fn defaults_are_the_documented_ones()
    ensures
        ({
            let c = defaults();
            &&& blank() == (DraftView { config: c, sim_origin: None })
            &&& c.vehicle_id.len() == 0 && c.fleet_ids.len() == 0 && c.extras.len() == 0
            &&& c.endpoint == (EndpointView::Sim { lat_deg: "35.0"@, lon_deg: "-90.0"@ })
            &&& c.run_id is None && c.carrier == CarrierKind::Rpc && c.links.len() == 0
            &&& c.telemetry_hz == "4.0"@ && c.max_range_m == "300.0"@
            &&& c.min_agl_m == "3.5"@ && c.max_agl_m == "20.0"@ && c.audio_range_m == "30.0"@
            &&& c.hsep_m == "8.0"@ && c.vsep_m == "4.0"@
            &&& c.horizon_s == "20.0"@ && c.grace_s == "2.5"@
            &&& c.rtl_base_agl_m == "8.0"@ && c.rtl_sep_m == "3.0"@ && c.floor_agl_m is None
            &&& c.idle_policy is Hold && c.log_dir is None && !c.journal_chain
            &&& c.sensor_feed == FeedChoice::Absent && c.spark_udp is None
            &&& c.ndnsf_listen is None && c.ndnsf_peers.len() == 0
        }),
{
}

} // verus!
