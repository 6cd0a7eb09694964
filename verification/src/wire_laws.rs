//! What stands on the wire: the names of things, the anomalies and the sensor
//! profiles that are read, socket addresses, and the lenses with their files.

use vstd::prelude::*;

use crate::address::{fields, group, ipv4, ipv6, octet, port, scoped, socket_address};
use crate::anomaly::{read_anomaly, understood};
use crate::artifact_args::{parsed, scan, ArgsView, Scan};
use crate::bringup::{fetch_target, planned, refused, stream_names, unique, BringUp, FetchView};
use crate::config::{CarrierKind, ConfigView};
use crate::json::{count_of, field, figure_of, is_record, member, text_of, Json};
use crate::lens::{clauses, edges, subject_kind, Edge, Term};
use crate::magnitude::decimal;
use crate::names::{under, APP_PREFIX, GROUP_PREFIX, RC_STATUS_STREAM, TASK_QUEUE_STREAM};
use crate::render::registry::{
    citations_by, filename_of, handle_of, last_for, page_by, refusal, Binding, ErrorView,
    HandleView,
};
use crate::render::RunSet;
use crate::sensors::{
    number_text, profile_meta, read_audio, read_camera, read_figures, read_lobe, read_lobes,
    read_meta, read_pixels, LobeView,
};
use crate::text::{dec_text, first_index, lemma_first_index, views};

verus! {

// ---------------------------------------------------------------------------
// names
// ---------------------------------------------------------------------------

/// Everything stands below `/muas/v3`, and a name below another is the two
/// with a slash between.
pub proof fn names_stand_below_the_application(a: Seq<char>, b: Seq<char>)
    ensures
        APP_PREFIX@ == "/muas/v3"@,
        GROUP_PREFIX@ == "/muas/v3/group"@,
        TASK_QUEUE_STREAM@ == "tasks/queue"@,
        RC_STATUS_STREAM@ == "rc/status"@,
        under(a, b) == a + "/"@ + b,
{
}

/// The streams that a vehicle publishes, below its own name.
pub proof fn vehicles_publish_these_streams(id: Seq<char>)
    ensures
        ({
            let s = stream_names(id);
            let own = "/muas/v3"@ + "/"@ + id;
            &&& s.len() == 8
            &&& s[0] == own + "/"@ + "telemetry/live"@ && s[1] == own + "/"@ + "telemetry/state"@
            &&& s[2] == own + "/"@ + "search/status"@ && s[3] == own + "/"@ + "coord/status"@
            &&& s[4] == own + "/"@ + "video/live"@ && s[5] == own + "/"@ + "sensor/last"@
            &&& s[6] == own + "/"@ + "tasks/queue"@ && s[7] == own + "/"@ + "rc/status"@
        }),
{
}

/// Coordination fetches a peer's telemetry and its status, each once.
pub proof fn peers_are_fetched_by_stream(p: Seq<char>, s: Seq<FetchView>, f: FetchView)
    ensures
        fetch_target(FetchView::Telemetry(p)) == "/muas/v3"@ + "/"@ + p + "/"@ + "telemetry/live"@,
        fetch_target(FetchView::Coord(p)) == "/muas/v3"@ + "/"@ + p + "/"@ + "coord/status"@,
        unique(Seq::empty()).len() == 0,
        unique(s).contains(f) ==> unique(s.push(f)) == unique(s),
        !unique(s).contains(f) ==> unique(s.push(f)) == unique(s).push(f),
{
    assert(s.push(f).drop_last() =~= s);
}

/// What an agent starts with, by its configuration.
pub proof fn agents_start_as_configured(c: ConfigView, b: BringUp)
    requires
        planned(c, b),
    ensures
        b.source@ == "sim"@ <==> c.endpoint is Sim,
        b.source@ == "mavlink"@ <==> c.endpoint is Mavlink,
        b.carrier@ == "rpc"@ <==> c.carrier == CarrierKind::Rpc,
        b.carrier@ == "ndnsf"@ <==> c.carrier == CarrierKind::Ndnsf,
        b.service_prefix@ == "/muas/v3"@ + "/"@ + c.vehicle_id,
        b.motion_clock <==> c.endpoint is Sim,
        b.coordination <==> c.fleet_ids.len() > 0,
        b.slot <==> exists|i: int|
            0 <= i < c.fleet_ids.len() && #[trigger] c.fleet_ids[i] == c.vehicle_id,
        b.smart_rtl <==> b.slot && views(b.peers@).len() > 0,
        b.has_audio <==> exists|i: int| 0 <= i < c.extras.len() && #[trigger] c.extras[i] == "audio"@,
        refused(c) <==> c.carrier == CarrierKind::Ndnsf && c.ndnsf_listen is None,
{
    reveal_strlit("sim");
    reveal_strlit("mavlink");
    reveal_strlit("rpc");
    reveal_strlit("ndnsf");
    assert("sim"@.len() == 3 && "mavlink"@.len() == 7 && "rpc"@.len() == 3 && "ndnsf"@.len() == 5);
    if c.fleet_ids.contains(c.vehicle_id) {
        let i = choose|i: int| 0 <= i < c.fleet_ids.len() && c.fleet_ids[i] == c.vehicle_id;
        assert(c.fleet_ids[i] == c.vehicle_id);
    }
    if c.extras.contains("audio"@) {
        let i = choose|i: int| 0 <= i < c.extras.len() && c.extras[i] == "audio"@;
        assert(c.extras[i] == "audio"@);
    }
}

// ---------------------------------------------------------------------------
// records
// ---------------------------------------------------------------------------

/// A record is an object with its members by key, or a list with its members
/// by place and no more than it has.
pub proof fn records_have_members_by_key_or_place(j: Json, key: Seq<char>, n: nat, count: nat)
    ensures
        j is Object ==> is_record(j, count) && member(j, key, n) == field(j, key),
        j matches Json::List(v) ==> {
            &&& is_record(j, count) <==> v@.len() <= count
            &&& n < v@.len() ==> member(j, key, n) == Some(v@[n as int])
            &&& n >= v@.len() ==> member(j, key, n) is None
        },
        !(j is Object) && !(j is List) ==> !is_record(j, count),
{
}

/// What an anomaly is read from: a record of its kind, its place, its extent,
/// and an id, a signature and a time that may be missing. The extent is a size
/// if it is seen and a loudness if it is heard.
pub proof fn anomalies_are_read_by_their_kind(j: Json)
    ensures
        ({
            let kind = text_of(member(j, "kind"@, 0));
            let seen = kind == Some("visual"@);
            let heard = kind == Some("audio"@);
            let id = member(j, "id"@, 1);
            let lat = figure_of(member(j, "lat_deg"@, 2));
            let lon = figure_of(member(j, "lon_deg"@, 3));
            let size = figure_of(member(j, "size_m"@, 4));
            let loud = figure_of(member(j, "loudness_db"@, 4));
            let sign = member(j, "signature"@, 5);
            let time = member(j, "created_ns"@, 6);
            let r = read_anomaly(j);
            &&& r is Some <==> {
                &&& is_record(j, 7) && (seen || heard)
                &&& lat is Some && lon is Some
                &&& seen ==> size is Some
                &&& heard ==> loud is Some
                &&& id is None || text_of(id) is Some
                &&& sign is None || text_of(sign) is Some
                &&& time is None || count_of(time) is Some
            }
            &&& r matches Some(a) ==> {
                &&& a.visual <==> seen
                &&& a.lat_deg == lat->0.real && a.lon_deg == lon->0.real
                &&& seen ==> a.extent == size->0.real
                &&& heard ==> a.extent == loud->0.real
                &&& id is None ==> a.id.len() == 0
                &&& id is Some ==> Some(a.id) == text_of(id)
                &&& sign is None ==> a.signature.len() == 0
                &&& sign is Some ==> Some(a.signature) == text_of(sign)
                &&& time is None ==> a.created_ns == 0
                &&& time is Some ==> Some(a.created_ns) == count_of(time)
            }
        }),
{
    reveal_strlit("visual");
    reveal_strlit("audio");
    assert("visual"@.len() != "audio"@.len());
}

/// A list of anomalies is read item by item, in order, and what is none is
/// left out.
pub proof fn anomalies_are_read_in_order(s: Seq<Json>, n: nat)
    requires
        0 < n <= s.len(),
    ensures
        understood(s, 0).len() == 0,
        read_anomaly(s[n - 1]) is None ==> understood(s, n) == understood(s, (n - 1) as nat),
        read_anomaly(s[n - 1]) matches Some(a) ==> understood(s, n) == understood(
            s,
            (n - 1) as nat,
        ).push(a),
{
}

/// What a camera is read from: a record with a field of view, and ranges and
/// picture sizes that may be missing.
pub proof fn cameras_are_read_from_records(j: Json)
    ensures
        ({
            let fov = figure_of(member(j, "hfov_deg"@, 0));
            let list = member(j, "dri_m"@, 1);
            let w = member(j, "width_px"@, 2);
            let h = member(j, "height_px"@, 3);
            let r = read_camera(j);
            &&& r is Some ==> is_record(j, 4) && fov is Some
            &&& r matches Some(c) ==> {
                &&& c.hfov_deg == fov->0
                &&& Some(c.width_px) == read_pixels(w) && Some(c.height_px) == read_pixels(h)
                &&& list is None ==> c.dri_m.len() == 0
                &&& list matches Some(Json::List(v)) ==> Some(c.dri_m) == read_figures(
                    v@,
                    v@.len(),
                )
            }
            &&& is_record(j, 4) && fov is Some && list is None && read_pixels(w) is Some
                && read_pixels(h) is Some ==> r is Some
        }),
        read_pixels(None) == Some(0u32),
{
}

/// A picture size is a count that fits, and zero where there is none.
pub proof fn picture_sizes_are_counts(j: Json)
    ensures
        read_pixels(Some(j)) matches Some(n) ==> count_of(Some(j)) == Some(n as u64),
        read_pixels(Some(j)) is None <==> count_of(Some(j)) is None || count_of(Some(j))->0
            > u32::MAX,
{
}

/// Lists of figures and of lobes are read whole or not at all, in order.
pub proof fn lists_are_read_whole(s: Seq<Json>, n: nat)
    requires
        n <= s.len(),
    ensures
        read_figures(s, n) is Some <==> forall|i: int|
            0 <= i < n ==> figure_of(Some(#[trigger] s[i])) is Some,
        read_figures(s, n) matches Some(f) ==> f.len() == n && forall|i: int|
            0 <= i < n ==> Some(#[trigger] f[i]) == figure_of(Some(s[i])),
        read_lobes(s, n) is Some <==> forall|i: int|
            0 <= i < n ==> read_lobe(#[trigger] s[i]) is Some,
        read_lobes(s, n) matches Some(f) ==> f.len() == n && forall|i: int|
            0 <= i < n ==> Some(#[trigger] f[i]) == read_lobe(s[i]),
    decreases n,
{
    if n > 0 {
        lists_are_read_whole(s, (n - 1) as nat);
    }
}

/// What a microphone is read from: a range all round, none where it is
/// missing, and lobes with their bearing, width and range.
pub proof fn microphones_are_read_from_records(j: Json, l: Json)
    ensures
        ({
            let omni = member(j, "omni_range_m"@, 0);
            let lobes = member(j, "lobes"@, 1);
            let r = read_audio(j);
            &&& r is Some ==> is_record(j, 2)
            &&& r matches Some(a) ==> {
                &&& omni is Some ==> Some(a.omni_range_m) == figure_of(omni)
                &&& omni is None ==> a.omni_range_m.real.bits == 0
                &&& lobes is None ==> a.lobes.len() == 0
                &&& lobes matches Some(Json::List(v)) ==> Some(a.lobes) == read_lobes(
                    v@,
                    v@.len(),
                )
            }
            &&& is_record(j, 2) && omni is None && lobes is None ==> r is Some
        }),
        ({
            let bearing = figure_of(member(l, "bearing_deg"@, 0));
            let width = figure_of(member(l, "width_deg"@, 1));
            let range = figure_of(member(l, "range_m"@, 2));
            &&& read_lobe(l) is Some <==> is_record(l, 3) && bearing is Some && width is Some
                && range is Some
            &&& read_lobe(l) is Some ==> read_lobe(l)->0 == (LobeView {
                bearing_deg: bearing->0,
                width_deg: width->0,
                range_m: range->0,
            })
        }),
{
}

/// What a sensor profile is read from: a camera and a microphone, either of
/// which may be missing or null, and none of which may be broken.
pub proof fn profiles_hold_a_camera_and_a_microphone(j: Json, profile: Json)
    ensures
        ({
            let camera = member(j, "camera"@, 0);
            let audio = member(j, "audio"@, 1);
            let no_camera = camera is None || camera == Some(Json::Null);
            let no_audio = audio is None || audio == Some(Json::Null);
            let r = read_meta(j);
            &&& r is Some <==> {
                &&& is_record(j, 2)
                &&& no_camera || read_camera(camera->0) is Some
                &&& no_audio || read_audio(audio->0) is Some
            }
            &&& r matches Some(m) ==> {
                &&& no_camera ==> m.camera is None
                &&& !no_camera ==> m.camera == read_camera(camera->0)
                &&& no_audio ==> m.audio is None
                &&& !no_audio ==> m.audio == read_audio(audio->0)
            }
        }),
        field(profile, "sensor_meta"@) is None ==> profile_meta(profile) is None,
        field(profile, "sensor_meta"@) matches Some(m) ==> profile_meta(profile) == read_meta(m),
{
}

/// A figure that is no number, or has no end, is written as null.
pub proof fn endless_figures_are_null(f: crate::json::FigureView)
    ensures
        f.real.magnitude() < 0x7ff0_0000_0000_0000 ==> number_text(f) == f.json,
        f.real.magnitude() >= 0x7ff0_0000_0000_0000 ==> number_text(f) == "null"@,
{
}

// ---------------------------------------------------------------------------
// socket addresses
// ---------------------------------------------------------------------------

/// A text is its fields with the separator between.
pub proof fn fields_lie_between_separators(a: Seq<char>, b: Seq<char>, sep: char)
    requires
        !a.contains(sep),
    ensures
        fields(a, sep) == seq![a],
        fields(a + seq![sep] + b, sep) == seq![a] + fields(b, sep),
{
    lemma_first_index(a, sep);
    let t = a + seq![sep] + b;
    lemma_first_index(t, sep);
    assert(t[a.len() as int] == sep);
    assert(t.contains(sep));
    let k = first_index(t, sep);
    if k < a.len() {
        assert(a[k] == t[k]);
        assert(a.contains(sep));
    }
    assert(t.take(k) =~= a);
    assert(t.skip(k + 1) =~= b);
}

/// An octet is a number up to 255 in one to three digits, without a zero
/// before others; a port is one up to 65535; a group is one to four hex
/// digits.
pub proof fn address_parts_are_small_numbers(s: Seq<char>)
    ensures
        ({
            let decimals = s.len() > 0 && forall|i: int|
                0 <= i < s.len() ==> '0' <= (#[trigger] s[i]) <= '9';
            &&& octet(s) <==> decimals && s.len() <= 3 && decimal(s) <= 255 && (s.len() == 1
                || s[0] != '0')
            &&& port(s) <==> decimals && decimal(s) <= 65_535
        }),
        group(s) <==> 1 <= s.len() <= 4 && forall|i: int|
            0 <= i < s.len() ==> '0' <= (#[trigger] s[i]) <= '9' || 'a' <= s[i] <= 'f' || 'A'
                <= s[i] <= 'F',
{
}

/// A socket address of the fourth version is four octets with dots between, a
/// colon and a port.
pub proof fn four_octets_and_a_port_are_an_address(
    a: Seq<char>,
    b: Seq<char>,
    c: Seq<char>,
    d: Seq<char>,
    p: Seq<char>,
)
    requires
        octet(a) && octet(b) && octet(c) && octet(d),
        port(p),
    ensures
        socket_address(a + seq!['.'] + (b + seq!['.'] + (c + seq!['.'] + d)) + seq![':'] + p),
{
    assert forall|x: Seq<char>| (octet(x) || port(x)) implies !(#[trigger] x.contains('.'))
        && !x.contains(':') && x.len() > 0 && x[0] != '[' by {
        address_parts_are_small_numbers(x);
    }
    let cd = c + seq!['.'] + d;
    let bcd = b + seq!['.'] + cd;
    let host = a + seq!['.'] + bcd;
    assert(!a.contains('.') && !b.contains('.') && !c.contains('.') && !d.contains('.'));
    assert(!p.contains('.'));
    fields_lie_between_separators(c, d, '.');
    fields_lie_between_separators(d, d, '.');
    fields_lie_between_separators(b, cd, '.');
    fields_lie_between_separators(a, bcd, '.');
    let f = fields(host, '.');
    assert(f =~= seq![a, b, c, d]);
    assert(ipv4(host)) by {
        assert(f[0] == a && f[1] == b && f[2] == c && f[3] == d);
    }
    assert(!host.contains(':')) by {
        assert forall|i: int| 0 <= i < host.len() implies host[i] != ':' by {
            if i < a.len() {
                assert(host[i] == a[i]);
                assert(a.contains(a[i]));
            } else if i > a.len() {
                let k = i - a.len() - 1;
                assert(host[i] == bcd[k]);
                if k < b.len() {
                    assert(bcd[k] == b[k]);
                    assert(b.contains(b[k]));
                } else if k > b.len() {
                    let m = k - b.len() - 1;
                    assert(bcd[k] == cd[m]);
                    if m < c.len() {
                        assert(cd[m] == c[m]);
                        assert(c.contains(c[m]));
                    } else if m > c.len() {
                        assert(cd[m] == d[m - c.len() - 1]);
                        assert(d.contains(d[m - c.len() - 1]));
                    }
                }
            }
        }
    }
    fields_lie_between_separators(host, p, ':');
    fields_lie_between_separators(p, p, ':');
    let whole = host + seq![':'] + p;
    assert(fields(whole, ':') =~= seq![host, p]);
    assert(whole[0] == a[0]);
}

/// A socket address of the sixth version stands in brackets, with a colon and
/// a port behind.
pub proof fn bracketed_hosts_and_a_port_are_an_address(host: Seq<char>, p: Seq<char>)
    requires
        !host.contains(']'),
    ensures
        socket_address(seq!['['] + host + seq![']', ':'] + p) <==> scoped(host) && port(p),
        !host.contains('%') ==> (scoped(host) <==> ipv6(host)),
{
    let s = seq!['['] + host + seq![']', ':'] + p;
    lemma_first_index(s, ']');
    let at = host.len() as int + 1;
    assert(s[at] == ']');
    assert(s.contains(']'));
    let k = first_index(s, ']');
    if k < at {
        if k > 0 {
            assert(s[k] == host[k - 1]);
            assert(host.contains(']'));
        }
    }
    assert(k == at);
    assert(s.subrange(1, k) =~= host);
    assert(s.skip(k + 1) =~= seq![':'] + p);
    assert(s.skip(k + 1).skip(1) =~= p);
    lemma_first_index(host, '%');
}

// ---------------------------------------------------------------------------
// artifact arguments
// ---------------------------------------------------------------------------

/// The arguments of the artifact tool are read from the left: each flag sets
/// its own field, runs add up, and what is no flag is refused.
pub proof fn artifact_flags_set_their_own_field(a: ArgsView, argv: Seq<Seq<char>>, i: nat)
    requires
        i < argv.len(),
    ensures
        ({
            let flag = argv[i as int];
            let v = argv[i as int + 1];
            let valued = flag == "--bootstrap"@ || flag == "--from-journal"@ || flag == "--runs"@
                || flag == "--out"@;
            let help = flag == "--help"@ || flag == "-h"@;
            &&& help ==> scan(a, argv, i) is Help
            &&& valued && i + 1 == argv.len() ==> scan(a, argv, i) == Scan::Refused(
                flag + ": missing value"@,
            )
            &&& flag == "--bootstrap"@ && i + 1 < argv.len() ==> scan(a, argv, i) == scan(
                ArgsView { bootstrap: Some(v), ..a },
                argv,
                i + 2,
            )
            &&& flag == "--from-journal"@ && i + 1 < argv.len() ==> scan(a, argv, i) == scan(
                ArgsView { from_journal: Some(v), ..a },
                argv,
                i + 2,
            )
            &&& flag == "--runs"@ && i + 1 < argv.len() ==> scan(a, argv, i) == scan(
                ArgsView { runs: a.runs.push(v), ..a },
                argv,
                i + 2,
            )
            &&& flag == "--out"@ && i + 1 < argv.len() ==> scan(a, argv, i) == scan(
                ArgsView { out: v, ..a },
                argv,
                i + 2,
            )
            &&& flag == "--audit"@ ==> scan(a, argv, i) == scan(
                ArgsView { audit: true, ..a },
                argv,
                i + 1,
            )
            &&& !help && !valued && flag != "--audit"@ ==> scan(a, argv, i) == Scan::Refused(
                "unknown flag '"@ + flag + "' (see --help)"@,
            )
        }),
        scan(a, argv, argv.len()) == Scan::Args(a),
{
    reveal_strlit("--bootstrap");
    reveal_strlit("--from-journal");
    reveal_strlit("--runs");
    reveal_strlit("--out");
    reveal_strlit("--audit");
    reveal_strlit("--help");
    reveal_strlit("-h");
    assert("--bootstrap"@.len() == 11 && "--from-journal"@.len() == 14 && "--runs"@.len() == 6
        && "--out"@.len() == 5 && "--audit"@.len() == 7 && "--help"@.len() == 6 && "-h"@.len() == 2);
    assert("--runs"@[2] != "--help"@[2]);
}

/// Artifacts are made from one source: a bootstrap, a journal, or two runs or
/// more to compare; without a directory they go to `./artifacts`.
pub proof fn artifacts_come_from_one_source(argv: Seq<Seq<char>>)
    ensures
        ({
            let start = ArgsView {
                bootstrap: None,
                from_journal: None,
                runs: Seq::empty(),
                out: "./artifacts"@,
                audit: false,
            };
            let s = scan(start, argv, 0);
            &&& !(s is Args) ==> parsed(argv) == s
            &&& s matches Scan::Args(a) ==> {
                let live = a.bootstrap is Some && a.from_journal is None && a.runs.len() == 0;
                let read = a.bootstrap is None && a.from_journal is Some && a.runs.len() == 0;
                let many = a.bootstrap is None && a.from_journal is None && a.runs.len() > 0;
                &&& live || read || (many && a.runs.len() > 1) ==> parsed(argv) == s
                &&& many && a.runs.len() == 1 ==> parsed(argv) == Scan::Refused(
                    "--runs needs at least two run directories (one run? use --from-journal)"@,
                )
                &&& !live && !read && !many ==> parsed(argv) == Scan::Refused(
                    "exactly one of --bootstrap, --from-journal, --runs required (see --help)"@,
                )
            }
        }),
{
}

// ---------------------------------------------------------------------------
// lenses
// ---------------------------------------------------------------------------

proof fn lemma_lens_words()
    ensures
        "artifact.report"@.len() == 15 && "artifact.deck"@.len() == 13 && "artifact.demo"@.len()
            == 13 && "artifact.compare"@.len() == 16,
        "artifact.deck"@[11] == 'c' && "artifact.demo"@[11] == 'm',
        "artifact.render.report"@.len() == 22 && "artifact.render.deck"@.len() == 20
            && "artifact.render.demo"@.len() == 20 && "artifact.render.compare"@.len() == 23,
        "artifact.render.deck"@[18] == 'c' && "artifact.render.demo"@[18] == 'm',
{
    reveal_strlit("artifact.report");
    reveal_strlit("artifact.deck");
    reveal_strlit("artifact.demo");
    reveal_strlit("artifact.compare");
    reveal_strlit("artifact.render.report");
    reveal_strlit("artifact.render.deck");
    reveal_strlit("artifact.render.demo");
    reveal_strlit("artifact.render.compare");
}

/// Each intent has its lens, its renderer and its file; the comparison is
/// about a set of runs and every other about one dataset.
pub proof fn intents_have_their_lens_and_file(which: Seq<char>)
    ensures
        filename_of("artifact.report"@) == "report.html"@,
        filename_of("artifact.deck"@) == "deck.html"@,
        filename_of("artifact.demo"@) == "demo.html"@,
        filename_of("artifact.compare"@) == "compare.html"@,
        which != "artifact.report"@ && which != "artifact.deck"@ && which != "artifact.demo"@
            && which != "artifact.compare"@ ==> filename_of(which) == "artifact.html"@,
        subject_kind("artifact.compare"@) == Term::RunSet,
        which != "artifact.compare"@ ==> subject_kind(which) == Term::MissionDataset,
        handle_of("artifact.compare"@) == HandleView::Raw("run-set"@),
        which != "artifact.compare"@ ==> handle_of(which) == HandleView::Raw("mission-dataset"@),
        ({
            let c = clauses();
            &&& c.len() == 4
            &&& c[0].intent == "artifact.report"@ && c[0].target == Term::MissionReport && c[0].via
                == "artifact.render.report"@
            &&& c[1].intent == "artifact.deck"@ && c[1].target == Term::MissionDeck && c[1].via
                == "artifact.render.deck"@
            &&& c[2].intent == "artifact.demo"@ && c[2].target == Term::MissionReplay && c[2].via
                == "artifact.render.demo"@
            &&& c[3].intent == "artifact.compare"@ && c[3].target == Term::MissionComparison
                && c[3].via == "artifact.render.compare"@
        }),
        edges().contains(Edge { narrower: Term::RunSet, broader: Term::MissionComparison }),
{
    lemma_lens_words();
    assert(edges()[3] == (Edge { narrower: Term::RunSet, broader: Term::MissionComparison }));
}

/// What a renderer takes: one of the three lenses over a dataset the handle of
/// one and a run; the comparison the handle of a set and two runs; no other id
/// is registered.
pub proof fn renderers_take_their_handle(set: RunSet, id: Seq<char>, kind: Seq<char>)
    ensures
        ({
            let one = id == "artifact.render.report"@ || id == "artifact.render.deck"@ || id
                == "artifact.render.demo"@;
            let all = id == "artifact.render.compare"@;
            let r = refusal(set, id, HandleView::Raw(kind));
            let n = set.runs@.len();
            &&& r is None <==> (one && kind == "mission-dataset"@ && n >= 1) || (all && kind
                == "run-set"@ && n >= 2)
            &&& !one && !all ==> r == Some(ErrorView::Unregistered(id))
            &&& one && kind == "mission-dataset"@ && n == 0 ==> r == Some(
                ErrorView::Unrenderable(id, "empty run set"@),
            )
            &&& all && kind == "run-set"@ && n < 2 ==> r == Some(
                ErrorView::Unrenderable(
                    id,
                    "comparison needs >= 2 runs, got "@ + dec_text(n),
                ),
            )
            &&& (one || all) ==> refusal(set, id, HandleView::Other(kind)) == Some(
                ErrorView::WrongViewModel(id, "raw"@, kind),
            )
        }),
{
    lemma_lens_words();
}

/// Each renderer draws its own page, of the first run or of all, and cites
/// what it draws on.
pub proof fn renderers_draw_their_own_page(set: RunSet)
    requires
        set.runs@.len() > 0,
    ensures
        ({
            let run = set.runs@[0];
            let own = crate::dataset::cited_blocks(run.dataset.blocks@);
            &&& page_by(set, "artifact.render.report"@) == crate::render::report::report_of(
                run.dataset,
                run.measured@,
            )
            &&& page_by(set, "artifact.render.deck"@) == crate::render::deck::deck_of(
                run.dataset,
                run.measured@,
                run.chart@,
            )
            &&& page_by(set, "artifact.render.demo"@) == crate::render::demo::demo_of(
                run.dataset,
                views(run.times@),
                run.duration@,
            )
            &&& page_by(set, "artifact.render.compare"@) == crate::render::compare::compare_of(
                set.runs@,
            )
            &&& citations_by(set, "artifact.render.report"@) == own
            &&& citations_by(set, "artifact.render.deck"@) == own
            &&& citations_by(set, "artifact.render.demo"@) == own
            &&& citations_by(set, "artifact.render.compare"@) == crate::render::compare::cited_runs(
                set.runs@,
            )
        }),
{
    lemma_lens_words();
}

/// Of several bindings for one file the last counts.
pub proof fn later_bindings_win(bindings: Seq<Binding>, file: Seq<char>, n: nat, k: int)
    requires
        n <= bindings.len(),
    ensures
        (forall|i: int|
            0 <= i < n ==> filename_of((#[trigger] bindings[i]).intent@) != file) ==> last_for(
            bindings,
            file,
            n,
        ) is None,
        0 <= k < n && filename_of(bindings[k].intent@) == file && (forall|i: int|
            k < i < n ==> filename_of((#[trigger] bindings[i]).intent@) != file) ==> last_for(
            bindings,
            file,
            n,
        ) == Some(k),
    decreases n,
{
    if n > 0 {
        later_bindings_win(bindings, file, (n - 1) as nat, k);
    }
}

} // verus!
