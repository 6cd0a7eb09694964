//! Agent configuration and its command line.
//!
//! Numbers and socket addresses stay texts here: a number is checked to be a
//! numeral, and the addresses that the command line mentions are listed in
//! order, for the program around to resolve.

use vstd::prelude::*;

use crate::address::{is_socket_address, socket_address};
use crate::names::{under, vehicle_prefix, APP_PREFIX};
use crate::numerals::{is_number, is_positive, number_error, positive_text};
use crate::quantity::Real;
use crate::text::{
    cat, pieces, same, split_at_char, split_once, split_pieces, strip_prefix, views,
};

verus! {

/// Which flight back end flies the vehicle.
#[derive(Debug)]
pub enum Endpoint {
    /// Kinematic bench vehicle at a position in degrees.
    Sim { lat_deg: String, lon_deg: String },
    /// Live autopilot over an endpoint string.
    Mavlink(String),
}

/// An endpoint by its texts.
#[verifier::ext_equal]
pub enum EndpointView {
    Sim { lat_deg: Seq<char>, lon_deg: Seq<char> },
    Mavlink(Seq<char>),
}

impl View for Endpoint {
    type V = EndpointView;

    open spec fn view(&self) -> EndpointView {
        match self {
            Endpoint::Sim { lat_deg, lon_deg } => EndpointView::Sim {
                lat_deg: lat_deg@,
                lon_deg: lon_deg@,
            },
            Endpoint::Mavlink(ep) => EndpointView::Mavlink(ep@),
        }
    }
}

/// What the vehicle does once a task ends and nothing else claims it.
#[derive(Debug)]
pub enum IdlePolicy {
    /// Hover where the task ended.
    Hold,
    /// Hover, then return to launch after this many seconds still idle.
    RtlAfter(String),
    /// Climb to the vehicle's altitude slot and hold there.
    SlotHold,
}

/// An idle policy by its values.
#[verifier::ext_equal]
pub enum IdlePolicyView {
    Hold,
    RtlAfter(Seq<char>),
    SlotHold,
}

impl View for IdlePolicy {
    type V = IdlePolicyView;

    open spec fn view(&self) -> IdlePolicyView {
        match self {
            IdlePolicy::Hold => IdlePolicyView::Hold,
            IdlePolicy::RtlAfter(s) => IdlePolicyView::RtlAfter(s@),
            IdlePolicy::SlotHold => IdlePolicyView::SlotHold,
        }
    }
}

/// The refusal of a timer that is not a number of seconds above zero.
pub open spec fn bad_seconds(seconds: Seq<char>) -> Seq<char> {
    "--idle-policy: bad rtl-after seconds '"@ + seconds + "'"@
}

/// The prefix of the timed policy.
pub const RTL_AFTER: &'static str = "rtl-after:";

/// What a policy flag value means.
pub open spec fn policy_of(value: Seq<char>) -> Result<IdlePolicyView, Seq<char>> {
    if value == "hold"@ {
        Ok(IdlePolicyView::Hold)
    } else if value == "slot-hold"@ {
        Ok(IdlePolicyView::SlotHold)
    } else if RTL_AFTER@.is_prefix_of(value) {
        let seconds = value.skip(RTL_AFTER@.len() as int);
        if positive_text(seconds) {
            Ok(IdlePolicyView::RtlAfter(seconds))
        } else {
            Err(bad_seconds(seconds))
        }
    } else {
        Err("--idle-policy: expected hold|rtl-after:<s>|slot-hold, got '"@ + value + "'"@)
    }
}

/// The message of a refused timer.
pub fn bad_rtl_after(seconds: &str) -> (r: String)
    ensures
        r@ == bad_seconds(seconds@),
{
    let mut s = cat("--idle-policy: bad rtl-after seconds '", seconds);
    s.append("'");
    s
}

impl IdlePolicy {
    /// Parse the value of the policy flag.
    pub fn parse(value: &str) -> (r: Result<Self, String>)
        ensures
            match r {
                Ok(p) => policy_of(value@) == Ok::<IdlePolicyView, Seq<char>>(p@),
                Err(e) => policy_of(value@) == Err::<IdlePolicyView, Seq<char>>(e@),
            },
    {
        if same(value, "hold") {
            return Ok(IdlePolicy::Hold);
        }
        if same(value, "slot-hold") {
            return Ok(IdlePolicy::SlotHold);
        }
        match strip_prefix(value, RTL_AFTER) {
            Some(seconds) => {
                assert(seconds@ =~= value@.skip(RTL_AFTER@.len() as int));
                if is_positive(seconds) {
                    Ok(IdlePolicy::RtlAfter(seconds.to_owned()))
                } else {
                    Err(bad_rtl_after(seconds))
                }
            },
            None => {
                let mut s = cat("--idle-policy: expected hold|rtl-after:<s>|slot-hold, got '", value);
                s.append("'");
                Err(s)
            },
        }
    }

    /// The journaled policy name.
    pub fn as_str(&self) -> (r: &'static str)
        ensures
            r@ == (match self@ {
                IdlePolicyView::Hold => "hold"@,
                IdlePolicyView::RtlAfter(_) => "rtl-after"@,
                IdlePolicyView::SlotHold => "slot-hold"@,
            }),
    {
        match self {
            IdlePolicy::Hold => "hold",
            IdlePolicy::RtlAfter(_) => "rtl-after",
            IdlePolicy::SlotHold => "slot-hold",
        }
    }
}

/// Bits of the lowest fleet floor that is taken unasked, 3.5 m.
pub const FLEET_FLOOR_BITS: u64 = 0x400c_0000_0000_0000;

/// The flight floor of the fleet: the one that was asked for, or else the
/// commandable floor, but at least 3.5 m.
pub open spec fn floor_for(explicit: Option<Real>, min_agl_m: Real) -> Real {
    let lowest = Real { bits: FLEET_FLOOR_BITS };
    match explicit {
        Some(floor) => floor,
        None => if lowest.below(min_agl_m) {
            min_agl_m
        } else {
            lowest
        },
    }
}

/// The flight floor of the fleet: the one that was asked for, or else the
/// commandable floor, but at least 3.5 m.
pub fn fleet_floor(explicit: Option<Real>, min_agl_m: Real) -> (r: Real)
    ensures
        r == floor_for(explicit, min_agl_m),
{
    let lowest = Real { bits: FLEET_FLOOR_BITS };
    match explicit {
        Some(floor) => floor,
        None => if lowest.lt(&min_agl_m) {
            min_agl_m
        } else {
            lowest
        },
    }
}

/// Without a flag of its own the fleet floor follows the commandable floor up,
/// never below 3.5 m; a flag overrides both.
pub proof fn fleet_floors_follow_the_commandable_floor(min_agl_m: Real, asked: Real)
    requires
        !min_agl_m.is_nan(),
    ensures
        min_agl_m.at_most(floor_for(None, min_agl_m)),
        (Real { bits: FLEET_FLOOR_BITS }).at_most(floor_for(None, min_agl_m)),
        floor_for(Some(asked), min_agl_m) == asked,
{
}

/// Service carrier that hosts the vehicle service.
#[derive(Clone, Copy, Debug, PartialEq, Eq, Structural)]
pub enum CarrierKind {
    /// Request and response over the engine.
    Rpc,
    /// Four phases over a synchronized group.
    Ndnsf,
}

/// Which sensor feed backs captures and video.
#[derive(Clone, Copy, Debug, PartialEq, Eq, Structural)]
pub enum FeedChoice {
    /// No sensors.
    Absent,
    /// Rendered from the deployment's anomaly ground truth.
    Synthetic,
}

/// One point-to-point UDP face.
#[derive(Debug)]
pub struct UdpLink {
    pub local: String,
    pub remote: String,
    /// Prefix routed out this face; `None` = inbound only.
    pub route: Option<String>,
}

/// A face by its texts.
#[verifier::ext_equal]
pub struct UdpLinkView {
    pub local: Seq<char>,
    pub remote: Seq<char>,
    pub route: Option<Seq<char>>,
}

/// The text of an optional string.
pub open spec fn opt(s: Option<String>) -> Option<Seq<char>> {
    match s {
        Some(x) => Some(x@),
        None => None,
    }
}

impl View for UdpLink {
    type V = UdpLinkView;

    open spec fn view(&self) -> UdpLinkView {
        UdpLinkView { local: self.local@, remote: self.remote@, route: opt(self.route) }
    }
}

/// The views of a list of faces.
pub open spec fn link_views(v: Seq<UdpLink>) -> Seq<UdpLinkView> {
    v.map_values(|l: UdpLink| l@)
}

/// Everything the agent starts from.
#[derive(Debug)]
pub struct AgentConfig {
    pub vehicle_id: String,
    /// Full fleet id list including this vehicle; empty = no coordination.
    pub fleet_ids: Vec<String>,
    pub endpoint: Endpoint,
    /// Capabilities advertised by the vehicle.
    pub extras: Vec<String>,
    /// Deployment run id stamped onto every journal line.
    pub run_id: Option<String>,
    pub carrier: CarrierKind,
    /// Point-to-point UDP faces.
    pub links: Vec<UdpLink>,
    /// Telemetry publish rate, Hz.
    pub telemetry_hz: String,
    /// Range limit from home, metres.
    pub max_range_m: String,
    /// Commandable altitude floor, metres.
    pub min_agl_m: String,
    /// Commandable altitude ceiling, metres.
    pub max_agl_m: String,
    /// Range limit of audio captures, metres.
    pub audio_range_m: String,
    /// Horizontal separation envelope, metres.
    pub hsep_m: String,
    /// Vertical separation envelope, metres.
    pub vsep_m: String,
    /// Conflict prediction horizon, seconds.
    pub horizon_s: String,
    /// Cooperative confirmation grace, seconds.
    pub grace_s: String,
    /// Lowest smart return-to-launch slot, metres.
    pub rtl_base_agl_m: String,
    /// Slot separation, metres.
    pub rtl_sep_m: String,
    /// Fleet flight floor, metres; when absent, the commandable floor but at
    /// least 3.5.
    pub floor_agl_m: Option<String>,
    pub idle_policy: IdlePolicy,
    pub log_dir: Option<String>,
    /// Mirror journal events into a Block chain.
    pub journal_chain: bool,
    pub sensor_feed: FeedChoice,
    /// Destination of the telemetry side lane.
    pub spark_udp: Option<String>,
    pub ndnsf_listen: Option<String>,
    pub ndnsf_peers: Vec<String>,
}

/// A configuration by its values.
#[verifier::ext_equal]
pub struct ConfigView {
    pub vehicle_id: Seq<char>,
    pub fleet_ids: Seq<Seq<char>>,
    pub endpoint: EndpointView,
    pub extras: Seq<Seq<char>>,
    pub run_id: Option<Seq<char>>,
    pub carrier: CarrierKind,
    pub links: Seq<UdpLinkView>,
    pub telemetry_hz: Seq<char>,
    pub max_range_m: Seq<char>,
    pub min_agl_m: Seq<char>,
    pub max_agl_m: Seq<char>,
    pub audio_range_m: Seq<char>,
    pub hsep_m: Seq<char>,
    pub vsep_m: Seq<char>,
    pub horizon_s: Seq<char>,
    pub grace_s: Seq<char>,
    pub rtl_base_agl_m: Seq<char>,
    pub rtl_sep_m: Seq<char>,
    pub floor_agl_m: Option<Seq<char>>,
    pub idle_policy: IdlePolicyView,
    pub log_dir: Option<Seq<char>>,
    pub journal_chain: bool,
    pub sensor_feed: FeedChoice,
    pub spark_udp: Option<Seq<char>>,
    pub ndnsf_listen: Option<Seq<char>>,
    pub ndnsf_peers: Seq<Seq<char>>,
}

impl View for AgentConfig {
    type V = ConfigView;

    open spec fn view(&self) -> ConfigView {
        ConfigView {
            vehicle_id: self.vehicle_id@,
            fleet_ids: views(self.fleet_ids@),
            endpoint: self.endpoint@,
            extras: views(self.extras@),
            run_id: opt(self.run_id),
            carrier: self.carrier,
            links: link_views(self.links@),
            telemetry_hz: self.telemetry_hz@,
            max_range_m: self.max_range_m@,
            min_agl_m: self.min_agl_m@,
            max_agl_m: self.max_agl_m@,
            audio_range_m: self.audio_range_m@,
            hsep_m: self.hsep_m@,
            vsep_m: self.vsep_m@,
            horizon_s: self.horizon_s@,
            grace_s: self.grace_s@,
            rtl_base_agl_m: self.rtl_base_agl_m@,
            rtl_sep_m: self.rtl_sep_m@,
            floor_agl_m: opt(self.floor_agl_m),
            idle_policy: self.idle_policy@,
            log_dir: opt(self.log_dir),
            journal_chain: self.journal_chain,
            sensor_feed: self.sensor_feed,
            spark_udp: opt(self.spark_udp),
            ndnsf_listen: opt(self.ndnsf_listen),
            ndnsf_peers: views(self.ndnsf_peers@),
        }
    }
}

/// The bench vehicle's default position.
pub open spec fn default_endpoint() -> EndpointView {
    EndpointView::Sim { lat_deg: "35.0"@, lon_deg: "-90.0"@ }
}

/// What an agent is configured with when the command line is silent.
pub open spec fn defaults() -> ConfigView {
    ConfigView {
        vehicle_id: Seq::empty(),
        fleet_ids: Seq::empty(),
        endpoint: default_endpoint(),
        extras: Seq::empty(),
        run_id: None,
        carrier: CarrierKind::Rpc,
        links: Seq::empty(),
        telemetry_hz: "4.0"@,
        max_range_m: "300.0"@,
        min_agl_m: "3.5"@,
        max_agl_m: "20.0"@,
        audio_range_m: "30.0"@,
        hsep_m: "8.0"@,
        vsep_m: "4.0"@,
        horizon_s: "20.0"@,
        grace_s: "2.5"@,
        rtl_base_agl_m: "8.0"@,
        rtl_sep_m: "3.0"@,
        floor_agl_m: None,
        idle_policy: IdlePolicyView::Hold,
        log_dir: None,
        journal_chain: false,
        sensor_feed: FeedChoice::Absent,
        spark_udp: None,
        ndnsf_listen: None,
        ndnsf_peers: Seq::empty(),
    }
}

fn sim_default() -> (r: Endpoint)
    ensures
        r@ == default_endpoint(),
{
    Endpoint::Sim { lat_deg: "35.0".to_owned(), lon_deg: "-90.0".to_owned() }
}

impl Default for AgentConfig {
    fn default() -> (r: Self)
        ensures
            r@ == defaults(),
    {
        let r = AgentConfig {
            vehicle_id: String::new(),
            fleet_ids: Vec::new(),
            endpoint: sim_default(),
            extras: Vec::new(),
            run_id: None,
            carrier: CarrierKind::Rpc,
            links: Vec::new(),
            telemetry_hz: "4.0".to_owned(),
            max_range_m: "300.0".to_owned(),
            min_agl_m: "3.5".to_owned(),
            max_agl_m: "20.0".to_owned(),
            audio_range_m: "30.0".to_owned(),
            hsep_m: "8.0".to_owned(),
            vsep_m: "4.0".to_owned(),
            horizon_s: "20.0".to_owned(),
            grace_s: "2.5".to_owned(),
            rtl_base_agl_m: "8.0".to_owned(),
            rtl_sep_m: "3.0".to_owned(),
            floor_agl_m: None,
            idle_policy: IdlePolicy::Hold,
            log_dir: None,
            journal_chain: false,
            sensor_feed: FeedChoice::Absent,
            spark_udp: None,
            ndnsf_listen: None,
            ndnsf_peers: Vec::new(),
        };
        assert(r@ =~= defaults());
        r
    }
}

/// The items of `s` that differ from `x`, in order.
pub open spec fn others(s: Seq<Seq<char>>, x: Seq<char>) -> Seq<Seq<char>>
    decreases s.len(),
{
    if s.len() == 0 {
        Seq::empty()
    } else if s.last() == x {
        others(s.drop_last(), x)
    } else {
        others(s.drop_last(), x).push(s.last())
    }
}

impl AgentConfig {
    /// Fleet peers: the fleet ids without this vehicle.
    pub fn peer_ids(&self) -> (r: Vec<String>)
        ensures
            views(r@) == others(self@.fleet_ids, self@.vehicle_id),
    {
        let mut out: Vec<String> = Vec::new();
        let ghost all = views(self.fleet_ids@);
        let mut i: usize = 0;
        assert(all.take(0) =~= Seq::empty());
        assert(views(out@) =~= Seq::empty());
        while i < self.fleet_ids.len()
            invariant
                i <= self.fleet_ids@.len(),
                all == views(self.fleet_ids@),
                views(out@) == others(all.take(i as int), self.vehicle_id@),
            decreases self.fleet_ids@.len() - i,
        {
            assert(all.take(i + 1).drop_last() =~= all.take(i as int));
            assert(all.take(i + 1).last() == self.fleet_ids@[i as int]@);
            if !same(self.fleet_ids[i].as_str(), self.vehicle_id.as_str()) {
                proof {
                    crate::text::lemma_views_push(out@, self.fleet_ids@[i as int]);
                }
                out.push(self.fleet_ids[i].clone());
            }
            i = i + 1;
        }
        assert(all.take(i as int) =~= all);
        out
    }

    /// Smart return-to-launch needs this vehicle in the fleet list.
    pub fn smart_rtl_available(&self) -> (r: bool)
        ensures
            r == self@.fleet_ids.contains(self@.vehicle_id),
    {
        let mut i: usize = 0;
        while i < self.fleet_ids.len()
            invariant
                i <= self.fleet_ids@.len(),
                forall|j: int|
                    0 <= j < i ==> (#[trigger] views(self.fleet_ids@)[j]) != self.vehicle_id@,
            decreases self.fleet_ids@.len() - i,
        {
            assert(views(self.fleet_ids@)[i as int] == self.fleet_ids@[i as int]@);
            if same(self.fleet_ids[i].as_str(), self.vehicle_id.as_str()) {
                return true;
            }
            i = i + 1;
        }
        false
    }
}

/// The help text, which is the flag reference.
pub const HELP: &'static str = "\
muas-agent — miniMUAS v3 drone agent

USAGE:
    muas-agent --vehicle-id <ID> [FLAGS]

VEHICLE:
    --vehicle-id <ID>          this vehicle's id (required), e.g. iuas-01
    --fleet-ids <A,B,..>       full fleet id list incl. self; enables PeerGuard
                               coordination + slot-layered smart RTL
    --endpoint <E>             sim (default) | mavlink:<endpoint>
                               e.g. mavlink:udpin:0.0.0.0:14550
    --sim-origin <LAT,LON>     sim start position (default 35.0,-90.0)
    --telemetry-hz <HZ>        telemetry/live publish rate (default 4)
    --extras <A,B,..>          capability extras advertised on telemetry/state
                               (v2 CapabilityProfile: orbit, camera, audio)
    --run-id <ID>              deployment run id stamped onto every journal line

NETWORK (point-to-point UDP faces; repeatable):
    --peer <VID=LOCAL,REMOTE>  face to fleet peer VID; routes /muas/v3/<VID>
    --forwarder <LOCAL,REMOTE> face to an upstream forwarder; routes /muas/v3
    --link <LOCAL,REMOTE>      inbound-only face (GCS / test client)

SERVICE CARRIER:
    --carrier <rpc|ndnsf>      rpc = FaceRpcCarrier over the engine (default)
                               ndnsf = four-phase NdnsfCarrier over SVS
    --ndnsf-listen <ADDR>      ndnsf sync-lane UDP bind (carrier=ndnsf)
    --ndnsf-peer <ADDR>        ndnsf sync-lane peer (repeatable)

FIELD-SAFETY RAILS:
    --max-range-m <M>          range guard from home (default 300)
    --min-agl-m <M>            AGL floor (default 3.5; sim benches may use 0.5)
    --max-agl-m <M>            AGL ceiling (default 20)
    --audio-range-m <M>        audio capture range guard (default 30)

COORDINATION:
    --hsep-m <M>               horizontal separation envelope (default 8)
    --vsep-m <M>               vertical separation envelope (default 4)
    --horizon-s <S>            conflict prediction horizon (default 20)
    --grace-s <S>              cooperative confirmation grace (default 2.5)
    --floor-agl-m <M>          fleet flight floor (default 3.5; SAME fleet-wide)
    --rtl-base-agl-m <M>       lowest smart-RTL slot (default 8)
    --rtl-sep-m <M>            slot separation (default 3)
    --idle-policy <P>          post-task idle behavior (journaled decision):
                               hold (default) | rtl-after:<s> | slot-hold

SENSORS:
    --sensor-feed <S>          none (default) | synthetic — synthetic renders
                               nadir frames / audio from the deployment's
                               anomaly ground truth, fetched over the network
                               (embedders pass a full SensorFeedConfig instead)

JOURNALS / TELEMETRY LANES:
    --log-dir <DIR>            power-loss-safe JSONL journal directory
    --journal-chain            also mirror journal events into an ndf Block chain
    --spark-udp <ADDR>         emit telemetry samples as ndf-spark Sparks to ADDR

    --help                     print this help
";

/// Parse outcome: run, or print the help.
#[derive(Debug)]
pub enum ParseOutcome {
    Run(Box<AgentConfig>),
    Help,
}

/// A parse outcome by its values.
#[verifier::ext_equal]
pub enum OutcomeView {
    Run(ConfigView),
    Help,
}

impl View for ParseOutcome {
    type V = OutcomeView;

    open spec fn view(&self) -> OutcomeView {
        match self {
            ParseOutcome::Run(c) => OutcomeView::Run((**c)@),
            ParseOutcome::Help => OutcomeView::Help,
        }
    }
}

// ---------------------------------------------------------------------------
// the meaning of a command line
// ---------------------------------------------------------------------------

/// What the flags read so far set.
#[verifier::ext_equal]
pub struct DraftView {
    pub config: ConfigView,
    /// Bench position, applied to the bench vehicle at the end.
    pub sim_origin: Option<(Seq<char>, Seq<char>)>,
}

/// The refusal of a text that is not a pair.
pub open spec fn no_pair(flag: Seq<char>, sep: char, got: Seq<char>) -> Seq<char> {
    flag + ": expected '<..>"@ + seq![sep] + "<..>', got '"@ + got + "'"@
}

/// The refusal of a text that is not a number.
pub open spec fn no_number(flag: Seq<char>, got: Seq<char>) -> Seq<char> {
    flag + ": bad number '"@ + got + "': "@ + number_error(got)->0
}

/// The refusal of a text that is not a socket address.
pub open spec fn no_address(flag: Seq<char>, got: Seq<char>) -> Seq<char> {
    flag + ": bad socket address '"@ + got + "': invalid socket address syntax"@
}

/// A flag whose value is one number, and the configuration it makes.
pub open spec fn number_flag(flag: Seq<char>, value: Seq<char>, c: ConfigView) -> Option<ConfigView> {
    if flag == "--telemetry-hz"@ {
        Some(ConfigView { telemetry_hz: value, ..c })
    } else if flag == "--max-range-m"@ {
        Some(ConfigView { max_range_m: value, ..c })
    } else if flag == "--min-agl-m"@ {
        Some(ConfigView { min_agl_m: value, ..c })
    } else if flag == "--max-agl-m"@ {
        Some(ConfigView { max_agl_m: value, ..c })
    } else if flag == "--audio-range-m"@ {
        Some(ConfigView { audio_range_m: value, ..c })
    } else if flag == "--hsep-m"@ {
        Some(ConfigView { hsep_m: value, ..c })
    } else if flag == "--vsep-m"@ {
        Some(ConfigView { vsep_m: value, ..c })
    } else if flag == "--horizon-s"@ {
        Some(ConfigView { horizon_s: value, ..c })
    } else if flag == "--grace-s"@ {
        Some(ConfigView { grace_s: value, ..c })
    } else if flag == "--rtl-base-agl-m"@ {
        Some(ConfigView { rtl_base_agl_m: value, ..c })
    } else if flag == "--rtl-sep-m"@ {
        Some(ConfigView { rtl_sep_m: value, ..c })
    } else if flag == "--floor-agl-m"@ {
        Some(ConfigView { floor_agl_m: Some(value), ..c })
    } else {
        None
    }
}

/// A flag whose value is any text, and the configuration it makes.
pub open spec fn text_flag(flag: Seq<char>, value: Seq<char>, c: ConfigView) -> Option<ConfigView> {
    if flag == "--vehicle-id"@ {
        Some(ConfigView { vehicle_id: value, ..c })
    } else if flag == "--fleet-ids"@ {
        Some(ConfigView { fleet_ids: pieces(value, ','), ..c })
    } else if flag == "--extras"@ {
        Some(ConfigView { extras: pieces(value, ','), ..c })
    } else if flag == "--run-id"@ {
        Some(ConfigView { run_id: Some(value), ..c })
    } else if flag == "--log-dir"@ {
        Some(ConfigView { log_dir: Some(value), ..c })
    } else {
        None
    }
}

/// A flag whose value is one address, and the configuration it makes.
pub open spec fn address_flag(flag: Seq<char>, value: Seq<char>, c: ConfigView) -> Option<
    ConfigView,
> {
    if flag == "--ndnsf-listen"@ {
        Some(ConfigView { ndnsf_listen: Some(value), ..c })
    } else if flag == "--ndnsf-peer"@ {
        Some(ConfigView { ndnsf_peers: c.ndnsf_peers.push(value), ..c })
    } else if flag == "--spark-udp"@ {
        Some(ConfigView { spark_udp: Some(value), ..c })
    } else {
        None
    }
}

/// The endpoint that a flag value names.
pub open spec fn endpoint_of(value: Seq<char>) -> Option<EndpointView> {
    let prefix = "mavlink:"@;
    if value == "sim"@ {
        Some(default_endpoint())
    } else if prefix.is_prefix_of(value) && value.len() > prefix.len() {
        Some(EndpointView::Mavlink(value.skip(prefix.len() as int)))
    } else {
        None
    }
}

/// A flag whose value picks one of a few words.
pub open spec fn choice_flag(flag: Seq<char>, value: Seq<char>, c: ConfigView) -> Option<
    Result<ConfigView, Seq<char>>,
> {
    if flag == "--endpoint"@ {
        Some(
            match endpoint_of(value) {
                Some(endpoint) => Ok(ConfigView { endpoint, ..c }),
                None => Err(
                    "--endpoint: expected 'sim' or 'mavlink:<endpoint>', got '"@ + value + "'"@,
                ),
            },
        )
    } else if flag == "--carrier"@ {
        Some(
            if value == "rpc"@ {
                Ok(ConfigView { carrier: CarrierKind::Rpc, ..c })
            } else if value == "ndnsf"@ {
                Ok(ConfigView { carrier: CarrierKind::Ndnsf, ..c })
            } else {
                Err("--carrier: expected rpc|ndnsf, got '"@ + value + "'"@)
            },
        )
    } else if flag == "--idle-policy"@ {
        Some(
            match policy_of(value) {
                Ok(idle_policy) => Ok(ConfigView { idle_policy, ..c }),
                Err(e) => Err(e),
            },
        )
    } else if flag == "--sensor-feed"@ {
        Some(
            if value == "none"@ {
                Ok(ConfigView { sensor_feed: FeedChoice::Absent, ..c })
            } else if value == "synthetic"@ {
                Ok(ConfigView { sensor_feed: FeedChoice::Synthetic, ..c })
            } else {
                Err("--sensor-feed: expected none|synthetic, got '"@ + value + "'"@)
            },
        )
    } else {
        None
    }
}

/// A face between the two addresses of `pair`.
pub open spec fn linked(
    d: DraftView,
    flag: Seq<char>,
    pair: Seq<char>,
    route: Option<Seq<char>>,
) -> Result<DraftView, Seq<char>> {
    match split_at_char(pair, ',') {
        None => Err(no_pair(flag, ',', pair)),
        Some((local, remote)) => if !socket_address(local) {
            Err(no_address(flag, local))
        } else if !socket_address(remote) {
            Err(no_address(flag, remote))
        } else {
            Ok(
                DraftView {
                    config: ConfigView {
                        links: d.config.links.push(UdpLinkView { local, remote, route }),
                        ..d.config
                    },
                    ..d
                },
            )
        },
    }
}

/// A flag that adds a face.
pub open spec fn link_flag(flag: Seq<char>, value: Seq<char>, d: DraftView) -> Option<
    Result<DraftView, Seq<char>>,
> {
    if flag == "--peer"@ {
        Some(
            match split_at_char(value, '=') {
                None => Err(no_pair(flag, '=', value)),
                Some((vid, addrs)) => linked(d, flag, addrs, Some(under(APP_PREFIX@, vid))),
            },
        )
    } else if flag == "--forwarder"@ {
        Some(linked(d, flag, value, Some(APP_PREFIX@)))
    } else if flag == "--link"@ {
        Some(linked(d, flag, value, None))
    } else {
        None
    }
}

/// The bench position that a flag value names.
pub open spec fn origin_of(flag: Seq<char>, value: Seq<char>) -> Result<
    (Seq<char>, Seq<char>),
    Seq<char>,
> {
    match split_at_char(value, ',') {
        None => Err(no_pair(flag, ',', value)),
        Some((lat, lon)) => if number_error(lat) is Some {
            Err(no_number(flag, lat))
        } else if number_error(lon) is Some {
            Err(no_number(flag, lon))
        } else {
            Ok((lat, lon))
        },
    }
}

/// What a flag with its value does; `None` = there is no such flag.
pub open spec fn value_flag(flag: Seq<char>, value: Seq<char>, d: DraftView) -> Option<
    Result<DraftView, Seq<char>>,
> {
    let c = d.config;
    if text_flag(flag, value, c) is Some {
        Some(Ok(DraftView { config: text_flag(flag, value, c)->0, ..d }))
    } else if choice_flag(flag, value, c) is Some {
        Some(
            match choice_flag(flag, value, c)->0 {
                Ok(config) => Ok(DraftView { config, ..d }),
                Err(e) => Err(e),
            },
        )
    } else if flag == "--sim-origin"@ {
        Some(
            match origin_of(flag, value) {
                Ok(origin) => Ok(DraftView { sim_origin: Some(origin), ..d }),
                Err(e) => Err(e),
            },
        )
    } else if number_flag(flag, value, c) is Some {
        Some(
            if number_error(value) is Some {
                Err(no_number(flag, value))
            } else {
                Ok(DraftView { config: number_flag(flag, value, c)->0, ..d })
            },
        )
    } else if address_flag(flag, value, c) is Some {
        Some(
            if socket_address(value) {
                Ok(DraftView { config: address_flag(flag, value, c)->0, ..d })
            } else {
                Err(no_address(flag, value))
            },
        )
    } else {
        link_flag(flag, value, d)
    }
}

/// The text is a flag that takes a value.
pub open spec fn takes_value(flag: Seq<char>) -> bool {
    value_flag(flag, Seq::empty(), blank()) is Some
}

/// The checks after the last flag.
pub open spec fn concluded(d: DraftView) -> Result<OutcomeView, Seq<char>> {
    let c = d.config;
    if c.vehicle_id.len() == 0 {
        Err("--vehicle-id is required (see --help)"@)
    } else if c.carrier == CarrierKind::Ndnsf && c.ndnsf_listen is None {
        Err("--carrier ndnsf requires --ndnsf-listen (see --help)"@)
    } else {
        Ok(
            OutcomeView::Run(
                match (c.endpoint, d.sim_origin) {
                    (EndpointView::Sim { .. }, Some((lat_deg, lon_deg))) => ConfigView {
                        endpoint: EndpointView::Sim { lat_deg, lon_deg },
                        ..c
                    },
                    _ => c,
                },
            ),
        )
    }
}

/// What the arguments from `i` on mean.
pub open spec fn parsed(args: Seq<Seq<char>>, i: int, d: DraftView) -> Result<
    OutcomeView,
    Seq<char>,
>
    decreases args.len() - i,
{
    if i >= args.len() {
        concluded(d)
    } else if args[i] == "--help"@ || args[i] == "-h"@ {
        Ok(OutcomeView::Help)
    } else if args[i] == "--journal-chain"@ {
        parsed(
            args,
            i + 1,
            DraftView { config: ConfigView { journal_chain: true, ..d.config }, ..d },
        )
    } else if !takes_value(args[i]) {
        Err("unknown flag '"@ + args[i] + "' (see --help)"@)
    } else if i + 1 >= args.len() {
        Err(args[i] + ": missing value"@)
    } else {
        match value_flag(args[i], args[i + 1], d) {
            Some(Ok(next)) => parsed(args, i + 2, next),
            Some(Err(e)) => Err(e),
            None => Err("unknown flag '"@ + args[i] + "' (see --help)"@),
        }
    }
}

/// The state before the first flag.
pub open spec fn blank() -> DraftView {
    DraftView { config: defaults(), sim_origin: None }
}

// ---------------------------------------------------------------------------
// parsing
// ---------------------------------------------------------------------------

/// What the flags read so far set.
#[derive(Debug)]
struct Draft {
    config: AgentConfig,
    sim_origin: Option<(String, String)>,
}

impl View for Draft {
    type V = DraftView;

    closed spec fn view(&self) -> DraftView {
        DraftView {
            config: self.config@,
            sim_origin: match self.sim_origin {
                Some(p) => Some((p.0@, p.1@)),
                None => None,
            },
        }
    }
}

fn quoted(head: &str, got: &str) -> (r: String)
    ensures
        r@ == head@ + got@ + "'"@,
{
    let mut s = cat(head, got);
    s.append("'");
    s
}

fn pair_error(flag: &str, sep: char, got: &str) -> (r: String)
    ensures
        r@ == no_pair(flag@, sep, got@),
{
    let mut s = cat(flag, ": expected '<..>");
    s.push(sep);
    s.append("<..>', got '");
    s.append(got);
    s.append("'");
    assert(s@ =~= no_pair(flag@, sep, got@));
    s
}

/// The refusal of a text that is not a number; `None` for a number.
fn check_number(s: &str, flag: &str) -> (r: Option<String>)
    ensures
        r is Some <==> number_error(s@) is Some,
        r matches Some(e) ==> e@ == no_number(flag@, s@),
{
    if !s.is_empty() && is_number(s) {
        return None;
    }
    let mut e = cat(flag, ": bad number '");
    e.append(s);
    e.append("': ");
    if s.is_empty() {
        e.append("cannot parse float from empty string");
    } else {
        e.append("invalid float literal");
    }
    Some(e)
}

/// The refusal of a text that is not a socket address; `None` for an address.
fn check_address(s: &str, flag: &str) -> (r: Option<String>)
    ensures
        r is None <==> socket_address(s@),
        r matches Some(e) ==> e@ == no_address(flag@, s@),
{
    if is_socket_address(s) {
        return None;
    }
    let mut e = cat(flag, ": bad socket address '");
    e.append(s);
    e.append("': invalid socket address syntax");
    assert(e@ =~= no_address(flag@, s@));
    Some(e)
}

impl Draft {
    /// Add the face between the two addresses of `pair`.
    fn link(&mut self, flag: &str, pair: &str, route: Option<String>) -> (r: Result<(), String>)
        ensures
            match r {
                Ok(_) => linked(old(self)@, flag@, pair@, opt(route)) == Ok::<
                    DraftView,
                    Seq<char>,
                >(final(self)@),
                Err(e) => linked(old(self)@, flag@, pair@, opt(route)) == Err::<
                    DraftView,
                    Seq<char>,
                >(e@) && final(self)@ == old(self)@,
            },
    {
        match split_once(pair, ',') {
            None => Err(pair_error(flag, ',', pair)),
            Some((local, remote)) => {
                if let Some(e) = check_address(local.as_str(), flag) {
                    return Err(e);
                }
                if let Some(e) = check_address(remote.as_str(), flag) {
                    return Err(e);
                }
                let ghost before = self.config.links@;
                let l = UdpLink { local, remote, route };
                self.config.links.push(l);
                assert(link_views(self.config.links@) =~= link_views(before).push(l@));
                Ok(())
            },
        }
    }

    /// Set a number; `None` when the flag takes no number.
    fn set_number(&mut self, flag: &str, value: &str) -> (r: Option<Result<(), String>>)
        ensures
            r is Some <==> number_flag(flag@, value@, old(self)@.config) is Some,
            r matches Some(Ok(_)) ==> number_error(value@) is None && final(self)@ == (DraftView {
                config: number_flag(flag@, value@, old(self)@.config)->0,
                ..old(self)@
            }),
            r matches Some(Err(e)) ==> number_error(value@) is Some && e@ == no_number(
                flag@,
                value@,
            ),
            !(r matches Some(Ok(_))) ==> final(self)@ == old(self)@,
    {
        let known = 
            same(flag, "--telemetry-hz")
            || same(flag, "--max-range-m")
            || same(flag, "--min-agl-m")
            || same(flag, "--max-agl-m")
            || same(flag, "--audio-range-m")
            || same(flag, "--hsep-m")
            || same(flag, "--vsep-m")
            || same(flag, "--horizon-s")
            || same(flag, "--grace-s")
            || same(flag, "--rtl-base-agl-m")
            || same(flag, "--rtl-sep-m")
            || same(flag, "--floor-agl-m");
        if !known {
            return None;
        }
        if let Some(e) = check_number(value, flag) {
            return Some(Err(e));
        }
        let text = value.to_owned();
        if same(flag, "--telemetry-hz") {
            self.config.telemetry_hz = text;
        } else if same(flag, "--max-range-m") {
            self.config.max_range_m = text;
        } else if same(flag, "--min-agl-m") {
            self.config.min_agl_m = text;
        } else if same(flag, "--max-agl-m") {
            self.config.max_agl_m = text;
        } else if same(flag, "--audio-range-m") {
            self.config.audio_range_m = text;
        } else if same(flag, "--hsep-m") {
            self.config.hsep_m = text;
        } else if same(flag, "--vsep-m") {
            self.config.vsep_m = text;
        } else if same(flag, "--horizon-s") {
            self.config.horizon_s = text;
        } else if same(flag, "--grace-s") {
            self.config.grace_s = text;
        } else if same(flag, "--rtl-base-agl-m") {
            self.config.rtl_base_agl_m = text;
        } else if same(flag, "--rtl-sep-m") {
            self.config.rtl_sep_m = text;
        } else {
            self.config.floor_agl_m = Some(text);
        }
        Some(Ok(()))
    }

    /// Set a text; false when the flag takes no plain text.
    fn set_text(&mut self, flag: &str, value: &str) -> (r: bool)
        ensures
            r == (text_flag(flag@, value@, old(self)@.config) is Some),
            r ==> final(self)@ == (DraftView {
                config: text_flag(flag@, value@, old(self)@.config)->0,
                ..old(self)@
            }),
            !r ==> final(self)@ == old(self)@,
    {
        if same(flag, "--vehicle-id") {
            self.config.vehicle_id = value.to_owned();
        } else if same(flag, "--fleet-ids") {
            self.config.fleet_ids = split_pieces(value, ',');
        } else if same(flag, "--extras") {
            self.config.extras = split_pieces(value, ',');
        } else if same(flag, "--run-id") {
            self.config.run_id = Some(value.to_owned());
        } else if same(flag, "--log-dir") {
            self.config.log_dir = Some(value.to_owned());
        } else {
            return false;
        }
        true
    }

    /// Set an address; `None` when the flag takes no single address.
    fn set_address(&mut self, flag: &str, value: &str) -> (r: Option<Result<(), String>>)
        ensures
            r is Some <==> address_flag(flag@, value@, old(self)@.config) is Some,
            r matches Some(Ok(_)) ==> socket_address(value@) && final(self)@ == (DraftView {
                config: address_flag(flag@, value@, old(self)@.config)->0,
                ..old(self)@
            }),
            r matches Some(Err(e)) ==> !socket_address(value@) && e@ == no_address(flag@, value@),
            !(r matches Some(Ok(_))) ==> final(self)@ == old(self)@,
    {
        let known = same(flag, "--ndnsf-listen") || same(flag, "--ndnsf-peer") || same(
            flag,
            "--spark-udp",
        );
        if !known {
            return None;
        }
        if let Some(e) = check_address(value, flag) {
            return Some(Err(e));
        }
        if same(flag, "--ndnsf-listen") {
            self.config.ndnsf_listen = Some(value.to_owned());
        } else if same(flag, "--ndnsf-peer") {
            let peer = value.to_owned();
            proof {
                crate::text::lemma_views_push(self.config.ndnsf_peers@, peer);
            }
            self.config.ndnsf_peers.push(peer);
        } else {
            self.config.spark_udp = Some(value.to_owned());
        }
        Some(Ok(()))
    }

    /// Pick a word; `None` when the flag offers no choice.
    fn set_choice(&mut self, flag: &str, value: &str) -> (r: Option<Result<(), String>>)
        ensures
            match r {
                None => choice_flag(flag@, value@, old(self)@.config) is None && final(self)@
                    == old(self)@,
                Some(Ok(_)) => choice_flag(flag@, value@, old(self)@.config) == Some(
                    Ok::<ConfigView, Seq<char>>(final(self)@.config),
                ) && final(self)@ == (DraftView {
                    config: final(self)@.config,
                    ..old(self)@
                }),
                Some(Err(e)) => choice_flag(flag@, value@, old(self)@.config) == Some(
                    Err::<ConfigView, Seq<char>>(e@),
                ) && final(self)@ == old(self)@,
            },
    {
        if same(flag, "--endpoint") {
            if same(value, "sim") {
                self.config.endpoint = sim_default();
                return Some(Ok(()));
            }
            if let Some(ep) = strip_prefix(value, "mavlink:") {
                assert(ep@ =~= value@.skip("mavlink:"@.len() as int));
                if !ep.is_empty() {
                    self.config.endpoint = Endpoint::Mavlink(ep.to_owned());
                    return Some(Ok(()));
                }
            }
            return Some(
                Err(quoted("--endpoint: expected 'sim' or 'mavlink:<endpoint>', got '", value)),
            );
        }
        if same(flag, "--carrier") {
            if same(value, "rpc") {
                self.config.carrier = CarrierKind::Rpc;
                return Some(Ok(()));
            }
            if same(value, "ndnsf") {
                self.config.carrier = CarrierKind::Ndnsf;
                return Some(Ok(()));
            }
            return Some(Err(quoted("--carrier: expected rpc|ndnsf, got '", value)));
        }
        if same(flag, "--idle-policy") {
            return match IdlePolicy::parse(value) {
                Ok(policy) => {
                    self.config.idle_policy = policy;
                    Some(Ok(()))
                },
                Err(e) => Some(Err(e)),
            };
        }
        if same(flag, "--sensor-feed") {
            if same(value, "none") {
                self.config.sensor_feed = FeedChoice::Absent;
                return Some(Ok(()));
            }
            if same(value, "synthetic") {
                self.config.sensor_feed = FeedChoice::Synthetic;
                return Some(Ok(()));
            }
            return Some(Err(quoted("--sensor-feed: expected none|synthetic, got '", value)));
        }
        None
    }

    /// Add a face; `None` when the flag adds none.
    fn add_link(&mut self, flag: &str, value: &str) -> (r: Option<Result<(), String>>)
        ensures
            match r {
                None => link_flag(flag@, value@, old(self)@) is None && final(self)@ == old(self)@,
                Some(Ok(_)) => link_flag(flag@, value@, old(self)@) == Some(
                    Ok::<DraftView, Seq<char>>(final(self)@),
                ),
                Some(Err(e)) => link_flag(flag@, value@, old(self)@) == Some(
                    Err::<DraftView, Seq<char>>(e@),
                ) && final(self)@ == old(self)@,
            },
    {
        if same(flag, "--peer") {
            return match split_once(value, '=') {
                None => Some(Err(pair_error(flag, '=', value))),
                Some((vid, addrs)) => {
                    let route = vehicle_prefix(vid.as_str());
                    Some(self.link(flag, addrs.as_str(), Some(route)))
                },
            };
        }
        if same(flag, "--forwarder") {
            return Some(self.link(flag, value, Some(APP_PREFIX.to_owned())));
        }
        if same(flag, "--link") {
            return Some(self.link(flag, value, None));
        }
        None
    }

    /// Apply a flag with its value; `None` = there is no such flag.
    fn apply(&mut self, flag: &str, value: &str) -> (r: Option<Result<(), String>>)
        ensures
            match r {
                None => value_flag(flag@, value@, old(self)@) is None && final(self)@
                    == old(self)@,
                Some(Ok(_)) => value_flag(flag@, value@, old(self)@) == Some(
                    Ok::<DraftView, Seq<char>>(final(self)@),
                ),
                Some(Err(e)) => value_flag(flag@, value@, old(self)@) == Some(
                    Err::<DraftView, Seq<char>>(e@),
                ) && final(self)@ == old(self)@,
            },
    {
        if self.set_text(flag, value) {
            return Some(Ok(()));
        }
        if let Some(r) = self.set_choice(flag, value) {
            return Some(r);
        }
        if same(flag, "--sim-origin") {
            return match split_once(value, ',') {
                None => Some(Err(pair_error(flag, ',', value))),
                Some((lat, lon)) => {
                    if let Some(e) = check_number(lat.as_str(), flag) {
                        return Some(Err(e));
                    }
                    if let Some(e) = check_number(lon.as_str(), flag) {
                        return Some(Err(e));
                    }
                    self.sim_origin = Some((lat, lon));
                    Some(Ok(()))
                },
            };
        }
        if let Some(r) = self.set_number(flag, value) {
            return Some(r);
        }
        if let Some(r) = self.set_address(flag, value) {
            return Some(r);
        }
        self.add_link(flag, value)
    }

    /// The checks after the last flag.
    fn conclude(self) -> (r: Result<ParseOutcome, String>)
        ensures
            match r {
                Ok(o) => concluded(self@) == Ok::<OutcomeView, Seq<char>>(o@),
                Err(e) => concluded(self@) == Err::<OutcomeView, Seq<char>>(e@),
            },
    {
        let Draft { config, sim_origin } = self;
        let mut config = config;
        if config.vehicle_id.as_str().is_empty() {
            return Err("--vehicle-id is required (see --help)".to_owned());
        }
        if config.carrier == CarrierKind::Ndnsf && config.ndnsf_listen.is_none() {
            return Err("--carrier ndnsf requires --ndnsf-listen (see --help)".to_owned());
        }
        let sim = match config.endpoint {
            Endpoint::Sim { .. } => true,
            Endpoint::Mavlink(_) => false,
        };
        if sim {
            if let Some((lat_deg, lon_deg)) = sim_origin {
                config.endpoint = Endpoint::Sim { lat_deg, lon_deg };
            }
        }
        Ok(ParseOutcome::Run(Box::new(config)))
    }
}

/// The text is a flag that takes a value.
fn is_value_flag(flag: &str) -> (r: bool)
    ensures
        r == takes_value(flag@),
{
    let mut d = Draft { config: AgentConfig::default(), sim_origin: None };
    assert(d@ =~= blank());
    let r = d.apply(flag, "");
    proof {
        reveal_strlit("");
        assert(""@ =~= Seq::<char>::empty());
    }
    r.is_some()
}

/// Whether a text is a flag does not depend on the value or on what was read
/// before.
pub proof fn flags_are_known_by_name(
    flag: Seq<char>,
    a: Seq<char>,
    b: Seq<char>,
    d: DraftView,
    e: DraftView,
)
    ensures
        value_flag(flag, a, d) is Some <==> value_flag(flag, b, e) is Some,
{
}

/// Parse the arguments, without the program name.
pub fn parse_args(args: &[String]) -> (r: Result<ParseOutcome, String>)
    ensures
        match r {
            Ok(o) => parsed(views(args@), 0, blank()) == Ok::<OutcomeView, Seq<char>>(o@),
            Err(e) => parsed(views(args@), 0, blank()) == Err::<OutcomeView, Seq<char>>(e@),
        },
{
    let mut d = Draft { config: AgentConfig::default(), sim_origin: None };
    assert(d@ =~= blank());
    let ghost all = views(args@);
    let mut i: usize = 0;
    while i < args.len()
        invariant
            i <= args@.len(),
            all == views(args@),
            parsed(all, 0, blank()) == parsed(all, i as int, d@),
        decreases args@.len() - i,
    {
        let arg = args[i].as_str();
        assert(arg@ == all[i as int]);
        if same(arg, "--help") || same(arg, "-h") {
            return Ok(ParseOutcome::Help);
        }
        if same(arg, "--journal-chain") {
            d.config.journal_chain = true;
            i = i + 1;
            continue;
        }
        if !is_value_flag(arg) {
            let mut e = cat("unknown flag '", arg);
            e.append("' (see --help)");
            return Err(e);
        }
        if i + 1 >= args.len() {
            return Err(cat(arg, ": missing value"));
        }
        let value = args[i + 1].as_str();
        assert(value@ == all[i + 1]);
        match d.apply(arg, value) {
            Some(Ok(_)) => {},
            Some(Err(e)) => {
                return Err(e);
            },
            None => {
                let mut e = cat("unknown flag '", arg);
                e.append("' (see --help)");
                return Err(e);
            },
        }
        i = i + 2;
    }
    d.conclude()
}

/// A help flag that is reached ends the parse with the help, whatever follows.
pub proof fn help_short_circuits(args: Seq<Seq<char>>)
    requires
        args.len() > 0,
        args[0] == "--help"@ || args[0] == "-h"@,
    ensures
        parsed(args, 0, blank()) == Ok::<OutcomeView, Seq<char>>(OutcomeView::Help),
{
}

/// A configuration that a command line gives names its vehicle, and a group
/// carrier comes with an address to listen on.
pub proof fn runs_are_complete(args: Seq<Seq<char>>, i: int, d: DraftView)
    requires
        parsed(args, i, d) is Ok,
        parsed(args, i, d)->Ok_0 is Run,
    ensures
        ({
            let c = parsed(args, i, d)->Ok_0->Run_0;
            &&& c.vehicle_id.len() > 0
            &&& c.carrier == CarrierKind::Ndnsf ==> c.ndnsf_listen is Some
        }),
    decreases args.len() - i,
{
    if i < args.len() {
        if args[i] == "--help"@ || args[i] == "-h"@ {
        } else if args[i] == "--journal-chain"@ {
            runs_are_complete(
                args,
                i + 1,
                DraftView { config: ConfigView { journal_chain: true, ..d.config }, ..d },
            );
        } else if takes_value(args[i]) && i + 1 < args.len() {
            match value_flag(args[i], args[i + 1], d) {
                Some(Ok(next)) => {
                    runs_are_complete(args, i + 2, next);
                },
                _ => {},
            }
        }
    }
}

/// Whether every address of a configuration is one.
pub open spec fn sound_addresses(c: ConfigView) -> bool {
    &&& forall|i: int|
        0 <= i < c.links.len() ==> socket_address((#[trigger] c.links[i]).local) && socket_address(
            c.links[i].remote,
        )
    &&& forall|i: int| 0 <= i < c.ndnsf_peers.len() ==> socket_address(#[trigger] c.ndnsf_peers[i])
    &&& c.ndnsf_listen matches Some(a) ==> socket_address(a)
    &&& c.spark_udp matches Some(a) ==> socket_address(a)
}

/// Every address of a configuration that a command line gives is one.
pub proof fn runs_have_sound_addresses(args: Seq<Seq<char>>)
    requires
        parsed(args, 0, blank()) is Ok,
        parsed(args, 0, blank())->Ok_0 is Run,
    ensures
        sound_addresses(parsed(args, 0, blank())->Ok_0->Run_0),
{
    lemma_flags_keep_addresses_sound(args, 0, blank());
}

proof fn lemma_flags_keep_addresses_sound(args: Seq<Seq<char>>, i: int, d: DraftView)
    requires
        parsed(args, i, d) is Ok,
        parsed(args, i, d)->Ok_0 is Run,
        sound_addresses(d.config),
    ensures
        sound_addresses(parsed(args, i, d)->Ok_0->Run_0),
    decreases args.len() - i,
{
    if i < args.len() {
        if args[i] == "--help"@ || args[i] == "-h"@ {
        } else if args[i] == "--journal-chain"@ {
            lemma_flags_keep_addresses_sound(
                args,
                i + 1,
                DraftView { config: ConfigView { journal_chain: true, ..d.config }, ..d },
            );
        } else if takes_value(args[i]) && i + 1 < args.len() {
            match value_flag(args[i], args[i + 1], d) {
                Some(Ok(next)) => {
                    lemma_flags_keep_addresses_sound(args, i + 2, next);
                },
                _ => {},
            }
        }
    }
}

} // verus!
