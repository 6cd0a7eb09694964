//! Bringing an agent up: what a configuration turns on, the streams it
//! serves, how commands are routed, and the fetches of its coordination.

use vstd::prelude::*;

use crate::agent::{fresh, AgentCommand, AgentShared, AgentView};
use crate::config::{others, AgentConfig, CarrierKind, ConfigView, Endpoint};
use crate::names::{
    under, vehicle_prefix, vehicle_stream, APP_PREFIX, RC_STATUS_STREAM, TASK_QUEUE_STREAM,
};
use crate::policy::AglBounds;
use crate::quantity::Quantity;
use crate::queue_model::{VehicleView, DEFAULT_QUEUE_DEPTH, RTL};
use crate::services::copy_strings;
use crate::text::{cat, same, views};

verus! {

/// Commands into the coordination loop.
#[derive(Clone, Copy, Debug, PartialEq, Eq, Structural)]
pub enum RtlCommand {
    /// Start slot-layered smart return-to-launch.
    Engage,
    /// Cancel one in flight.
    Abort,
}

/// Where a command goes.
#[derive(Clone, Copy, Debug, PartialEq, Eq, Structural)]
pub enum Routed {
    /// To the coordination loop, when there is one.
    Coordination(RtlCommand),
    /// Journal the shutdown and cancel everything.
    Stop,
}

/// What a configuration turns on.
#[derive(Debug)]
pub struct BringUp {
    /// Name of the flight back end.
    pub source: &'static str,
    /// Name of the service carrier.
    pub carrier: &'static str,
    /// Prefix that the services live under.
    pub service_prefix: String,
    /// Names of the latest-wins streams.
    pub streams: Vec<String>,
    /// The bench vehicle moves on a local clock.
    pub motion_clock: bool,
    /// Peers to coordinate with.
    pub peers: Vec<String>,
    /// Coordination runs.
    pub coordination: bool,
    /// Smart return-to-launch is available to the services.
    pub smart_rtl: bool,
    /// The vehicle holds an altitude slot.
    pub slot: bool,
    /// A microphone is advertised.
    pub has_audio: bool,
}

/// The latest-wins streams of a vehicle.
pub open spec fn stream_paths() -> Seq<Seq<char>> {
    seq![
        "telemetry/live"@,
        "telemetry/state"@,
        "search/status"@,
        "coord/status"@,
        "video/live"@,
        "sensor/last"@,
        TASK_QUEUE_STREAM@,
        RC_STATUS_STREAM@,
    ]
}

/// The names of the latest-wins streams of a vehicle.
pub open spec fn stream_names(vehicle_id: Seq<char>) -> Seq<Seq<char>> {
    stream_paths().map_values(|p: Seq<char>| under(under(APP_PREFIX@, vehicle_id), p))
}

/// A group carrier without an address to listen on.
pub open spec fn refused(c: ConfigView) -> bool {
    c.carrier == CarrierKind::Ndnsf && c.ndnsf_listen is None
}

/// What a configuration turns on.
pub open spec fn planned(c: ConfigView, b: BringUp) -> bool {
    let peers = others(c.fleet_ids, c.vehicle_id);
    let has_slot = c.fleet_ids.contains(c.vehicle_id);
    &&& b.source@ == (if c.endpoint is Sim {
        "sim"@
    } else {
        "mavlink"@
    })
    &&& b.carrier@ == (if c.carrier == CarrierKind::Rpc {
        "rpc"@
    } else {
        "ndnsf"@
    })
    &&& b.service_prefix@ == under(APP_PREFIX@, c.vehicle_id)
    &&& views(b.streams@) == stream_names(c.vehicle_id)
    &&& b.motion_clock == (c.endpoint is Sim)
    &&& views(b.peers@) == peers
    &&& b.coordination == (c.fleet_ids.len() > 0)
    &&& b.slot == has_slot
    &&& b.smart_rtl == (has_slot && peers.len() > 0)
    &&& b.has_audio == c.extras.contains("audio"@)
}

/// The rails of a vehicle.
#[derive(Debug)]
pub struct Rails {
    pub agl_bounds: AglBounds,
    pub max_range_m: Quantity,
    pub audio_range_m: Quantity,
}

/// An agent: its configuration decides what runs.
#[derive(Clone, Copy, Debug, PartialEq, Eq, Structural)]
pub struct Agent {}

impl Agent {
    /// What a configuration turns on. A group carrier needs an address to
    /// listen on.
    pub fn plan(config: &AgentConfig) -> (r: Result<BringUp, String>)
        ensures
            match r {
                Err(e) => refused(config@) && e@ == "--carrier ndnsf requires --ndnsf-listen"@,
                Ok(b) => !refused(config@) && planned(config@, b),
            },
    {
        if config.carrier == CarrierKind::Ndnsf && config.ndnsf_listen.is_none() {
            return Err("--carrier ndnsf requires --ndnsf-listen".to_owned());
        }
        let sim = match config.endpoint {
            Endpoint::Sim { .. } => true,
            Endpoint::Mavlink(_) => false,
        };
        let peers = config.peer_ids();
        assert(views(peers@).len() == peers@.len());
        assert(config@.fleet_ids.len() == config.fleet_ids@.len());
        let slot = config.smart_rtl_available();
        let smart_rtl = slot && peers.len() > 0;
        let mut has_audio = false;
        let mut i: usize = 0;
        while i < config.extras.len()
            invariant
                i <= config.extras@.len(),
                has_audio == views(config.extras@).take(i as int).contains("audio"@),
            decreases config.extras@.len() - i,
        {
            let ghost done = views(config.extras@).take(i as int);
            let ghost more = views(config.extras@).take(i + 1);
            assert(more =~= done.push(config.extras@[i as int]@));
            assert(more[i as int] == config.extras@[i as int]@);
            proof {
                if done.contains("audio"@) {
                    let j = choose|j: int| 0 <= j < done.len() && done[j] == "audio"@;
                    assert(more[j] == "audio"@);
                }
                if more.contains("audio"@) && config.extras@[i as int]@ != "audio"@ {
                    let j = choose|j: int| 0 <= j < more.len() && more[j] == "audio"@;
                    assert(done[j] == "audio"@);
                }
            }
            if same(config.extras[i].as_str(), "audio") {
                has_audio = true;
            }
            i = i + 1;
        }
        assert(views(config.extras@).take(i as int) =~= views(config.extras@));
        let streams = Agent::stream_list(config.vehicle_id.as_str());
        Ok(
            BringUp {
                source: if sim {
                    "sim"
                } else {
                    "mavlink"
                },
                carrier: if config.carrier == CarrierKind::Rpc {
                    "rpc"
                } else {
                    "ndnsf"
                },
                service_prefix: vehicle_prefix(config.vehicle_id.as_str()),
                streams,
                motion_clock: sim,
                peers,
                coordination: config.fleet_ids.len() > 0,
                smart_rtl,
                slot,
                has_audio,
            },
        )
    }

    /// Bring an agent up: what runs, and the idle vehicle that it starts
    /// with, under the configured rails.
    pub fn start(config: &AgentConfig, rails: Rails, sensor_feed: bool) -> (r: Result<
        (BringUp, AgentShared),
        String,
    >)
        ensures
            match r {
                Err(e) => refused(config@) && e@ == "--carrier ndnsf requires --ndnsf-listen"@,
                Ok((b, a)) => {
                    &&& !refused(config@)
                    &&& planned(config@, b)
                    &&& a@ == fresh()
                    &&& a.valid()
                    &&& a.vehicle_id@ == config@.vehicle_id
                    &&& views(a.extras@) == config@.extras
                    &&& a.queue_enabled
                    &&& a.queue_depth == DEFAULT_QUEUE_DEPTH == 4
                    &&& a.agl_bounds == rails.agl_bounds
                    &&& a.max_range_m == rails.max_range_m
                    &&& a.audio_range_m == rails.audio_range_m
                    &&& a.smart_rtl == b.smart_rtl
                    &&& a.sensor_feed == sensor_feed
                },
            },
    {
        match Agent::plan(config) {
            Err(e) => Err(e),
            Ok(b) => {
                let mut a = AgentShared::bench(config.vehicle_id.as_str());
                a.extras = copy_strings(&config.extras);
                a.agl_bounds = rails.agl_bounds;
                a.max_range_m = rails.max_range_m;
                a.audio_range_m = rails.audio_range_m;
                a.smart_rtl = b.smart_rtl;
                a.sensor_feed = sensor_feed;
                assert(a@ =~= fresh());
                Ok((b, a))
            },
        }
    }

    /// The names of the latest-wins streams of a vehicle.
    pub fn stream_list(vehicle_id: &str) -> (r: Vec<String>)
        ensures
            views(r@) == stream_names(vehicle_id@),
    {
        let mut out: Vec<String> = Vec::new();
        out.push(vehicle_stream(vehicle_id, "telemetry/live"));
        out.push(vehicle_stream(vehicle_id, "telemetry/state"));
        out.push(vehicle_stream(vehicle_id, "search/status"));
        out.push(vehicle_stream(vehicle_id, "coord/status"));
        out.push(vehicle_stream(vehicle_id, "video/live"));
        out.push(vehicle_stream(vehicle_id, "sensor/last"));
        out.push(vehicle_stream(vehicle_id, TASK_QUEUE_STREAM));
        out.push(vehicle_stream(vehicle_id, RC_STATUS_STREAM));
        assert(views(out@) =~= stream_names(vehicle_id@));
        out
    }

    /// Where a command goes.
    pub fn route(command: AgentCommand) -> (r: Routed)
        ensures
            r == (match command {
                AgentCommand::SmartRtl => Routed::Coordination(RtlCommand::Engage),
                AgentCommand::AbortRtl => Routed::Coordination(RtlCommand::Abort),
                AgentCommand::Shutdown => Routed::Stop,
            }),
    {
        match command {
            AgentCommand::SmartRtl => Routed::Coordination(RtlCommand::Engage),
            AgentCommand::AbortRtl => Routed::Coordination(RtlCommand::Abort),
            AgentCommand::Shutdown => Routed::Stop,
        }
    }
}

/// Smart return-to-launch needs a slot of its own and somebody to keep
/// separation from; coordination then runs too.
pub proof fn smart_return_needs_a_fleet(c: ConfigView)
    requires
        c.fleet_ids.contains(c.vehicle_id),
        others(c.fleet_ids, c.vehicle_id).len() > 0,
    ensures
        c.fleet_ids.len() > 1,
{
    lemma_others_len(c.fleet_ids, c.vehicle_id);
}

proof fn lemma_others_len(s: Seq<Seq<char>>, x: Seq<char>)
    ensures
        others(s, x).len() <= s.len(),
        s.contains(x) ==> others(s, x).len() < s.len(),
        !others(s, x).contains(x),
    decreases s.len(),
{
    if s.len() > 0 {
        lemma_others_len(s.drop_last(), x);
        if s.contains(x) && s.last() != x {
            let i = choose|i: int| 0 <= i < s.len() && s[i] == x;
            assert(s.drop_last()[i] == x);
        }
        if s.last() != x {
            let o = others(s.drop_last(), x);
            assert forall|i: int| 0 <= i < o.push(s.last()).len() implies o.push(s.last())[i]
                != x by {
                if i < o.len() {
                    assert(o.contains(o[i]));
                }
            }
        }
    }
}

/// The vehicle is never its own peer.
pub proof fn vehicles_are_not_their_own_peers(c: ConfigView)
    ensures
        !others(c.fleet_ids, c.vehicle_id).contains(c.vehicle_id),
{
    lemma_others_len(c.fleet_ids, c.vehicle_id);
}

// ---------------------------------------------------------------------------
// coordination fetches
// ---------------------------------------------------------------------------

/// What the coordination loop asks the network for.
#[derive(Debug)]
pub enum FetchReq {
    Telemetry(String),
    Coord(String),
}

/// A fetch by its values.
#[verifier::ext_equal]
pub enum FetchView {
    Telemetry(Seq<char>),
    Coord(Seq<char>),
}

impl View for FetchReq {
    type V = FetchView;

    open spec fn view(&self) -> FetchView {
        match self {
            FetchReq::Telemetry(p) => FetchView::Telemetry(p@),
            FetchReq::Coord(p) => FetchView::Coord(p@),
        }
    }
}

/// The views of a list of fetches.
pub open spec fn fetches(v: Seq<FetchReq>) -> Seq<FetchView> {
    v.map_values(|f: FetchReq| f@)
}

/// The stream name that a fetch reads.
pub open spec fn fetch_target(f: FetchView) -> Seq<char> {
    match f {
        FetchView::Telemetry(p) => under(under(APP_PREFIX@, p), "telemetry/live"@),
        FetchView::Coord(p) => under(under(APP_PREFIX@, p), "coord/status"@),
    }
}

/// The items without repetitions, at their first place.
pub open spec fn unique(s: Seq<FetchView>) -> Seq<FetchView>
    decreases s.len(),
{
    if s.len() == 0 {
        s
    } else {
        let rest = unique(s.drop_last());
        if rest.contains(s.last()) {
            rest
        } else {
            rest.push(s.last())
        }
    }
}

impl FetchReq {
    /// The stream name to fetch.
    pub fn name(&self) -> (r: String)
        ensures
            r@ == fetch_target(self@),
    {
        match self {
            FetchReq::Telemetry(p) => vehicle_stream(p.as_str(), "telemetry/live"),
            FetchReq::Coord(p) => vehicle_stream(p.as_str(), "coord/status"),
        }
    }

    fn is_same(&self, other: &FetchReq) -> (r: bool)
        ensures
            r == (self@ == other@),
    {
        match (self, other) {
            (FetchReq::Telemetry(a), FetchReq::Telemetry(b)) => same(a.as_str(), b.as_str()),
            (FetchReq::Coord(a), FetchReq::Coord(b)) => same(a.as_str(), b.as_str()),
            _ => false,
        }
    }
}

/// Coalesce a burst: every target is fetched once, in the order first asked.
pub fn coalesce(burst: Vec<FetchReq>) -> (r: Vec<FetchReq>)
    ensures
        fetches(r@) == unique(fetches(burst@)),
{
    let ghost all = fetches(burst@);
    let mut out: Vec<FetchReq> = Vec::new();
    let mut rest = burst;
    let ghost mut done: int = 0;
    assert(rest@ =~= burst@.skip(0));
    assert(all.take(0) =~= Seq::empty());
    assert(fetches(out@) =~= Seq::empty());
    while rest.len() > 0
        invariant
            0 <= done <= burst@.len(),
            all == fetches(burst@),
            rest@ == burst@.skip(done),
            fetches(out@) == unique(all.take(done)),
        decreases rest@.len(),
    {
        let next = rest.remove(0);
        assert(next == burst@[done]);
        assert(all.take(done + 1).drop_last() =~= all.take(done));
        assert(all.take(done + 1).last() == next@);
        let mut seen = false;
        let mut i: usize = 0;
        while i < out.len()
            invariant
                i <= out@.len(),
                seen == exists|j: int| 0 <= j < i && (#[trigger] out@[j])@ == next@,
            decreases out@.len() - i,
        {
            if out[i].is_same(&next) {
                seen = true;
            }
            i = i + 1;
        }
        proof {
            let u = fetches(out@);
            if seen {
                let j = choose|j: int| 0 <= j < i && (#[trigger] out@[j])@ == next@;
                assert(u[j] == next@);
            } else if u.contains(next@) {
                let j = choose|j: int| 0 <= j < u.len() && u[j] == next@;
                assert(out@[j]@ == next@);
            }
        }
        if !seen {
            let ghost before = out@;
            out.push(next);
            assert(fetches(out@) =~= fetches(before).push(next@));
        }
        proof {
            done = done + 1;
            assert(rest@ =~= burst@.skip(done));
        }
    }
    assert(all.take(done) =~= all);
    out
}

/// Coalescing loses no target and repeats none.
pub proof fn coalescing_keeps_every_target(s: Seq<FetchView>)
    ensures
        unique(s).no_duplicates(),
        forall|f: FetchView| unique(s).contains(f) <==> s.contains(f),
    decreases s.len(),
{
    if s.len() > 0 {
        let d = s.drop_last();
        coalescing_keeps_every_target(d);
        let rest = unique(d);
        assert forall|f: FetchView| unique(s).contains(f) <==> s.contains(f) by {
            if s.contains(f) {
                let i = choose|i: int| 0 <= i < s.len() && s[i] == f;
                if i < d.len() {
                    assert(d[i] == f);
                    assert(d.contains(f));
                    assert(unique(d).contains(f));
                    let j = choose|j: int| 0 <= j < rest.len() && rest[j] == f;
                    assert(unique(s)[j] == f);
                } else if !rest.contains(s.last()) {
                    assert(unique(s)[rest.len() as int] == f);
                }
            }
            if unique(s).contains(f) {
                let j = choose|j: int| 0 <= j < unique(s).len() && unique(s)[j] == f;
                if j < rest.len() {
                    assert(rest[j] == f);
                    assert(d.contains(f));
                    let i = choose|i: int| 0 <= i < d.len() && d[i] == f;
                    assert(s[i] == f);
                } else {
                    assert(s[s.len() - 1] == f);
                }
            }
        }
    }
}

// ---------------------------------------------------------------------------
// the smart return-to-launch of the coordination loop
// ---------------------------------------------------------------------------

/// What a command makes the coordination loop do.
#[derive(Clone, Copy, Debug, PartialEq, Eq, Structural)]
pub enum CoordAct {
    Nothing,
    /// Start a smart return-to-launch.
    Start,
    /// Cancel the one in flight.
    Cancel,
}

/// The coordination loop's view of its return-to-launch.
#[derive(Clone, Copy, Debug, PartialEq, Eq, Structural)]
pub struct CoordLoop {
    /// A smart return-to-launch is in flight.
    pub returning: bool,
}

impl CoordLoop {
    /// Nothing in flight.
    pub fn new() -> (r: Self)
        ensures
            !r.returning,
    {
        CoordLoop { returning: false }
    }

    /// Handle a command: one return at a time, and a cancel needs one.
    pub fn on_command(&mut self, command: RtlCommand) -> (r: CoordAct)
        ensures
            match command {
                RtlCommand::Engage => {
                    &&& final(self).returning
                    &&& r == (if old(self).returning {
                        CoordAct::Nothing
                    } else {
                        CoordAct::Start
                    })
                },
                RtlCommand::Abort => {
                    &&& final(self).returning == old(self).returning
                    &&& r == (if old(self).returning {
                        CoordAct::Cancel
                    } else {
                        CoordAct::Nothing
                    })
                },
            },
    {
        match command {
            RtlCommand::Engage => if self.returning {
                CoordAct::Nothing
            } else {
                self.returning = true;
                CoordAct::Start
            },
            RtlCommand::Abort => if self.returning {
                CoordAct::Cancel
            } else {
                CoordAct::Nothing
            },
        }
    }

    /// The return-to-launch ended: the vehicle is released if it still is the
    /// return's.
    pub fn on_done(&mut self, agent: &mut AgentShared)
        ensures
            !final(self).returning,
            final(agent)@ == (if old(agent)@.v.busy == RTL@ {
                AgentView {
                    v: VehicleView { busy: Seq::empty(), ..old(agent)@.v },
                    ..old(agent)@
                }
            } else {
                old(agent)@
            }),
            final(agent).same_setup(*old(agent)),
    {
        agent.clear_busy(RTL);
        self.returning = false;
    }
}

// ---------------------------------------------------------------------------
// strategy source
// ---------------------------------------------------------------------------

/// Where the active strategy comes from.
#[derive(Debug)]
pub enum StrategySource {
    /// The shipped reference scenario.
    Reference,
    /// Every strategy envelope in this directory.
    ChainDir(String),
}

impl StrategySource {
    /// `reference` selects the shipped scenario; anything else is a directory.
    pub fn parse(value: &str) -> (r: Self)
        ensures
            r is Reference <==> value@ == "reference"@,
            r matches StrategySource::ChainDir(dir) ==> dir@ == value@,
    {
        if same(value, "reference") {
            StrategySource::Reference
        } else {
            StrategySource::ChainDir(value.to_owned())
        }
    }
}

/// The journaled form of a strategy source.
pub fn strategy_label(source: &Option<StrategySource>) -> (r: String)
    ensures
        r@ == (match source {
            None => "defaults"@,
            Some(StrategySource::Reference) => "reference"@,
            Some(StrategySource::ChainDir(dir)) => "chain-dir:"@ + dir@,
        }),
{
    match source {
        None => "defaults".to_owned(),
        Some(StrategySource::Reference) => "reference".to_owned(),
        Some(StrategySource::ChainDir(dir)) => cat("chain-dir:", dir.as_str()),
    }
}

} // verus!
