//! The operator's lens: the settings that shaped the outcomes first, detail
//! second, Block provenance behind drawers and row tooltips.

use vstd::prelude::*;

use crate::blocks::{citation_views, BlockRef, DatumKind};
use crate::dataset::{
    cited_blocks, has_prefix, label_of, named_vehicles, section_citations, shown, text_or, Datum,
    DatumView, MissionDataset,
};
use crate::json::{field, figure_of, flag_of, text_of, Figure, FigureView};
use crate::metrics::{
    battery_view, measures, metrics, metrics_of, summary_views, Measured, MeasuredView, Pctl,
    PctlView, SpanPctl, VehicleSummary, VehicleView,
};
use crate::render::{
    assoc_line, assoc_text, clock_text, config_panel, drawer_of, esc, escaped, key_texts, page,
    page_of, panel_of, prov_drawer, t_rel, RenderedArtifact,
};
use crate::text::{cat, dec, dec_text, join, joined, same, starts_with, views};
use crate::text_map::{sort_texts, sorted_texts};

verus! {

/// The head of the report.
pub open spec fn heading_html(
    label: Seq<char>,
    vehicles: nat,
    duration: Seq<char>,
    data: nat,
    blocks: nat,
    chains: nat,
) -> Seq<char> {
    "<h1>Mission report — "@
        + label
        + "</h1><p class=\"sub\">"@
        + dec_text(vehicles)
        + " vehicle(s) · "@
        + duration
        + " s window · "@
        + dec_text(data)
        + " data · "@
        + dec_text(blocks)
        + " blocks across "@
        + dec_text(chains)
        + " chains</p>"@
}

fn heading(
    label: &str,
    vehicles: u64,
    duration: &str,
    data: u64,
    blocks: u64,
    chains: u64,
) -> (r: String)
    ensures
        r@ == heading_html(
            label@,
            vehicles as nat,
            duration@,
            data as nat,
            blocks as nat,
            chains as nat,
        ),
{
    let mut s = "<h1>Mission report — ".to_owned();
    s.append(label);
    s.append("</h1><p class=\"sub\">");
    s.append(dec(vehicles).as_str());
    s.append(" vehicle(s) · ");
    s.append(duration);
    s.append(" s window · ");
    s.append(dec(data).as_str());
    s.append(" data · ");
    s.append(dec(blocks).as_str());
    s.append(" blocks across ");
    s.append(dec(chains).as_str());
    s.append(" chains</p>");
    s
}

/// A row of the coordination table.
pub open spec fn coord_row_html(
    hash: Seq<char>,
    chain: Seq<char>,
    seq: nat,
    t: Seq<char>,
    vehicle: Seq<char>,
    label: Seq<char>,
    peer: Seq<char>,
    bias: Seq<char>,
) -> Seq<char> {
    "<tr title=\"block "@
        + hash
        + " · "@
        + chain
        + " seq "@
        + dec_text(seq)
        + "\"><td>"@
        + t
        + "</td><td>"@
        + vehicle
        + "</td><td>"@
        + label
        + "</td><td>"@
        + peer
        + "</td><td>"@
        + bias
        + "</td></tr>"@
}

fn coord_row(
    hash: &str,
    chain: &str,
    seq: u64,
    t: &str,
    vehicle: &str,
    label: &str,
    peer: &str,
    bias: &str,
) -> (r: String)
    ensures
        r@ == coord_row_html(hash@, chain@, seq as nat, t@, vehicle@, label@, peer@, bias@),
{
    let mut s = "<tr title=\"block ".to_owned();
    s.append(hash);
    s.append(" · ");
    s.append(chain);
    s.append(" seq ");
    s.append(dec(seq).as_str());
    s.append("\"><td>");
    s.append(t);
    s.append("</td><td>");
    s.append(vehicle);
    s.append("</td><td>");
    s.append(label);
    s.append("</td><td>");
    s.append(peer);
    s.append("</td><td>");
    s.append(bias);
    s.append("</td></tr>");
    s
}

/// The coordination section around its parts.
pub open spec fn coordination_html(
    assoc: Seq<char>,
    coop: nat,
    total: nat,
    rate: Seq<char>,
    bias: Seq<char>,
    rtl: Seq<char>,
    rows: Seq<char>,
    prov: Seq<char>,
) -> Seq<char> {
    "<section class=\"card\"><h2>Coordination</h2><p class=\"assoc\">"@
        + assoc
        + "</p><p>Cooperative avoidance succeeded in <strong>"@
        + dec_text(coop)
        + "</strong> of <strong>"@
        + dec_text(total)
        + "</strong> episodes ("@
        + rate
        + "); max vertical bias "@
        + bias
        + ". Smart RTL: "@
        + rtl
        + ".</p><div \
         class=\"overflow\"><table><thead><tr><th>t</th><th>vehicle</th><th>event</th><th>peer</th><th>bias</th></tr></thead><tbody>"@
        + rows
        + "</tbody></table></div>"@
        + prov
        + "</section>"@
}

fn coordination(
    assoc: &str,
    coop: u64,
    total: u64,
    rate: &str,
    bias: &str,
    rtl: &str,
    rows: &str,
    prov: &str,
) -> (r: String)
    ensures
        r@ == coordination_html(
            assoc@,
            coop as nat,
            total as nat,
            rate@,
            bias@,
            rtl@,
            rows@,
            prov@,
        ),
{
    let mut s = "<section class=\"card\"><h2>Coordination</h2><p class=\"assoc\">".to_owned();
    s.append(assoc);
    s.append("</p><p>Cooperative avoidance succeeded in <strong>");
    s.append(dec(coop).as_str());
    s.append("</strong> of <strong>");
    s.append(dec(total).as_str());
    s.append("</strong> episodes (");
    s.append(rate);
    s.append("); max vertical bias ");
    s.append(bias);
    s.append(". Smart RTL: ");
    s.append(rtl);
    s.append(
        ".</p><div \
         class=\"overflow\"><table><thead><tr><th>t</th><th>vehicle</th><th>event</th><th>peer</th><th>bias</th></tr></thead><tbody>",
    );
    s.append(rows);
    s.append("</tbody></table></div>");
    s.append(prov);
    s.append("</section>");
    s
}

/// A row of the timeline.
pub open spec fn event_row_html(
    hash: Seq<char>,
    chain: Seq<char>,
    seq: nat,
    t: Seq<char>,
    vehicle: Seq<char>,
    label: Seq<char>,
    detail: Seq<char>,
) -> Seq<char> {
    "<tr title=\"block "@
        + hash
        + " · "@
        + chain
        + " seq "@
        + dec_text(seq)
        + "\"><td>"@
        + t
        + "</td><td>"@
        + vehicle
        + "</td><td>"@
        + label
        + "</td><td>"@
        + detail
        + "</td></tr>"@
}

fn event_row(
    hash: &str,
    chain: &str,
    seq: u64,
    t: &str,
    vehicle: &str,
    label: &str,
    detail: &str,
) -> (r: String)
    ensures
        r@ == event_row_html(hash@, chain@, seq as nat, t@, vehicle@, label@, detail@),
{
    let mut s = "<tr title=\"block ".to_owned();
    s.append(hash);
    s.append(" · ");
    s.append(chain);
    s.append(" seq ");
    s.append(dec(seq).as_str());
    s.append("\"><td>");
    s.append(t);
    s.append("</td><td>");
    s.append(vehicle);
    s.append("</td><td>");
    s.append(label);
    s.append("</td><td>");
    s.append(detail);
    s.append("</td></tr>");
    s
}

/// The timeline section around its parts.
pub open spec fn timeline_html(
    ops: nat,
    rejected: nat,
    airborne: nat,
    attempts: nat,
    rows: Seq<char>,
    prov: Seq<char>,
) -> Seq<char> {
    "<section class=\"card\"><h2>Mission timeline</h2><p class=\"note\">Services \
         journaled: "@
        + dec_text(ops)
        + " ("@
        + dec_text(rejected)
        + " rejected) · takeoffs "@
        + dec_text(airborne)
        + "/"@
        + dec_text(attempts)
        + ". Hover a row for its source Block.</p><div \
         class=\"overflow\"><table><thead><tr><th>t</th><th>vehicle</th><th>event</th><th>detail</th></tr></thead><tbody>"@
        + rows
        + "</tbody></table></div>"@
        + prov
        + "</section>"@
}

fn timeline(
    ops: u64,
    rejected: u64,
    airborne: u64,
    attempts: u64,
    rows: &str,
    prov: &str,
) -> (r: String)
    ensures
        r@ == timeline_html(
            ops as nat,
            rejected as nat,
            airborne as nat,
            attempts as nat,
            rows@,
            prov@,
        ),
{
    let mut s = "<section class=\"card\"><h2>Mission timeline</h2><p \
                 class=\"note\">Services journaled: ".to_owned();
    s.append(dec(ops).as_str());
    s.append(" (");
    s.append(dec(rejected).as_str());
    s.append(" rejected) · takeoffs ");
    s.append(dec(airborne).as_str());
    s.append("/");
    s.append(dec(attempts).as_str());
    s.append(
        ". Hover a row for its source Block.</p><div \
         class=\"overflow\"><table><thead><tr><th>t</th><th>vehicle</th><th>event</th><th>detail</th></tr></thead><tbody>",
    );
    s.append(rows);
    s.append("</tbody></table></div>");
    s.append(prov);
    s.append("</section>");
    s
}

/// A row of the flight summary.
pub open spec fn flight_row_html(
    vehicle: Seq<char>,
    samples: nat,
    agl: Seq<char>,
    speed: Seq<char>,
    battery: Seq<char>,
    modes: Seq<char>,
) -> Seq<char> {
    "<tr><td>"@
        + vehicle
        + "</td><td>"@
        + dec_text(samples)
        + "</td><td>"@
        + agl
        + " m</td><td>"@
        + speed
        + " m/s</td><td>"@
        + battery
        + "</td><td>"@
        + modes
        + "</td></tr>"@
}

fn flight_row(
    vehicle: &str,
    samples: u64,
    agl: &str,
    speed: &str,
    battery: &str,
    modes: &str,
) -> (r: String)
    ensures
        r@ == flight_row_html(vehicle@, samples as nat, agl@, speed@, battery@, modes@),
{
    let mut s = "<tr><td>".to_owned();
    s.append(vehicle);
    s.append("</td><td>");
    s.append(dec(samples).as_str());
    s.append("</td><td>");
    s.append(agl);
    s.append(" m</td><td>");
    s.append(speed);
    s.append(" m/s</td><td>");
    s.append(battery);
    s.append("</td><td>");
    s.append(modes);
    s.append("</td></tr>");
    s
}

/// The flight summary around its parts.
pub open spec fn flights_html(assoc: Seq<char>, rows: Seq<char>, prov: Seq<char>) -> Seq<char> {
    "<section class=\"card\"><h2>Flight summary</h2><p class=\"assoc\">"@
        + assoc
        + "</p><div \
         class=\"overflow\"><table><thead><tr><th>vehicle</th><th>samples</th><th>max \
         AGL</th><th>max speed</th><th>battery</th><th>modes</th></tr></thead><tbody>"@
        + rows
        + "</tbody></table></div>"@
        + prov
        + "</section>"@
}

fn flights(assoc: &str, rows: &str, prov: &str) -> (r: String)
    ensures
        r@ == flights_html(assoc@, rows@, prov@),
{
    let mut s = "<section class=\"card\"><h2>Flight summary</h2><p class=\"assoc\">".to_owned();
    s.append(assoc);
    s.append(
        "</p><div \
         class=\"overflow\"><table><thead><tr><th>vehicle</th><th>samples</th><th>max \
         AGL</th><th>max speed</th><th>battery</th><th>modes</th></tr></thead><tbody>",
    );
    s.append(rows);
    s.append("</tbody></table></div>");
    s.append(prov);
    s.append("</section>");
    s
}

/// A row of the link table.
pub open spec fn gap_row_html(vehicle: Seq<char>, gaps: Seq<char>) -> Seq<char> {
    "<tr><td>"@
        + vehicle
        + "</td><td>"@
        + gaps
        + "</td></tr>"@
}

pub(crate) fn gap_row(vehicle: &str, gaps: &str) -> (r: String)
    ensures
        r@ == gap_row_html(vehicle@, gaps@),
{
    let mut s = "<tr><td>".to_owned();
    s.append(vehicle);
    s.append("</td><td>");
    s.append(gaps);
    s.append("</td></tr>");
    s
}

/// Percentiles with their number of samples.
pub open spec fn spread_html(p50: Seq<char>, p95: Seq<char>, n: nat) -> Seq<char> {
    p50
        + " / "@
        + p95
        + " ms (n="@
        + dec_text(n)
        + ")"@
}

fn spread(p50: &str, p95: &str, n: u64) -> (r: String)
    ensures
        r@ == spread_html(p50@, p95@, n as nat),
{
    let mut s = p50.to_owned();
    s.append(" / ");
    s.append(p95);
    s.append(" ms (n=");
    s.append(dec(n).as_str());
    s.append(")");
    s
}

/// The link section around its parts.
pub open spec fn links_html(
    assoc: Seq<char>,
    lines: Seq<char>,
    rows: Seq<char>,
    prov: Seq<char>,
) -> Seq<char> {
    "<section class=\"card\"><h2>Network &amp; link</h2><p class=\"assoc\">"@
        + assoc
        + "</p><p>"@
        + lines
        + "</p><div class=\"overflow\"><table><thead><tr><th>vehicle</th><th>telemetry \
         inter-arrival p50/p95</th></tr></thead><tbody>"@
        + rows
        + "</tbody></table></div>"@
        + prov
        + "</section>"@
}

fn links(assoc: &str, lines: &str, rows: &str, prov: &str) -> (r: String)
    ensures
        r@ == links_html(assoc@, lines@, rows@, prov@),
{
    let mut s = "<section class=\"card\"><h2>Network &amp; link</h2><p class=\"assoc\">".to_owned();
    s.append(assoc);
    s.append("</p><p>");
    s.append(lines);
    s.append(
        "</p><div class=\"overflow\"><table><thead><tr><th>vehicle</th><th>telemetry \
         inter-arrival p50/p95</th></tr></thead><tbody>",
    );
    s.append(rows);
    s.append("</tbody></table></div>");
    s.append(prov);
    s.append("</section>");
    s
}

/// The appendix around its parts.
pub open spec fn appendix_html(n: nat, prov: Seq<char>) -> Seq<char> {
    "<section class=\"card\"><h2>Provenance appendix</h2><p class=\"note\">Every \
         number above was derived from the "@
        + dec_text(n)
        + " signed, content-addressed Blocks below — the same Blocks the deck, the demo, \
         and the comparison cite. Verify with <code>muas-artifacts --audit</code>.</p>"@
        + prov
        + "</section>"@
}

fn appendix(n: u64, prov: &str) -> (r: String)
    ensures
        r@ == appendix_html(n as nat, prov@),
{
    let mut s = "<section class=\"card\"><h2>Provenance appendix</h2><p \
                 class=\"note\">Every number above was derived from the ".to_owned();
    s.append(dec(n).as_str());
    s.append(
        " signed, content-addressed Blocks below — the same Blocks the deck, the demo, \
         and the comparison cite. Verify with <code>muas-artifacts --audit</code>.</p>",
    );
    s.append(prov);
    s.append("</section>");
    s
}

/// The end of the report.
pub const FOOTER: &'static str = "<p class=\"footer\">Rendered through a matched, authorized console binding \
     (artifact.report) over the one mission dataset — a lens, not a copy.</p></main>";

/// What stands for a value that is missing.
pub const ABSENT: &'static str = "—";

/// A printed number with its sign.
pub open spec fn signed(s: Seq<char>) -> Seq<char> {
    if has_prefix(s, "-"@) {
        s
    } else {
        "+"@ + s
    }
}

fn with_sign(s: &str) -> (r: String)
    ensures
        r@ == signed(s@),
{
    if starts_with(s, "-") {
        s.to_owned()
    } else {
        cat("+", s)
    }
}

/// A bias with its sign and unit.
pub open spec fn bias_text(f: Option<FigureView>) -> Seq<char> {
    match f {
        Some(b) => signed(b.tenth) + " m"@,
        None => ABSENT@,
    }
}

/// The row of a coordination event.
pub open spec fn coord_row_of(blocks: Seq<BlockRef>, t0: u64, d: DatumView) -> Seq<char> {
    let c = blocks[d.block].cited();
    coord_row_html(
        escaped(c.hash),
        escaped(c.chain),
        c.seq as nat,
        clock_text(d.t_ns, t0),
        escaped(text_or(d.vehicle, ABSENT@)),
        escaped(d.label),
        escaped(text_or(text_of(field(d.body, "peer"@)), ABSENT@)),
        bias_text(figure_of(field(d.body, "bias_m"@))),
    )
}

/// The rows of the coordination events among the first `n` data.
pub open spec fn coord_rows(
    blocks: Seq<BlockRef>,
    t0: u64,
    data: Seq<DatumView>,
    n: nat,
) -> Seq<char>
    decreases n,
{
    if n == 0 || n > data.len() {
        Seq::empty()
    } else if data[n - 1].kind == DatumKind::Coord {
        coord_rows(blocks, t0, data, (n - 1) as nat) + coord_row_of(blocks, t0, data[n - 1])
    } else {
        coord_rows(blocks, t0, data, (n - 1) as nat)
    }
}

/// Whether a datum belongs on the timeline.
pub open spec fn on_timeline(d: DatumView) -> bool {
    (d.kind == DatumKind::Service || d.kind == DatumKind::Rtl || d.kind == DatumKind::Event)
        && d.label != "run.config"@
}

/// What the timeline says of an event.
pub open spec fn detail_of(d: DatumView) -> Seq<char> {
    if has_prefix(d.label, "service."@) {
        (match flag_of(field(d.body, "accepted"@)) {
            Some(b) => if b {
                "accepted"@
            } else {
                "rejected"@
            },
            None => ""@,
        }) + (match figure_of(field(d.body, "rtt_ms"@)) {
            Some(f) => " · "@ + f.whole + " ms"@,
            None => ""@,
        })
    } else if d.label == "flight.takeoff.result"@ {
        if flag_of(field(d.body, "airborne"@)) == Some(true) {
            "airborne"@
        } else {
            "failed"@
        }
    } else if d.label == "rtl.done"@ {
        text_or(text_of(field(d.body, "outcome"@)), ""@)
    } else {
        ""@
    }
}

/// The row of a timeline event.
pub open spec fn event_row_of(blocks: Seq<BlockRef>, t0: u64, d: DatumView) -> Seq<char> {
    let c = blocks[d.block].cited();
    event_row_html(
        escaped(c.hash),
        escaped(c.chain),
        c.seq as nat,
        clock_text(d.t_ns, t0),
        escaped(text_or(d.vehicle, ABSENT@)),
        escaped(d.label),
        escaped(detail_of(d)),
    )
}

/// The rows of the timeline events among the first `n` data.
pub open spec fn event_rows(
    blocks: Seq<BlockRef>,
    t0: u64,
    data: Seq<DatumView>,
    n: nat,
) -> Seq<char>
    decreases n,
{
    if n == 0 || n > data.len() {
        Seq::empty()
    } else if on_timeline(data[n - 1]) {
        event_rows(blocks, t0, data, (n - 1) as nat) + event_row_of(blocks, t0, data[n - 1])
    } else {
        event_rows(blocks, t0, data, (n - 1) as nat)
    }
}

/// A battery range as the report shows it.
pub open spec fn battery_text(b: Option<(FigureView, FigureView)>) -> Seq<char> {
    match b {
        Some(r) => r.0.whole + "% → "@ + r.1.whole + "%"@,
        None => ABSENT@,
    }
}

/// The row of a vehicle's flight.
pub open spec fn flight_row_of(v: VehicleView) -> Seq<char> {
    flight_row_html(
        escaped(v.vehicle),
        v.samples,
        v.max_agl_m.tenth,
        v.max_speed_m_s.tenth,
        battery_text(v.battery_pct),
        escaped(joined(v.modes, ", "@, v.modes.len())),
    )
}

/// The rows of the first `n` vehicles' flights.
pub open spec fn flight_rows(s: Seq<VehicleView>, n: nat) -> Seq<char>
    decreases n,
{
    if n == 0 || n > s.len() {
        Seq::empty()
    } else {
        flight_rows(s, (n - 1) as nat) + flight_row_of(s[n - 1])
    }
}

/// A vehicle's telemetry gaps as the report shows them.
pub open spec fn gaps_text(
    gaps: Option<SpanPctl>,
    shown_ms: Option<(FigureView, FigureView)>,
) -> Seq<char> {
    match gaps {
        Some(g) => match shown_ms {
            Some(p) => spread_html(p.0.tenth, p.1.tenth, g.n as nat),
            None => ABSENT@,
        },
        None => ABSENT@,
    }
}

/// The rows of the first `n` vehicles' telemetry gaps.
pub open spec fn gap_rows(
    s: Seq<VehicleView>,
    ms: Seq<Option<(FigureView, FigureView)>>,
    n: nat,
) -> Seq<char>
    decreases n,
{
    if n == 0 || n > s.len() {
        Seq::empty()
    } else {
        gap_rows(s, ms, (n - 1) as nat) + gap_row_html(
            escaped(s[n - 1].vehicle),
            gaps_text(s[n - 1].interarrival, ms[n - 1]),
        )
    }
}

/// What the report says of the links, line by line.
pub open spec fn link_lines(
    rtt: Option<PctlView>,
    stale: nat,
    loss: Option<FigureView>,
    kbps: Option<FigureView>,
) -> Seq<Seq<char>> {
    let a = match rtt {
        Some(p) => seq![
            "Service RTT p50/p95: <strong>"@ + spread_html(p.p50.tenth, p.p95.tenth, p.n)
                + "</strong>."@,
        ],
        None => Seq::empty(),
    };
    let b = if stale > 0 {
        a.push(
            "The dashboard flagged <strong>"@ + dec_text(stale)
                + "</strong> stale-telemetry mark(s)."@,
        )
    } else {
        a
    };
    let c = match loss {
        Some(f) => b.push(
            "Spark telemetry-lane frame loss: <strong>"@ + f.tenth + "%</strong>."@,
        ),
        None => b,
    };
    let d = match kbps {
        Some(f) => c.push("Mean video bitrate: <strong>"@ + f.whole + " kbps</strong>."@),
        None => c,
    };
    if d.len() == 0 {
        seq!["No service-RTT, spark, or video data in this run."@]
    } else {
        d
    }
}

/// Flags of the data of up to three kinds.
pub open spec fn kind_flags(
    data: Seq<DatumView>,
    a: DatumKind,
    b: DatumKind,
    c: DatumKind,
) -> Seq<bool> {
    Seq::new(
        data.len(),
        |i: int| data[i].kind == a || data[i].kind == b || data[i].kind == c,
    )
}

/// The provenance drawer of the data of up to three kinds.
pub open spec fn kind_drawer(
    ds: MissionDataset,
    label: Seq<char>,
    a: DatumKind,
    b: DatumKind,
    c: DatumKind,
) -> Seq<char> {
    drawer_of(
        label,
        section_citations(ds.blocks@, ds.data(), kind_flags(ds.data(), a, b, c)),
    )
}

fn kinds_drawer(
    ds: &MissionDataset,
    label: &str,
    a: DatumKind,
    b: DatumKind,
    c: DatumKind,
) -> (r: String)
    ensures
        r@ == kind_drawer(*ds, label@, a, b, c),
{
    let mut flags: Vec<bool> = Vec::new();
    let mut i: usize = 0;
    while i < ds.data.len()
        invariant
            i <= ds.data@.len(),
            flags@.len() == i,
            forall|j: int|
                0 <= j < i ==> #[trigger] flags@[j] == (ds.data()[j].kind == a || ds.data()[j].kind
                    == b || ds.data()[j].kind == c),
        decreases ds.data@.len() - i,
    {
        let kind = ds.data[i].kind;
        flags.push(kind == a || kind == b || kind == c);
        i = i + 1;
    }
    assert(flags@ =~= kind_flags(ds.data(), a, b, c));
    prov_drawer(label, &ds.citations_marked(&flags))
}

/// The texts of a citation for a row tooltip.
struct Tip {
    hash: String,
    chain: String,
    seq: u64,
}

fn tip_of(ds: &MissionDataset, d: &Datum) -> (r: Tip)
    requires
        d.block < ds.blocks@.len(),
    ensures
        r.hash@ == escaped(ds.blocks@[d.block as int].cited().hash),
        r.chain@ == escaped(ds.blocks@[d.block as int].cited().chain),
        r.seq == ds.blocks@[d.block as int].cited().seq,
{
    let c = ds.citation_of(d);
    Tip { hash: esc(c.hash.as_str()), chain: esc(c.chain.as_str()), seq: c.seq }
}

fn escaped_or_absent(t: &Option<String>) -> (r: String)
    ensures
        r@ == escaped(text_or(shown(*t), ABSENT@)),
{
    match t {
        Some(s) => esc(s.as_str()),
        None => esc(ABSENT),
    }
}

fn one_coord_row(ds: &MissionDataset, t0: u64, d: &Datum) -> (r: String)
    requires
        d.block < ds.blocks@.len(),
    ensures
        r@ == coord_row_of(ds.blocks@, t0, d@),
{
    let tip = tip_of(ds, d);
    let t = t_rel(d.t_ns, t0);
    let vehicle = escaped_or_absent(&d.vehicle);
    let label = esc(d.label.as_str());
    let peer = escaped_or_absent(&d.body.text_field("peer"));
    let bias = match d.body.figure_field("bias_m") {
        Some(f) => {
            let mut s = with_sign(f.tenth.as_str());
            s.append(" m");
            s
        },
        None => ABSENT.to_owned(),
    };
    coord_row(
        tip.hash.as_str(),
        tip.chain.as_str(),
        tip.seq,
        t.as_str(),
        vehicle.as_str(),
        label.as_str(),
        peer.as_str(),
        bias.as_str(),
    )
}

fn all_coord_rows(ds: &MissionDataset, t0: u64) -> (r: String)
    requires
        ds.valid(),
    ensures
        r@ == coord_rows(ds.blocks@, t0, ds.data(), ds.data().len()),
{
    let ghost dv = ds.data();
    let mut out = String::new();
    let mut i: usize = 0;
    while i < ds.data.len()
        invariant
            i <= ds.data@.len(),
            ds.valid(),
            dv == ds.data(),
            out@ == coord_rows(ds.blocks@, t0, dv, i as nat),
        decreases ds.data@.len() - i,
    {
        let d = &ds.data[i];
        assert(dv[i as int] == d@);
        if d.kind == DatumKind::Coord {
            out.append(one_coord_row(ds, t0, d).as_str());
        }
        i = i + 1;
    }
    out
}

fn event_detail(d: &Datum) -> (r: String)
    ensures
        r@ == detail_of(d@),
{
    let label = d.label.as_str();
    if starts_with(label, "service.") {
        let mut s = (match d.body.flag_field("accepted") {
            Some(b) => if b {
                "accepted"
            } else {
                "rejected"
            },
            None => "",
        }).to_owned();
        let ghost head = s@;
        let tail = match d.body.figure_field("rtt_ms") {
            Some(f) => {
                let mut t = cat(" · ", f.whole.as_str());
                t.append(" ms");
                t
            },
            None => "".to_owned(),
        };
        s.append(tail.as_str());
        s
    } else if same(label, "flight.takeoff.result") {
        if d.body.flag_field("airborne") == Some(true) {
            "airborne".to_owned()
        } else {
            "failed".to_owned()
        }
    } else if same(label, "rtl.done") {
        match d.body.text_field("outcome") {
            Some(o) => o,
            None => "".to_owned(),
        }
    } else {
        "".to_owned()
    }
}

fn one_event_row(ds: &MissionDataset, t0: u64, d: &Datum) -> (r: String)
    requires
        d.block < ds.blocks@.len(),
    ensures
        r@ == event_row_of(ds.blocks@, t0, d@),
{
    let tip = tip_of(ds, d);
    let t = t_rel(d.t_ns, t0);
    let vehicle = escaped_or_absent(&d.vehicle);
    let label = esc(d.label.as_str());
    let detail = esc(event_detail(d).as_str());
    event_row(
        tip.hash.as_str(),
        tip.chain.as_str(),
        tip.seq,
        t.as_str(),
        vehicle.as_str(),
        label.as_str(),
        detail.as_str(),
    )
}

fn all_event_rows(ds: &MissionDataset, t0: u64) -> (r: String)
    requires
        ds.valid(),
    ensures
        r@ == event_rows(ds.blocks@, t0, ds.data(), ds.data().len()),
{
    let ghost dv = ds.data();
    let mut out = String::new();
    let mut i: usize = 0;
    while i < ds.data.len()
        invariant
            i <= ds.data@.len(),
            ds.valid(),
            dv == ds.data(),
            out@ == event_rows(ds.blocks@, t0, dv, i as nat),
        decreases ds.data@.len() - i,
    {
        let d = &ds.data[i];
        assert(dv[i as int] == d@);
        if (d.kind == DatumKind::Service || d.kind == DatumKind::Rtl || d.kind == DatumKind::Event)
            && !same(d.label.as_str(), "run.config") {
            out.append(one_event_row(ds, t0, d).as_str());
        }
        i = i + 1;
    }
    out
}

fn one_flight_row(v: &VehicleSummary) -> (r: String)
    ensures
        r@ == flight_row_of(v@),
{
    let battery = match &v.battery_pct {
        Some(p) => {
            let mut s = cat(p.0.whole.as_str(), "% → ");
            s.append(p.1.whole.as_str());
            s.append("%");
            s
        },
        None => ABSENT.to_owned(),
    };
    let modes = esc(join(&v.modes, ", ").as_str());
    let vehicle = esc(v.vehicle.as_str());
    flight_row(
        vehicle.as_str(),
        v.samples as u64,
        v.max_agl_m.tenth.as_str(),
        v.max_speed_m_s.tenth.as_str(),
        battery.as_str(),
        modes.as_str(),
    )
}

fn all_flight_rows(s: &Vec<VehicleSummary>) -> (r: String)
    ensures
        r@ == flight_rows(summary_views(s@), s@.len()),
{
    let ghost sv = summary_views(s@);
    let mut out = String::new();
    let mut i: usize = 0;
    while i < s.len()
        invariant
            i <= s@.len(),
            sv == summary_views(s@),
            out@ == flight_rows(sv, i as nat),
        decreases s@.len() - i,
    {
        assert(sv[i as int] == s@[i as int]@);
        out.append(one_flight_row(&s[i]).as_str());
        i = i + 1;
    }
    out
}

fn all_gap_rows(s: &Vec<VehicleSummary>, g: &Measured) -> (r: String)
    requires
        g.interarrival_ms@.len() == s@.len(),
    ensures
        r@ == gap_rows(summary_views(s@), g@.interarrival_ms, s@.len()),
{
    let ghost sv = summary_views(s@);
    let ghost ms = g@.interarrival_ms;
    let mut out = String::new();
    let mut i: usize = 0;
    while i < s.len()
        invariant
            i <= s@.len(),
            g.interarrival_ms@.len() == s@.len(),
            sv == summary_views(s@),
            ms == g@.interarrival_ms,
            out@ == gap_rows(sv, ms, i as nat),
        decreases s@.len() - i,
    {
        assert(sv[i as int] == s@[i as int]@);
        assert(ms[i as int] == battery_view(g.interarrival_ms@[i as int]));
        let gaps = match &s[i].interarrival {
            Some(p) => match &g.interarrival_ms[i] {
                Some(m) => spread(m.0.tenth.as_str(), m.1.tenth.as_str(), p.n as u64),
                None => ABSENT.to_owned(),
            },
            None => ABSENT.to_owned(),
        };
        out.append(gap_row(esc(s[i].vehicle.as_str()).as_str(), gaps.as_str()).as_str());
        i = i + 1;
    }
    out
}

pub(crate) fn push_text(v: &mut Vec<String>, s: String)
    ensures
        views(final(v)@) == views(old(v)@).push(s@),
{
    let ghost before = v@;
    v.push(s);
    assert(views(v@) =~= views(before).push(s@));
}

fn link_texts(
    rtt: &Option<Pctl>,
    stale: u64,
    loss: &Option<Figure>,
    kbps: &Option<Figure>,
) -> (r: Vec<String>)
    ensures
        views(r@) == link_lines(
            crate::metrics::pctl_view(*rtt),
            stale as nat,
            crate::json::seen(*loss),
            crate::json::seen(*kbps),
        ),
{
    let mut v: Vec<String> = Vec::new();
    assert(views(v@) =~= Seq::empty());
    match rtt {
        Some(p) => {
            let mut s = cat(
                "Service RTT p50/p95: <strong>",
                spread(p.p50.tenth.as_str(), p.p95.tenth.as_str(), p.n as u64).as_str(),
            );
            s.append("</strong>.");
            push_text(&mut v, s);
            assert(views(v@) =~= seq![s@]);
        },
        None => {},
    }
    if stale > 0 {
        let mut s = cat("The dashboard flagged <strong>", dec(stale).as_str());
        s.append("</strong> stale-telemetry mark(s).");
        push_text(&mut v, s);
    }
    match loss {
        Some(f) => {
            let mut s = cat("Spark telemetry-lane frame loss: <strong>", f.tenth.as_str());
            s.append("%</strong>.");
            push_text(&mut v, s);
        },
        None => {},
    }
    match kbps {
        Some(f) => {
            let mut s = cat("Mean video bitrate: <strong>", f.whole.as_str());
            s.append(" kbps</strong>.");
            push_text(&mut v, s);
        },
        None => {},
    }
    if v.len() == 0 {
        assert(views(v@) =~= Seq::empty());
        push_text(&mut v, "No service-RTT, spark, or video data in this run.".to_owned());
        assert(views(v@) =~= seq!["No service-RTT, spark, or video data in this run."@]);
    } else {
        assert(views(v@).len() > 0);
    }
    v
}

/// The chains of Blocks, each once.
pub open spec fn chains_of(blocks: Seq<BlockRef>) -> Seq<Seq<char>> {
    sorted_texts(blocks.map_values(|b: BlockRef| b.chain@))
}

fn count_chains(blocks: &Vec<BlockRef>) -> (r: u64)
    ensures
        r == chains_of(blocks@).len(),
{
    let mut v: Vec<String> = Vec::new();
    let mut i: usize = 0;
    while i < blocks.len()
        invariant
            i <= blocks@.len(),
            v@.len() == i,
            forall|j: int| 0 <= j < i ==> (#[trigger] v@[j])@ == blocks@[j].chain@,
        decreases blocks@.len() - i,
    {
        v.push(blocks[i].chain.clone());
        i = i + 1;
    }
    assert(views(v@) =~= blocks@.map_values(|b: BlockRef| b.chain@));
    let s = sort_texts(&v);
    assert(views(s@).len() == s@.len());
    s.len() as u64
}

/// The settings that coordination is associated with.
pub open spec fn coord_keys() -> Seq<Seq<char>> {
    seq![
        "coord.grace_s"@,
        "coord.hsep_m"@,
        "coord.vsep_m"@,
        "coord.floor_agl_m"@,
        "link_profile.loss_pct"@,
        "link_profile.delay_ms"@,
    ]
}

fn coord_list() -> (r: Vec<&'static str>)
    ensures
        key_texts(r@) == coord_keys(),
{
    let mut v: Vec<&'static str> = Vec::new();
    v.push("coord.grace_s");
    v.push("coord.hsep_m");
    v.push("coord.vsep_m");
    v.push("coord.floor_agl_m");
    v.push("link_profile.loss_pct");
    v.push("link_profile.delay_ms");
    assert(key_texts(v@) =~= coord_keys());
    v
}

/// The settings that flights are associated with.
pub open spec fn flight_keys() -> Seq<Seq<char>> {
    seq![
        "coord.floor_agl_m"@,
        "telemetry_hz"@,
        "fleet_ids"@,
    ]
}

fn flight_list() -> (r: Vec<&'static str>)
    ensures
        key_texts(r@) == flight_keys(),
{
    let mut v: Vec<&'static str> = Vec::new();
    v.push("coord.floor_agl_m");
    v.push("telemetry_hz");
    v.push("fleet_ids");
    assert(key_texts(v@) =~= flight_keys());
    v
}

/// The settings that links are associated with.
pub open spec fn link_keys() -> Seq<Seq<char>> {
    seq![
        "link_profile.name"@,
        "link_profile.loss_pct"@,
        "link_profile.delay_ms"@,
        "link_profile.jitter_ms"@,
        "link_profile.bandwidth_mbps"@,
        "carrier"@,
    ]
}

fn link_list() -> (r: Vec<&'static str>)
    ensures
        key_texts(r@) == link_keys(),
{
    let mut v: Vec<&'static str> = Vec::new();
    v.push("link_profile.name");
    v.push("link_profile.loss_pct");
    v.push("link_profile.delay_ms");
    v.push("link_profile.jitter_ms");
    v.push("link_profile.bandwidth_mbps");
    v.push("carrier");
    assert(key_texts(v@) =~= link_keys());
    v
}

/// What the report says of a smart return to launch.
pub open spec fn rtl_text(outcome: Option<Seq<char>>) -> Seq<char> {
    match outcome {
        Some(o) => escaped(o),
        None => "not engaged"@,
    }
}

pub(crate) fn rtl_words(outcome: &Option<String>) -> (r: String)
    ensures
        r@ == rtl_text(shown(*outcome)),
{
    match outcome {
        Some(o) => esc(o.as_str()),
        None => "not engaged".to_owned(),
    }
}

/// The head of a run's report.
pub open spec fn heading_of(ds: MissionDataset, g: MeasuredView) -> Seq<char> {
    let data = ds.data();
    heading_html(
        escaped(label_of(shown(ds.run.run_id), ds.blocks@)),
        sorted_texts(named_vehicles(data, data.len())).len(),
        g.duration_s.whole,
        data.len(),
        ds.blocks@.len(),
        chains_of(ds.blocks@).len(),
    )
}

/// The coordination section of a run.
pub open spec fn coordination_of(ds: MissionDataset, g: MeasuredView) -> Seq<char> {
    let data = ds.data();
    let m = metrics_of(data);
    let t0 = first_time(data);
    coordination_html(
        assoc_text(ds.run.settings, coord_keys(), true),
        m.coop,
        m.coop + m.unco,
        match g.coop_rate_pct {
            Some(r) => r.whole + "%"@,
            None => ABSENT@,
        },
        match m.max_bias_m {
            Some(b) => b.tenth + " m"@,
            None => ABSENT@,
        },
        rtl_text(m.rtl_outcome),
        coord_rows(ds.blocks@, t0, data, data.len()),
        kind_drawer(
            ds,
            "coordination events"@,
            DatumKind::Coord,
            DatumKind::Coord,
            DatumKind::Coord,
        ),
    )
}

/// The timeline section of a run.
pub open spec fn timeline_of(ds: MissionDataset) -> Seq<char> {
    let data = ds.data();
    let m = metrics_of(data);
    timeline_html(
        m.service_ops,
        m.service_rejected,
        m.takeoff_ok,
        m.takeoff_attempts,
        event_rows(ds.blocks@, first_time(data), data, data.len()),
        kind_drawer(
            ds,
            "timeline events"@,
            DatumKind::Service,
            DatumKind::Rtl,
            DatumKind::Event,
        ),
    )
}

/// The flight summary of a run.
pub open spec fn flights_of(ds: MissionDataset) -> Seq<char> {
    let vehicles = metrics_of(ds.data()).vehicles;
    flights_html(
        assoc_text(ds.run.settings, flight_keys(), true),
        flight_rows(vehicles, vehicles.len()),
        kind_drawer(
            ds,
            "telemetry samples"@,
            DatumKind::Telemetry,
            DatumKind::Telemetry,
            DatumKind::Telemetry,
        ),
    )
}

/// The link section of a run.
pub open spec fn links_of(ds: MissionDataset, g: MeasuredView) -> Seq<char> {
    let m = metrics_of(ds.data());
    let lines = link_lines(m.service_rtt_ms, m.stale_marks, m.spark_loss_pct, g.video_kbps_mean);
    links_html(
        assoc_text(ds.run.settings, link_keys(), true),
        joined(lines, " "@, lines.len()),
        gap_rows(m.vehicles, g.interarrival_ms, m.vehicles.len()),
        kind_drawer(
            ds,
            "telemetry + link data"@,
            DatumKind::Telemetry,
            DatumKind::Link,
            DatumKind::Link,
        ),
    )
}

/// The provenance appendix of a run.
pub open spec fn appendix_of(ds: MissionDataset) -> Seq<char> {
    let all = cited_blocks(ds.blocks@);
    appendix_html(all.len(), drawer_of("entire artifact"@, all))
}

/// The time of the first datum, 0 when there is none.
pub open spec fn first_time(data: Seq<DatumView>) -> u64 {
    if data.len() > 0 {
        data[0].t_ns
    } else {
        0
    }
}

/// The report of a run.
pub open spec fn report_of(ds: MissionDataset, g: MeasuredView) -> Seq<char> {
    page_of(
        "Mission report — "@ + label_of(shown(ds.run.run_id), ds.blocks@),
        ""@,
        "<main>"@ + heading_of(ds, g) + panel_of(ds.run) + coordination_of(ds, g) + timeline_of(ds)
            + flights_of(ds) + links_of(ds, g) + appendix_of(ds) + FOOTER@,
    )
}

/// Render `report.html` from the one dataset.
pub fn render(ds: &MissionDataset, g: &Measured) -> (r: RenderedArtifact)
    requires
        ds.valid(),
        measures(g@, metrics_of(ds.data())),
    ensures
        r.html@ == report_of(*ds, g@),
        citation_views(r.citations@) == cited_blocks(ds.blocks@),
{
    let m = metrics(ds);
    let t0: u64 = ds.t0();
    let ghost dv = ds.data();
    proof {
        assert(t0 == first_time(dv)) by {
            if dv.len() > 0 {
                assert(dv[0] == ds.data@[0]@);
            }
        }
        assert(summary_views(m.vehicles@).len() == m.vehicles@.len());
    }
    let label = ds.run_label();
    let vehicles = ds.vehicles();
    assert(views(vehicles@).len() == vehicles@.len());
    let mut body = "<main>".to_owned();
    let head = heading(
        esc(label.as_str()).as_str(),
        vehicles.len() as u64,
        g.duration_s.whole.as_str(),
        ds.data.len() as u64,
        ds.blocks.len() as u64,
        count_chains(&ds.blocks),
    );
    assert(head@ == heading_of(*ds, g@));
    body.append(head.as_str());
    body.append(config_panel(&ds.run).as_str());

    let rate = match &g.coop_rate_pct {
        Some(f) => cat(f.whole.as_str(), "%"),
        None => ABSENT.to_owned(),
    };
    let bias = match &m.max_bias_m {
        Some(f) => cat(f.tenth.as_str(), " m"),
        None => ABSENT.to_owned(),
    };
    let coords = coordination(
        assoc_line(&ds.run, &coord_list(), true).as_str(),
        m.coop,
        m.coop + m.unco,
        rate.as_str(),
        bias.as_str(),
        rtl_words(&m.rtl_outcome).as_str(),
        all_coord_rows(ds, t0).as_str(),
        kinds_drawer(
            ds,
            "coordination events",
            DatumKind::Coord,
            DatumKind::Coord,
            DatumKind::Coord,
        ).as_str(),
    );
    assert(coords@ == coordination_of(*ds, g@));
    body.append(coords.as_str());

    let events = timeline(
        m.service_ops,
        m.service_rejected,
        m.takeoff_ok,
        m.takeoff_attempts,
        all_event_rows(ds, t0).as_str(),
        kinds_drawer(
            ds,
            "timeline events",
            DatumKind::Service,
            DatumKind::Rtl,
            DatumKind::Event,
        ).as_str(),
    );
    assert(events@ == timeline_of(*ds));
    body.append(events.as_str());

    let trips = flights(
        assoc_line(&ds.run, &flight_list(), true).as_str(),
        all_flight_rows(&m.vehicles).as_str(),
        kinds_drawer(
            ds,
            "telemetry samples",
            DatumKind::Telemetry,
            DatumKind::Telemetry,
            DatumKind::Telemetry,
        ).as_str(),
    );
    assert(trips@ == flights_of(*ds));
    body.append(trips.as_str());

    let lines = link_texts(&m.service_rtt_ms, m.stale_marks, &m.spark_loss_pct, &g.video_kbps_mean);
    assert(views(lines@).len() == lines@.len());
    let net = links(
        assoc_line(&ds.run, &link_list(), true).as_str(),
        join(&lines, " ").as_str(),
        all_gap_rows(&m.vehicles, g).as_str(),
        kinds_drawer(
            ds,
            "telemetry + link data",
            DatumKind::Telemetry,
            DatumKind::Link,
            DatumKind::Link,
        ).as_str(),
    );
    assert(net@ == links_of(*ds, g@));
    body.append(net.as_str());

    let all = ds.all_citations();
    assert(citation_views(all@).len() == all@.len());
    let tail = appendix(all.len() as u64, prov_drawer("entire artifact", &all).as_str());
    assert(tail@ == appendix_of(*ds));
    body.append(tail.as_str());
    body.append(FOOTER);

    let title = cat("Mission report — ", label.as_str());
    RenderedArtifact { html: page(title.as_str(), "", body.as_str()), citations: all }
}

} // verus!
