//! The stakeholder's lens: seven slides with arrow-key navigation, over the
//! same dataset and the same Block citations as the report.

use vstd::prelude::*;

use crate::blocks::{citation_views, Citation, CitationView, DatumKind};
use crate::dataset::{
    cited_blocks, datum_views, label_of, named_vehicles, shown, Datum, DatumView, MissionDataset,
    RunConfig, Setting,
};
use crate::json::{field, figure_of, seen, Figure, FigureView};
use crate::metrics::{
    battery_view, measures, metrics, metrics_of, pctl_view, summary_views, Measured, MeasuredView,
    Pctl, PctlView, RunMetrics, VehicleSummary, VehicleView,
};
use crate::render::report::{first_time, gap_row, gap_row_html, push_text, rtl_text, rtl_words, ABSENT};
use crate::render::{
    assoc_line, assoc_text, citation_rows, cite_rows, clock_text, esc, escaped, hash_short, key_at,
    key_setting, key_texts, page, page_of, short_of, shown_setting, t_rel, RenderedArtifact,
    KEY_SETTINGS,
};
use crate::text::{cat, dec, dec_text, join, joined, same, views};
use crate::text_map::{sorted_texts, TextMap};

verus! {

/// Stylesheet of the deck.
pub const DECK_STYLE: &'static str = r#"
html { scroll-snap-type: y mandatory; }
.slide { min-height: 100vh; scroll-snap-align: start; display: flex;
         flex-direction: column; justify-content: center; align-items: center;
         padding: 48px 24px; position: relative; }
.slide-inner { max-width: 780px; width: 100%; }
.slide h1 { font-size: 40px; margin: 0 0 8px; }
.slide h2 { font-size: 28px; margin: 0 0 18px; }
.hero { font-size: 84px; font-weight: 600; line-height: 1.05; margin: 12px 0; }
.hero-label { color: var(--ink2); font-size: 17px; }
.slide-footer { position: absolute; bottom: 16px; left: 0; right: 0; text-align: center;
                color: var(--muted); font-size: 12px; }
.bullets { font-size: 19px; line-height: 1.8; }
.kv { display: grid; grid-template-columns: auto auto; gap: 6px 28px;
      font-size: 19px; justify-content: center; }
.kv .k { color: var(--ink2); text-align: right; }
.kv .v { font-variant-numeric: tabular-nums; }
.nav-hint { color: var(--muted); font-size: 13px; margin-top: 32px; }
.counter { position: fixed; right: 18px; bottom: 14px; color: var(--muted);
           font-size: 12.5px; font-variant-numeric: tabular-nums; z-index: 2; }
.legend { display: flex; gap: 18px; justify-content: center; font-size: 13.5px;
          color: var(--ink2); margin-top: 6px; }
.key { display: inline-block; width: 18px; height: 3px; border-radius: 2px;
       vertical-align: middle; margin-right: 6px; }
svg text { fill: var(--muted); font-size: 11px; }
"#;

/// Navigation of the deck.
pub const DECK_JS: &'static str = r#"
const slides = [...document.querySelectorAll('.slide')];
let cur = 0;
const counter = document.getElementById('counter');
function go(i) {
  cur = Math.max(0, Math.min(slides.length - 1, i));
  slides[cur].scrollIntoView({ behavior: 'smooth' });
  counter.textContent = (cur + 1) + ' / ' + slides.length;
}
addEventListener('keydown', (e) => {
  if (e.key === 'ArrowRight' || e.key === 'PageDown' || e.key === ' ') { e.preventDefault(); go(cur + 1); }
  if (e.key === 'ArrowLeft' || e.key === 'PageUp') { e.preventDefault(); go(cur - 1); }
  if (e.key === 'Home') go(0);
  if (e.key === 'End') go(slides.length - 1);
});
let ticking = false;
addEventListener('scroll', () => {
  if (ticking) return; ticking = true;
  requestAnimationFrame(() => {
    ticking = false;
    const mid = scrollY + innerHeight / 2;
    slides.forEach((s, i) => { if (s.offsetTop <= mid && mid < s.offsetTop + s.offsetHeight) cur = i; });
    counter.textContent = (cur + 1) + ' / ' + slides.length;
  });
});
counter.textContent = '1 / ' + slides.length;
"#;

/// The palette slot of a series.
pub open spec fn series_slot(i: nat) -> Seq<char> {
    let k = i % 6;
    if k == 0 {
        "--s1"@
    } else if k == 1 {
        "--s2"@
    } else if k == 2 {
        "--s3"@
    } else if k == 3 {
        "--s5"@
    } else if k == 4 {
        "--s6"@
    } else {
        "--s4"@
    }
}

/// The palette slot of a series, by its style variable.
pub(crate) fn series_var(i: usize) -> (r: &'static str)
    ensures
        r@ == series_slot(i as nat),
{
    let k: usize = i % 6;
    if k == 0 {
        "--s1"
    } else if k == 1 {
        "--s2"
    } else if k == 2 {
        "--s3"
    } else if k == 3 {
        "--s5"
    } else if k == 4 {
        "--s6"
    } else {
        "--s4"
    }
}

/// A slide around its body.
pub open spec fn slide_html(body: Seq<char>, footer: Seq<char>) -> Seq<char> {
    "<section class=\"slide\"><div class=\"slide-inner\">"@
        + body
        + "</div><div class=\"slide-footer\">"@
        + footer
        + "</div></section>"@
}

pub(crate) fn slide(body: &str, footer: &str) -> (r: String)
    ensures
        r@ == slide_html(body@, footer@),
{
    let mut s = "<section class=\"slide\"><div class=\"slide-inner\">".to_owned();
    s.append(body);
    s.append("</div><div class=\"slide-footer\">");
    s.append(footer);
    s.append("</div></section>");
    s
}

/// The biased coordination events of one vehicle.
#[derive(Debug)]
pub struct BiasSeries {
    pub vehicle: String,
    /// Positions of the events in the data.
    pub points: Vec<usize>,
}

/// A series by its values.
#[verifier::ext_equal]
pub struct SeriesView {
    pub vehicle: Seq<char>,
    pub points: Seq<int>,
}

/// Positions as integers.
pub open spec fn places(v: Seq<usize>) -> Seq<int> {
    v.map_values(|p: usize| p as int)
}

impl View for BiasSeries {
    type V = SeriesView;

    open spec fn view(&self) -> SeriesView {
        SeriesView { vehicle: self.vehicle@, points: places(self.points@) }
    }
}

/// Series by their views.
pub open spec fn series_views(v: Seq<BiasSeries>) -> Seq<SeriesView> {
    v.map_values(|s: BiasSeries| s@)
}

/// Whether a datum is a coordination event of a vehicle with a bias.
pub open spec fn biased(d: DatumView, vehicle: Seq<char>) -> bool {
    d.kind == DatumKind::Coord && d.vehicle == Some(vehicle) && figure_of(
        field(d.body, "bias_m"@),
    ) is Some
}

/// The biased events of a vehicle among the first `n` data.
pub open spec fn biased_places(data: Seq<DatumView>, vehicle: Seq<char>, n: nat) -> Seq<int>
    decreases n,
{
    if n == 0 || n > data.len() {
        Seq::empty()
    } else if biased(data[n - 1], vehicle) {
        biased_places(data, vehicle, (n - 1) as nat).push(n - 1)
    } else {
        biased_places(data, vehicle, (n - 1) as nat)
    }
}

/// The series of the first `n` vehicles; those without a biased event have
/// none.
pub open spec fn series_upto(
    data: Seq<DatumView>,
    vehicles: Seq<Seq<char>>,
    n: nat,
) -> Seq<SeriesView>
    decreases n,
{
    if n == 0 || n > vehicles.len() {
        Seq::empty()
    } else {
        let before = series_upto(data, vehicles, (n - 1) as nat);
        let points = biased_places(data, vehicles[n - 1], data.len());
        if points.len() == 0 {
            before
        } else {
            before.push(SeriesView { vehicle: vehicles[n - 1], points })
        }
    }
}

/// The series of a run's chart.
pub open spec fn series_of(data: Seq<DatumView>) -> Seq<SeriesView> {
    let vehicles = sorted_texts(named_vehicles(data, data.len()));
    series_upto(data, vehicles, vehicles.len())
}

fn biased_points(data: &Vec<Datum>, vehicle: &str) -> (r: Vec<usize>)
    ensures
        places(r@) == biased_places(datum_views(data@), vehicle@, data@.len()),
{
    let ghost dv = datum_views(data@);
    let mut out: Vec<usize> = Vec::new();
    let mut i: usize = 0;
    assert(places(out@) =~= biased_places(dv, vehicle@, 0));
    while i < data.len()
        invariant
            i <= data@.len(),
            dv == datum_views(data@),
            places(out@) == biased_places(dv, vehicle@, i as nat),
        decreases data@.len() - i,
    {
        let d = &data[i];
        assert(dv[i as int] == d@);
        let own = match &d.vehicle {
            Some(v) => same(v.as_str(), vehicle),
            None => false,
        };
        if d.kind == DatumKind::Coord && own && d.body.figure_field("bias_m").is_some() {
            let ghost before = out@;
            out.push(i);
            assert(places(out@) =~= places(before).push(i as int));
        }
        i = i + 1;
    }
    out
}

/// The series of a run's chart of avoidance bias over time, one per vehicle
/// that has any.
pub fn bias_series(ds: &MissionDataset) -> (r: Vec<BiasSeries>)
    ensures
        series_views(r@) == series_of(ds.data()),
{
    let ghost dv = ds.data();
    let vehicles = ds.vehicles();
    let ghost vs = views(vehicles@);
    let mut out: Vec<BiasSeries> = Vec::new();
    let mut i: usize = 0;
    assert(series_views(out@) =~= series_upto(dv, vs, 0));
    while i < vehicles.len()
        invariant
            i <= vehicles@.len(),
            dv == ds.data(),
            vs == views(vehicles@),
            series_views(out@) == series_upto(dv, vs, i as nat),
        decreases vehicles@.len() - i,
    {
        assert(vs[i as int] == vehicles@[i as int]@);
        let points = biased_points(&ds.data, vehicles[i].as_str());
        assert(places(points@).len() == points@.len());
        if points.len() > 0 {
            let ghost before = out@;
            let s = BiasSeries { vehicle: vehicles[i].clone(), points };
            out.push(s);
            assert(series_views(out@) =~= series_views(before).push(s@));
        }
        i = i + 1;
    }
    out
}

/// A printed position on the chart.
#[derive(Debug)]
pub struct Spot {
    pub x: String,
    pub y: String,
}

/// A grid line of the chart: its height, the height of its label, and the
/// value it stands for.
#[derive(Debug)]
pub struct GridLine {
    pub y: String,
    pub label_y: String,
    pub value: String,
}

/// The printed coordinates of a chart.
#[derive(Debug)]
pub struct Chart {
    pub grid: Vec<GridLine>,
    /// Height of no bias.
    pub base_y: String,
    /// The points of each series.
    pub spots: Vec<Vec<Spot>>,
}

/// A position by its texts.
pub type SpotView = (Seq<char>, Seq<char>);

/// A chart by its texts.
#[verifier::ext_equal]
pub struct ChartView {
    pub grid: Seq<(Seq<char>, Seq<char>, Seq<char>)>,
    pub base_y: Seq<char>,
    pub spots: Seq<Seq<SpotView>>,
}

/// Positions by their texts.
pub open spec fn spot_views(v: Seq<Spot>) -> Seq<SpotView> {
    v.map_values(|s: Spot| (s.x@, s.y@))
}

impl View for Chart {
    type V = ChartView;

    open spec fn view(&self) -> ChartView {
        ChartView {
            grid: self.grid@.map_values(|l: GridLine| (l.y@, l.label_y@, l.value@)),
            base_y: self.base_y@,
            spots: self.spots@.map_values(|v: Vec<Spot>| spot_views(v@)),
        }
    }
}

/// A grid line with its label.
pub open spec fn grid_line_html(
    y: Seq<char>,
    label_y: Seq<char>,
    value: Seq<char>,
) -> Seq<char> {
    "<line x1=\"44\" y1=\""@
        + y
        + "\" x2=\"664\" y2=\""@
        + y
        + "\" stroke=\"var(--grid)\" stroke-width=\"1\"/><text x=\"38\" y=\""@
        + label_y
        + "\" text-anchor=\"end\">"@
        + value
        + " m</text>"@
}

fn grid_line(y: &str, label_y: &str, value: &str) -> (r: String)
    ensures
        r@ == grid_line_html(y@, label_y@, value@),
{
    let mut s = "<line x1=\"44\" y1=\"".to_owned();
    s.append(y);
    s.append("\" x2=\"664\" y2=\"");
    s.append(y);
    s.append("\" stroke=\"var(--grid)\" stroke-width=\"1\"/><text x=\"38\" y=\"");
    s.append(label_y);
    s.append("\" text-anchor=\"end\">");
    s.append(value);
    s.append(" m</text>");
    s
}

/// A line of the chart.
pub open spec fn path_html(steps: Seq<char>, slot: Seq<char>) -> Seq<char> {
    "<path d=\""@
        + steps
        + "\" fill=\"none\" stroke=\"var("@
        + slot
        + ")\" stroke-width=\"2\" stroke-linejoin=\"round\" stroke-linecap=\"round\"/>"@
}

fn path(steps: &str, slot: &str) -> (r: String)
    ensures
        r@ == path_html(steps@, slot@),
{
    let mut s = "<path d=\"".to_owned();
    s.append(steps);
    s.append("\" fill=\"none\" stroke=\"var(");
    s.append(slot);
    s.append(")\" stroke-width=\"2\" stroke-linejoin=\"round\" stroke-linecap=\"round\"/>");
    s
}

/// The dot at the end of a line.
pub open spec fn end_dot_html(x: Seq<char>, y: Seq<char>, slot: Seq<char>) -> Seq<char> {
    "<circle cx=\""@
        + x
        + "\" cy=\""@
        + y
        + "\" r=\"4\" fill=\"var("@
        + slot
        + ")\" stroke=\"var(--surface)\" stroke-width=\"2\"/>"@
}

fn end_dot(x: &str, y: &str, slot: &str) -> (r: String)
    ensures
        r@ == end_dot_html(x@, y@, slot@),
{
    let mut s = "<circle cx=\"".to_owned();
    s.append(x);
    s.append("\" cy=\"");
    s.append(y);
    s.append("\" r=\"4\" fill=\"var(");
    s.append(slot);
    s.append(")\" stroke=\"var(--surface)\" stroke-width=\"2\"/>");
    s
}

/// The ends of the time axis.
pub open spec fn axis_html(from: Seq<char>, to: Seq<char>) -> Seq<char> {
    "<text x=\"44\" y=\"252\" text-anchor=\"start\">"@
        + from
        + "</text><text x=\"664\" y=\"252\" text-anchor=\"end\">"@
        + to
        + "</text></svg>"@
}

fn axis(from: &str, to: &str) -> (r: String)
    ensures
        r@ == axis_html(from@, to@),
{
    let mut s = "<text x=\"44\" y=\"252\" text-anchor=\"start\">".to_owned();
    s.append(from);
    s.append("</text><text x=\"664\" y=\"252\" text-anchor=\"end\">");
    s.append(to);
    s.append("</text></svg>");
    s
}

/// A key of the legend.
pub open spec fn legend_key_html(slot: Seq<char>, name: Seq<char>) -> Seq<char> {
    "<span><span class=\"key\" style=\"background:var("@
        + slot
        + ")\"></span>"@
        + name
        + "</span>"@
}

fn legend_key(slot: &str, name: &str) -> (r: String)
    ensures
        r@ == legend_key_html(slot@, name@),
{
    let mut s = "<span><span class=\"key\" style=\"background:var(".to_owned();
    s.append(slot);
    s.append(")\"></span>");
    s.append(name);
    s.append("</span>");
    s
}

/// The head of a chart.
pub const CHART_HEAD: &'static str =
    "<svg viewBox=\"0 0 680 260\" role=\"img\" aria-label=\"avoidance bias over time\">";

/// The first `n` grid lines.
pub open spec fn grid_lines(s: Seq<(Seq<char>, Seq<char>, Seq<char>)>, n: nat) -> Seq<char>
    decreases n,
{
    if n == 0 || n > s.len() {
        Seq::empty()
    } else {
        grid_lines(s, (n - 1) as nat) + grid_line_html(s[n - 1].0, s[n - 1].1, s[n - 1].2)
    }
}

/// The height of a line before its point `n`.
pub open spec fn height_before(base: Seq<char>, s: Seq<SpotView>, n: nat) -> Seq<char> {
    if n == 0 || n > s.len() {
        base
    } else {
        s[n - 1].1
    }
}

/// The steps of a line through its first `n` points: each holds the last
/// height until its own time.
pub open spec fn steps_upto(base: Seq<char>, s: Seq<SpotView>, n: nat) -> Seq<char>
    decreases n,
{
    if n == 0 || n > s.len() {
        "M 44.0 "@ + base
    } else {
        steps_upto(base, s, (n - 1) as nat) + " L "@ + s[n - 1].0 + " "@ + height_before(
            base,
            s,
            (n - 1) as nat,
        ) + " L "@ + s[n - 1].0 + " "@ + s[n - 1].1
    }
}

/// The line of a series with its end dot.
pub open spec fn line_of(base: Seq<char>, s: Seq<SpotView>, i: nat) -> Seq<char> {
    let slot = series_slot(i);
    let line = path_html(
        steps_upto(base, s, s.len()) + " L 664.0 "@ + height_before(base, s, s.len()),
        slot,
    );
    if s.len() == 0 {
        line
    } else {
        line + end_dot_html(s.last().0, s.last().1, slot)
    }
}

/// The lines of the first `n` series.
pub open spec fn lines_upto(base: Seq<char>, spots: Seq<Seq<SpotView>>, n: nat) -> Seq<char>
    decreases n,
{
    if n == 0 || n > spots.len() {
        Seq::empty()
    } else {
        lines_upto(base, spots, (n - 1) as nat) + line_of(base, spots[n - 1], (n - 1) as nat)
    }
}

/// The legend of the first `n` series.
pub open spec fn legend_upto(s: Seq<SeriesView>, n: nat) -> Seq<char>
    decreases n,
{
    if n == 0 || n > s.len() {
        "<div class=\"legend\">"@
    } else {
        legend_upto(s, (n - 1) as nat) + legend_key_html(
            series_slot((n - 1) as nat),
            escaped(s[n - 1].vehicle),
        )
    }
}

/// The end of the time axis: after its start.
pub open spec fn axis_end(t0: u64, t1: u64) -> int {
    if t1 > t0 {
        t1 as int
    } else {
        t0 + 1
    }
}

/// The chart of a run's series, as printed coordinates place them.
pub open spec fn chart_text(
    series: Seq<SeriesView>,
    c: ChartView,
    t0: u64,
    t1: u64,
) -> Seq<char> {
    CHART_HEAD@ + grid_lines(c.grid, c.grid.len()) + lines_upto(c.base_y, c.spots, c.spots.len())
        + axis_html(clock_text(t0, t0), clock_text(axis_end(t0, t1) as u64, t0)) + legend_upto(
        series,
        series.len(),
    ) + "</div>"@
}

fn line_text(base: &str, v: &Vec<Spot>, i: usize) -> (r: String)
    ensures
        r@ == line_of(base@, spot_views(v@), i as nat),
{
    let ghost s = spot_views(v@);
    let mut steps = cat("M 44.0 ", base);
    let mut last = base.to_owned();
    let mut k: usize = 0;
    while k < v.len()
        invariant
            k <= v@.len(),
            s == spot_views(v@),
            steps@ == steps_upto(base@, s, k as nat),
            last@ == height_before(base@, s, k as nat),
        decreases v@.len() - k,
    {
        assert(s[k as int] == (v@[k as int].x@, v@[k as int].y@));
        steps.append(" L ");
        steps.append(v[k].x.as_str());
        steps.append(" ");
        steps.append(last.as_str());
        steps.append(" L ");
        steps.append(v[k].x.as_str());
        steps.append(" ");
        steps.append(v[k].y.as_str());
        last = v[k].y.clone();
        k = k + 1;
    }
    steps.append(" L 664.0 ");
    steps.append(last.as_str());
    let slot = series_var(i);
    let mut out = path(steps.as_str(), slot);
    if v.len() > 0 {
        let p = &v[v.len() - 1];
        assert(s.last() == (p.x@, p.y@));
        out.append(end_dot(p.x.as_str(), p.y.as_str(), slot).as_str());
    }
    out
}

/// The chart of avoidance bias over time, for a run that has any.
pub fn bias_chart(series: &Vec<BiasSeries>, c: &Chart, t0: u64, t1: u64) -> (r: Option<String>)
    requires
        t0 < u64::MAX,
    ensures
        match r {
            Some(s) => series@.len() > 0 && s@ == chart_text(series_views(series@), c@, t0, t1),
            None => series@.len() == 0,
        },
{
    if series.len() == 0 {
        return None;
    }
    let ghost cv = c@;
    let ghost sv = series_views(series@);
    let mut grid = String::new();
    let mut i: usize = 0;
    while i < c.grid.len()
        invariant
            i <= c.grid@.len(),
            cv == c@,
            grid@ == grid_lines(cv.grid, i as nat),
        decreases c.grid@.len() - i,
    {
        let l = &c.grid[i];
        assert(cv.grid[i as int] == (l.y@, l.label_y@, l.value@));
        grid.append(grid_line(l.y.as_str(), l.label_y.as_str(), l.value.as_str()).as_str());
        i = i + 1;
    }
    let mut lines = String::new();
    let mut j: usize = 0;
    while j < c.spots.len()
        invariant
            j <= c.spots@.len(),
            cv == c@,
            lines@ == lines_upto(cv.base_y, cv.spots, j as nat),
        decreases c.spots@.len() - j,
    {
        assert(cv.spots[j as int] == spot_views(c.spots@[j as int]@));
        lines.append(line_text(c.base_y.as_str(), &c.spots[j], j).as_str());
        j = j + 1;
    }
    let mut legend = "<div class=\"legend\">".to_owned();
    let mut k: usize = 0;
    while k < series.len()
        invariant
            k <= series@.len(),
            sv == series_views(series@),
            legend@ == legend_upto(sv, k as nat),
        decreases series@.len() - k,
    {
        assert(sv[k as int] == series@[k as int]@);
        let name = esc(series[k].vehicle.as_str());
        legend.append(legend_key(series_var(k), name.as_str()).as_str());
        k = k + 1;
    }
    let end: u64 = if t1 > t0 {
        t1
    } else {
        t0 + 1
    };
    let mut out = CHART_HEAD.to_owned();
    out.append(grid.as_str());
    out.append(lines.as_str());
    out.append(axis(t_rel(t0, t0).as_str(), t_rel(end, t0).as_str()).as_str());
    out.append(legend.as_str());
    out.append("</div>");
    proof {
        let n = sv.len();
        let a = CHART_HEAD@ + grid_lines(cv.grid, cv.grid.len()) + lines_upto(
            cv.base_y,
            cv.spots,
            cv.spots.len(),
        ) + axis_html(clock_text(t0, t0), clock_text(axis_end(t0, t1) as u64, t0));
        assert(out@ == a + legend_upto(sv, n) + "</div>"@);
    }
    Some(out)
}

/// The footer of every slide.
pub open spec fn foot_html(tip: Seq<char>, label: Seq<char>, n: nat) -> Seq<char> {
    "<span title=\""@
        + tip
        + "\">run "@
        + label
        + " · derived from "@
        + dec_text(n)
        + " content-addressed blocks</span>"@
}

fn foot(tip: &str, label: &str, n: u64) -> (r: String)
    ensures
        r@ == foot_html(tip@, label@, n as nat),
{
    let mut s = "<span title=\"".to_owned();
    s.append(tip);
    s.append("\">run ");
    s.append(label);
    s.append(" · derived from ");
    s.append(dec(n).as_str());
    s.append(" content-addressed blocks</span>");
    s
}

/// The title slide.
pub open spec fn title_html(label: Seq<char>, vehicles: nat, duration: Seq<char>) -> Seq<char> {
    "<h1>"@
        + label
        + "</h1><p class=\"sub\" style=\"font-size:20px\">miniMUAS mission — "@
        + dec_text(vehicles)
        + " vehicles, "@
        + duration
        + " s</p><p class=\"bullets\">One mission dataset. Every artifact you will see — \
         this deck, the engineer's report, the live demo — reads the <em>same named, \
         content-addressed data</em>. Nothing was exported, copied, or re-keyed.</p><p \
         class=\"nav-hint\">→ / ← to navigate</p>"@
}

fn title(label: &str, vehicles: u64, duration: &str) -> (r: String)
    ensures
        r@ == title_html(label@, vehicles as nat, duration@),
{
    let mut s = "<h1>".to_owned();
    s.append(label);
    s.append("</h1><p class=\"sub\" style=\"font-size:20px\">miniMUAS mission — ");
    s.append(dec(vehicles).as_str());
    s.append(" vehicles, ");
    s.append(duration);
    s.append(
        " s</p><p class=\"bullets\">One mission dataset. Every artifact you will see — \
         this deck, the engineer's report, the live demo — reads the <em>same named, \
         content-addressed data</em>. Nothing was exported, copied, or re-keyed.</p><p \
         class=\"nav-hint\">→ / ← to navigate</p>",
    );
    s
}

/// A setting of the inputs slide.
pub open spec fn kv_row_html(name: Seq<char>, value: Seq<char>, unit: Seq<char>) -> Seq<char> {
    "<div class=\"k\">"@
        + name
        + "</div><div class=\"v\">"@
        + value
        + unit
        + "</div>"@
}

fn kv_row(name: &str, value: &str, unit: &str) -> (r: String)
    ensures
        r@ == kv_row_html(name@, value@, unit@),
{
    let mut s = "<div class=\"k\">".to_owned();
    s.append(name);
    s.append("</div><div class=\"v\">");
    s.append(value);
    s.append(unit);
    s.append("</div>");
    s
}

/// The inputs slide.
pub open spec fn inputs_html(kv: Seq<char>, note: Seq<char>) -> Seq<char> {
    "<h2>The inputs — run configuration</h2><div class=\"kv\">"@
        + kv
        + "</div>"@
        + note
}

fn inputs(kv: &str, note: &str) -> (r: String)
    ensures
        r@ == inputs_html(kv@, note@),
{
    let mut s = "<h2>The inputs — run configuration</h2><div class=\"kv\">".to_owned();
    s.append(kv);
    s.append("</div>");
    s.append(note);
    s
}

/// The outcome slide.
pub open spec fn outcome_html(
    hero: Seq<char>,
    hero_label: Seq<char>,
    airborne: nat,
    attempts: nat,
    rtl: Seq<char>,
    ops: nat,
    rejected: nat,
    assoc: Seq<char>,
) -> Seq<char> {
    "<h2>The outcome</h2><div class=\"hero\">"@
        + hero
        + "</div><div class=\"hero-label\">"@
        + hero_label
        + "</div><p class=\"bullets\">"@
        + dec_text(airborne)
        + "/"@
        + dec_text(attempts)
        + " takeoffs airborne · RTL "@
        + rtl
        + " · "@
        + dec_text(ops)
        + " service calls ("@
        + dec_text(rejected)
        + " rejected)</p><p class=\"assoc\" style=\"text-align:center\">"@
        + assoc
        + "</p>"@
}

fn outcome(
    hero: &str,
    hero_label: &str,
    airborne: u64,
    attempts: u64,
    rtl: &str,
    ops: u64,
    rejected: u64,
    assoc: &str,
) -> (r: String)
    ensures
        r@ == outcome_html(
            hero@,
            hero_label@,
            airborne as nat,
            attempts as nat,
            rtl@,
            ops as nat,
            rejected as nat,
            assoc@,
        ),
{
    let mut s = "<h2>The outcome</h2><div class=\"hero\">".to_owned();
    s.append(hero);
    s.append("</div><div class=\"hero-label\">");
    s.append(hero_label);
    s.append("</div><p class=\"bullets\">");
    s.append(dec(airborne).as_str());
    s.append("/");
    s.append(dec(attempts).as_str());
    s.append(" takeoffs airborne · RTL ");
    s.append(rtl);
    s.append(" · ");
    s.append(dec(ops).as_str());
    s.append(" service calls (");
    s.append(dec(rejected).as_str());
    s.append(" rejected)</p><p class=\"assoc\" style=\"text-align:center\">");
    s.append(assoc);
    s.append("</p>");
    s
}

/// The coordination slide.
pub open spec fn fleet_html(chart: Seq<char>, assoc: Seq<char>) -> Seq<char> {
    "<h2>Fleet coordination</h2><p class=\"note\">Vertical avoidance bias applied \
         over the mission — each confirmed cooperative episode splits the separation; \
         an unconfirmed peer pushes the whole burden up.</p>"@
        + chart
        + "<p class=\"assoc\" style=\"text-align:center\">"@
        + assoc
        + "</p>"@
}

fn fleet(chart: &str, assoc: &str) -> (r: String)
    ensures
        r@ == fleet_html(chart@, assoc@),
{
    let mut s = "<h2>Fleet coordination</h2><p class=\"note\">Vertical avoidance bias \
                 applied over the mission — each confirmed cooperative episode splits \
                 the separation; an unconfirmed peer pushes the whole burden up.</p>".to_owned();
    s.append(chart);
    s.append("<p class=\"assoc\" style=\"text-align:center\">");
    s.append(assoc);
    s.append("</p>");
    s
}

/// The link slide.
pub open spec fn radio_html(assoc: Seq<char>, rows: Seq<char>, facts: Seq<char>) -> Seq<char> {
    "<h2>The radio, measured</h2><p class=\"assoc\" style=\"text-align:center\">"@
        + assoc
        + "</p><table><thead><tr><th>vehicle</th><th>telemetry inter-arrival p50 / \
         p95</th></tr></thead><tbody>"@
        + rows
        + "</tbody></table><p class=\"note\">"@
        + facts
        + "</p>"@
}

fn radio(assoc: &str, rows: &str, facts: &str) -> (r: String)
    ensures
        r@ == radio_html(assoc@, rows@, facts@),
{
    let mut s = "<h2>The radio, measured</h2><p class=\"assoc\" \
                 style=\"text-align:center\">".to_owned();
    s.append(assoc);
    s.append(
        "</p><table><thead><tr><th>vehicle</th><th>telemetry inter-arrival p50 / \
         p95</th></tr></thead><tbody>",
    );
    s.append(rows);
    s.append("</tbody></table><p class=\"note\">");
    s.append(facts);
    s.append("</p>");
    s
}

/// The provenance slide.
pub open spec fn sources_html(n: nat, rows: Seq<char>) -> Seq<char> {
    "<h2>Where these numbers come from</h2><p class=\"bullets\">Every figure in \
         this deck was read from "@
        + dec_text(n)
        + " signed Blocks on the vehicles' own journal chains and the ground station's \
         recording chain. The engineer's report and the replay demo cite <em>the same \
         hashes</em> — same data, different lens.</p><details><summary>sample of the \
         block \
         set</summary><table><thead><tr><th>hash</th><th>chain</th><th>seq</th></tr></thead><tbody>"@
        + rows
        + "</tbody></table></details><p class=\"note\">Full verification: \
         <code>muas-artifacts --audit</code> re-fetches and re-hashes every cited \
         Block.</p>"@
}

fn sources(n: u64, rows: &str) -> (r: String)
    ensures
        r@ == sources_html(n as nat, rows@),
{
    let mut s = "<h2>Where these numbers come from</h2><p class=\"bullets\">Every \
                 figure in this deck was read from ".to_owned();
    s.append(dec(n).as_str());
    s.append(
        " signed Blocks on the vehicles' own journal chains and the ground station's \
         recording chain. The engineer's report and the replay demo cite <em>the same \
         hashes</em> — same data, different lens.</p><details><summary>sample of the \
         block \
         set</summary><table><thead><tr><th>hash</th><th>chain</th><th>seq</th></tr></thead><tbody>",
    );
    s.append(rows);
    s.append(
        "</tbody></table></details><p class=\"note\">Full verification: \
         <code>muas-artifacts --audit</code> re-fetches and re-hashes every cited \
         Block.</p>",
    );
    s
}

/// The slides with their counter.
pub open spec fn deck_body_html(slides: Seq<char>) -> Seq<char> {
    slides
        + "<div class=\"counter\" id=\"counter\"></div><script>"@
        + DECK_JS@
        + "</script>"@
}

fn deck_body(slides: &str) -> (r: String)
    ensures
        r@ == deck_body_html(slides@),
{
    let mut s = slides.to_owned();
    s.append("<div class=\"counter\" id=\"counter\"></div><script>");
    s.append(DECK_JS);
    s.append("</script>");
    s
}

/// What the inputs slide says without any setting.
pub const NO_SETTINGS: &'static str = "<div class=\"k\">configuration</div><div class=\"v unknown\">unknown (no \
     run.config record)</div>";

/// What the inputs slide says of inferred settings.
pub const INFERRED: &'static str = "<p class=\"note\" style=\"text-align:center;margin-top:18px\">inferred from \
     journals — no run.config record; unlisted settings unknown</p>";

/// What the coordination slide says without a chart.
pub const NO_EPISODES: &'static str =
    "<p class=\"note\">No coordination episodes in this run.</p>";

/// The closing slide.
pub const CLOSING: &'static str = "<h1>Same data.<br>As much — or as little — as each audience needs.</h1><p \
     class=\"bullets\">Report · deck · demo · comparison: four lenses, one dataset, \
     zero copies. Provenance is the Block hash, not a file path.</p>";

/// The settings that the outcome is associated with.
pub open spec fn outcome_keys() -> Seq<Seq<char>> {
    seq![
        "coord.grace_s"@,
        "link_profile.loss_pct"@,
        "carrier"@,
    ]
}

fn outcome_list() -> (r: Vec<&'static str>)
    ensures
        key_texts(r@) == outcome_keys(),
{
    let mut v: Vec<&'static str> = Vec::new();
    v.push("coord.grace_s");
    v.push("link_profile.loss_pct");
    v.push("carrier");
    assert(key_texts(v@) =~= outcome_keys());
    v
}

/// The settings that coordination is associated with.
pub open spec fn fleet_keys() -> Seq<Seq<char>> {
    seq![
        "coord.grace_s"@,
        "coord.hsep_m"@,
        "coord.vsep_m"@,
        "coord.floor_agl_m"@,
    ]
}

fn fleet_list() -> (r: Vec<&'static str>)
    ensures
        key_texts(r@) == fleet_keys(),
{
    let mut v: Vec<&'static str> = Vec::new();
    v.push("coord.grace_s");
    v.push("coord.hsep_m");
    v.push("coord.vsep_m");
    v.push("coord.floor_agl_m");
    assert(key_texts(v@) =~= fleet_keys());
    v
}

/// The settings that the radio is associated with.
pub open spec fn radio_keys() -> Seq<Seq<char>> {
    seq![
        "link_profile.name"@,
        "link_profile.loss_pct"@,
        "link_profile.delay_ms"@,
        "link_profile.bandwidth_mbps"@,
    ]
}

fn radio_list() -> (r: Vec<&'static str>)
    ensures
        key_texts(r@) == radio_keys(),
{
    let mut v: Vec<&'static str> = Vec::new();
    v.push("link_profile.name");
    v.push("link_profile.loss_pct");
    v.push("link_profile.delay_ms");
    v.push("link_profile.bandwidth_mbps");
    assert(key_texts(v@) =~= radio_keys());
    v
}

/// `n`, or `limit` where that is less.
pub open spec fn at_most(n: nat, limit: nat) -> nat {
    if n < limit {
        n
    } else {
        limit
    }
}

/// The short hashes of the first `n` citations.
pub open spec fn shorts(s: Seq<CitationView>, n: nat) -> Seq<Seq<char>> {
    Seq::new(n, |i: int| short_of(s[i].hash))
}

/// The footer of a run's slides.
pub open spec fn foot_of(label: Seq<char>, s: Seq<CitationView>) -> Seq<char> {
    let k = at_most(s.len(), 4);
    foot_html(
        escaped(
            joined(shorts(s, k), ", "@, k) + (if s.len() > 4 {
                ", …"@
            } else {
                ""@
            }),
        ),
        escaped(label),
        s.len(),
    )
}

fn footer_text(label: &str, all: &Vec<Citation>) -> (r: String)
    ensures
        r@ == foot_of(label@, citation_views(all@)),
{
    let ghost s = citation_views(all@);
    let k: usize = if all.len() < 4 {
        all.len()
    } else {
        4
    };
    let mut short: Vec<String> = Vec::new();
    let mut i: usize = 0;
    while i < k
        invariant
            i <= k <= all@.len(),
            s == citation_views(all@),
            short@.len() == i,
            forall|j: int| 0 <= j < i ==> (#[trigger] short@[j])@ == short_of(s[j].hash),
        decreases k - i,
    {
        assert(s[i as int] == all@[i as int]@);
        short.push(hash_short(&all[i]));
        i = i + 1;
    }
    assert(views(short@) =~= shorts(s, k as nat));
    let mut tip = join(&short, ", ");
    let more = if all.len() > 4 {
        ", …"
    } else {
        ""
    };
    tip.append(more);
    foot(esc(tip.as_str()).as_str(), esc(label).as_str(), all.len() as u64)
}

/// The settings of the inputs slide among the first `n` leading ones.
pub open spec fn kv_rows(settings: TextMap<Setting>, n: nat) -> Seq<char>
    decreases n,
{
    if n == 0 || n > KEY_SETTINGS {
        Seq::empty()
    } else {
        let k = key_setting(n - 1);
        let before = kv_rows(settings, (n - 1) as nat);
        match shown_setting(settings, k.key) {
            Some(v) => before + kv_row_html(k.name, escaped(v), k.unit),
            None => before,
        }
    }
}

/// The inputs slide of a run.
pub open spec fn inputs_of(run: RunConfig) -> Seq<char> {
    let kv = kv_rows(run.settings, KEY_SETTINGS as nat);
    inputs_html(
        if kv.len() == 0 {
            NO_SETTINGS@
        } else {
            kv
        },
        if run.synthesized {
            INFERRED@
        } else {
            ""@
        },
    )
}

fn inputs_text(run: &RunConfig) -> (r: String)
    requires
        run.settings.ordered(),
    ensures
        r@ == inputs_of(*run),
{
    let mut kv = String::new();
    let mut i: usize = 0;
    while i < KEY_SETTINGS
        invariant
            i <= KEY_SETTINGS,
            run.settings.ordered(),
            kv@ == kv_rows(run.settings, i as nat),
        decreases KEY_SETTINGS - i,
    {
        let k = key_at(i);
        match run.display(k.key) {
            Some(v) => {
                let value = esc(v.as_str());
                kv.append(kv_row(k.name, value.as_str(), k.unit).as_str());
            },
            None => {},
        }
        i = i + 1;
    }
    let note = if run.synthesized {
        INFERRED
    } else {
        ""
    };
    if kv.as_str().unicode_len() == 0 {
        inputs(NO_SETTINGS, note)
    } else {
        inputs(kv.as_str(), note)
    }
}

/// The leading figure of the outcome slide and what it is.
pub open spec fn hero_of(
    rate: Option<FigureView>,
    coop: nat,
    unco: nat,
    airborne: nat,
    attempts: nat,
) -> (Seq<char>, Seq<char>) {
    match rate {
        Some(r) => (
            r.whole + "%"@,
            "cooperative avoidance success ("@ + dec_text(coop) + "/"@ + dec_text(coop + unco)
                + " episodes)"@,
        ),
        None => (
            dec_text(airborne) + "/"@ + dec_text(
                if attempts == 0 {
                    1
                } else {
                    attempts
                },
            ),
            "takeoffs completed"@,
        ),
    }
}

fn hero_text(m: &RunMetrics, g: &Measured) -> (r: (String, String))
    requires
        m@.consistent(),
    ensures
        (r.0@, r.1@) == hero_of(
            g@.coop_rate_pct,
            m@.coop,
            m@.unco,
            m@.takeoff_ok,
            m@.takeoff_attempts,
        ),
{
    match &g.coop_rate_pct {
        Some(f) => {
            let hero = cat(f.whole.as_str(), "%");
            let mut label = "cooperative avoidance success (".to_owned();
            label.append(dec(m.coop).as_str());
            label.append("/");
            label.append(dec(m.coop + m.unco).as_str());
            label.append(" episodes)");
            (hero, label)
        },
        None => {
            let mut hero = cat(dec(m.takeoff_ok).as_str(), "/");
            hero.append(
                dec(
                    if m.takeoff_attempts == 0 {
                        1
                    } else {
                        m.takeoff_attempts
                    },
                ).as_str(),
            );
            (hero, "takeoffs completed".to_owned())
        },
    }
}

/// The rows of the first `n` vehicles' telemetry gaps.
pub open spec fn radio_rows(
    s: Seq<VehicleView>,
    ms: Seq<Option<(FigureView, FigureView)>>,
    n: nat,
) -> Seq<char>
    decreases n,
{
    if n == 0 || n > s.len() {
        Seq::empty()
    } else {
        radio_rows(s, ms, (n - 1) as nat) + gap_row_html(
            escaped(s[n - 1].vehicle),
            match ms[n - 1] {
                Some(p) => p.0.whole + " / "@ + p.1.whole + " ms"@,
                None => ABSENT@,
            },
        )
    }
}

fn radio_lines(s: &Vec<VehicleSummary>, g: &Measured) -> (r: String)
    requires
        g.interarrival_ms@.len() == s@.len(),
    ensures
        r@ == radio_rows(summary_views(s@), g@.interarrival_ms, s@.len()),
{
    let ghost sv = summary_views(s@);
    let ghost ms = g@.interarrival_ms;
    let mut out = String::new();
    let mut i: usize = 0;
    while i < s.len()
        invariant
            i <= s@.len(),
            g.interarrival_ms@.len() == s@.len(),
            sv == summary_views(s@),
            ms == g@.interarrival_ms,
            out@ == radio_rows(sv, ms, i as nat),
        decreases s@.len() - i,
    {
        assert(sv[i as int] == s@[i as int]@);
        assert(ms[i as int] == battery_view(g.interarrival_ms@[i as int]));
        let gaps = match &g.interarrival_ms[i] {
            Some(p) => {
                let mut t = cat(p.0.whole.as_str(), " / ");
                t.append(p.1.whole.as_str());
                t.append(" ms");
                t
            },
            None => ABSENT.to_owned(),
        };
        out.append(gap_row(esc(s[i].vehicle.as_str()).as_str(), gaps.as_str()).as_str());
        i = i + 1;
    }
    out
}

/// What the deck says of the links.
pub open spec fn link_facts(
    rtt: Option<PctlView>,
    loss: Option<FigureView>,
    stale: nat,
) -> Seq<Seq<char>> {
    let a = match rtt {
        Some(p) => seq!["service RTT "@ + p.p50.whole + "/"@ + p.p95.whole + " ms"@],
        None => Seq::empty(),
    };
    let b = match loss {
        Some(f) => a.push("spark loss "@ + f.tenth + "%"@),
        None => a,
    };
    if stale > 0 {
        b.push(dec_text(stale) + " stale marks"@)
    } else {
        b
    }
}

/// The facts of the link slide in one line.
pub open spec fn facts_line(facts: Seq<Seq<char>>) -> Seq<char> {
    if facts.len() == 0 {
        "no service/spark link data in this run"@
    } else {
        joined(facts, " · "@, facts.len())
    }
}

fn facts_text(rtt: &Option<Pctl>, loss: &Option<Figure>, stale: u64) -> (r: String)
    ensures
        r@ == facts_line(link_facts(pctl_view(*rtt), seen(*loss), stale as nat)),
{
    let mut v: Vec<String> = Vec::new();
    assert(views(v@) =~= Seq::empty());
    match rtt {
        Some(p) => {
            let mut s = cat("service RTT ", p.p50.whole.as_str());
            s.append("/");
            s.append(p.p95.whole.as_str());
            s.append(" ms");
            push_text(&mut v, s);
            assert(views(v@) =~= seq![s@]);
        },
        None => {},
    }
    match loss {
        Some(f) => {
            let mut s = cat("spark loss ", f.tenth.as_str());
            s.append("%");
            push_text(&mut v, s);
        },
        None => {},
    }
    if stale > 0 {
        let mut s = dec(stale);
        s.append(" stale marks");
        push_text(&mut v, s);
    }
    assert(views(v@).len() == v@.len());
    if v.len() == 0 {
        "no service/spark link data in this run".to_owned()
    } else {
        join(&v, " · ")
    }
}

/// The time of the last datum, 0 when there is none.
pub open spec fn last_time(data: Seq<DatumView>) -> u64 {
    if data.len() > 0 {
        data.last().t_ns
    } else {
        0
    }
}

/// The seven slides of a run.
pub open spec fn slides_of(ds: MissionDataset, g: MeasuredView, c: ChartView) -> Seq<char> {
    let data = ds.data();
    let m = metrics_of(data);
    let label = label_of(shown(ds.run.run_id), ds.blocks@);
    let all = cited_blocks(ds.blocks@);
    let footer = foot_of(label, all);
    let hero = hero_of(g.coop_rate_pct, m.coop, m.unco, m.takeoff_ok, m.takeoff_attempts);
    let series = series_of(data);
    slide_html(
        title_html(
            escaped(label),
            sorted_texts(named_vehicles(data, data.len())).len(),
            g.duration_s.whole,
        ),
        footer,
    ) + slide_html(inputs_of(ds.run), footer) + slide_html(
        outcome_html(
            hero.0,
            escaped(hero.1),
            m.takeoff_ok,
            m.takeoff_attempts,
            rtl_text(m.rtl_outcome),
            m.service_ops,
            m.service_rejected,
            assoc_text(ds.run.settings, outcome_keys(), false),
        ),
        footer,
    ) + slide_html(
        fleet_html(
            if series.len() > 0 {
                chart_text(series, c, first_time(data), last_time(data))
            } else {
                NO_EPISODES@
            },
            assoc_text(ds.run.settings, fleet_keys(), false),
        ),
        footer,
    ) + slide_html(
        radio_html(
            assoc_text(ds.run.settings, radio_keys(), true),
            radio_rows(m.vehicles, g.interarrival_ms, m.vehicles.len()),
            escaped(facts_line(link_facts(m.service_rtt_ms, m.spark_loss_pct, m.stale_marks))),
        ),
        footer,
    ) + slide_html(sources_html(all.len(), citation_rows(all, at_most(all.len(), 8))), footer)
        + slide_html(CLOSING@, footer)
}

/// The deck of a run.
pub open spec fn deck_of(ds: MissionDataset, g: MeasuredView, c: ChartView) -> Seq<char> {
    page_of(
        "Mission deck — "@ + label_of(shown(ds.run.run_id), ds.blocks@),
        DECK_STYLE@,
        deck_body_html(slides_of(ds, g, c)),
    )
}

/// Render `deck.html` from the one dataset.
pub fn render(ds: &MissionDataset, g: &Measured, c: &Chart) -> (r: RenderedArtifact)
    requires
        ds.valid(),
        measures(g@, metrics_of(ds.data())),
        first_time(ds.data()) < u64::MAX,
    ensures
        r.html@ == deck_of(*ds, g@, c@),
        citation_views(r.citations@) == cited_blocks(ds.blocks@),
{
    let m = metrics(ds);
    let ghost dv = ds.data();
    let t0: u64 = ds.t0();
    let t1: u64 = ds.t1();
    proof {
        if dv.len() > 0 {
            assert(dv[0] == ds.data@[0]@);
            assert(dv.last() == ds.data@.last()@);
        }
        assert(summary_views(m.vehicles@).len() == m.vehicles@.len());
    }
    let label = ds.run_label();
    let all = ds.all_citations();
    assert(citation_views(all@).len() == all@.len());
    let footer = footer_text(label.as_str(), &all);
    let vehicles = ds.vehicles();
    assert(views(vehicles@).len() == vehicles@.len());

    let mut slides = slide(
        title(
            esc(label.as_str()).as_str(),
            vehicles.len() as u64,
            g.duration_s.whole.as_str(),
        ).as_str(),
        footer.as_str(),
    );
    slides.append(slide(inputs_text(&ds.run).as_str(), footer.as_str()).as_str());

    let hero = hero_text(&m, g);
    let result = outcome(
        hero.0.as_str(),
        esc(hero.1.as_str()).as_str(),
        m.takeoff_ok,
        m.takeoff_attempts,
        rtl_words(&m.rtl_outcome).as_str(),
        m.service_ops,
        m.service_rejected,
        assoc_line(&ds.run, &outcome_list(), false).as_str(),
    );
    slides.append(slide(result.as_str(), footer.as_str()).as_str());

    let series = bias_series(ds);
    assert(series_views(series@).len() == series@.len());
    let chart = match bias_chart(&series, c, t0, t1) {
        Some(s) => s,
        None => NO_EPISODES.to_owned(),
    };
    let coordination = fleet(
        chart.as_str(),
        assoc_line(&ds.run, &fleet_list(), false).as_str(),
    );
    slides.append(slide(coordination.as_str(), footer.as_str()).as_str());

    let facts = facts_text(&m.service_rtt_ms, &m.spark_loss_pct, m.stale_marks);
    let links = radio(
        assoc_line(&ds.run, &radio_list(), true).as_str(),
        radio_lines(&m.vehicles, g).as_str(),
        esc(facts.as_str()).as_str(),
    );
    slides.append(slide(links.as_str(), footer.as_str()).as_str());

    let k: usize = if all.len() < 8 {
        all.len()
    } else {
        8
    };
    let origin = sources(all.len() as u64, cite_rows(&all, k).as_str());
    slides.append(slide(origin.as_str(), footer.as_str()).as_str());
    slides.append(slide(CLOSING, footer.as_str()).as_str());
    assert(slides@ == slides_of(*ds, g@, c@));

    let title = cat("Mission deck — ", label.as_str());
    let body = deck_body(slides.as_str());
    RenderedArtifact { html: page(title.as_str(), DECK_STYLE, body.as_str()), citations: all }
}

} // verus!
