//! Outcome metrics, computed on demand from the mission dataset.
//!
//! No artifact keeps a transformed copy of the data: every renderer computes
//! its figures from the same dataset, so two artifacts cannot disagree about
//! what happened.

use vstd::prelude::*;

use crate::blocks::DatumKind;
use crate::dataset::{datum_views, has_prefix, shown, text_or, Datum, DatumView, MissionDataset};
use crate::json::{figure_of, field, flag_of, seen, text_of, Figure, FigureView, Json};
use crate::quantity::{real_zero, zero, Real, SIGN};
use crate::sorting::{lemma_insert_at, sorted_by, sorting_orders};
use crate::text::{cat, dec, dec_text, same, starts_with, strip_prefix, views};
use crate::text_map::{is_before, lemma_before_total, sort_texts, sorted_texts, text_before, TextMap};

verus! {

/// Position of the median among `n` ordered samples.
pub open spec fn median_place(n: nat) -> int {
    (n / 2) as int
}

/// Position of the 95th percentile among `n` ordered samples: 0.95 (n - 1),
/// rounded half up.
pub open spec fn tail_place(n: nat) -> int {
    (19 * (n - 1) + 10) / 20
}

fn tail_index(n: usize) -> (r: usize)
    requires
        n > 0,
    ensures
        r == tail_place(n as nat),
        r < n,
{
    let k: u128 = (19 * ((n - 1) as u128) + 10) / 20;
    k as usize
}

/// Percentiles of spans of time, in ns.
#[derive(Clone, Copy, Debug, PartialEq, Eq, Structural)]
pub struct SpanPctl {
    /// Median.
    pub p50: u64,
    /// 95th percentile.
    pub p95: u64,
    /// Longest.
    pub max: u64,
    /// Number of spans.
    pub n: usize,
}

/// A span as a sorting key.
pub open spec fn span_key() -> spec_fn(u64) -> int {
    |x: u64| x as int
}

/// The percentiles of spans; none of none.
pub open spec fn span_pctl(s: Seq<u64>) -> Option<SpanPctl> {
    if s.len() == 0 {
        None
    } else {
        let o = sorted_by(s, span_key());
        Some(
            SpanPctl {
                p50: o[median_place(s.len())],
                p95: o[tail_place(s.len())],
                max: o[s.len() - 1],
                n: s.len() as usize,
            },
        )
    }
}

fn sort_spans(s: &Vec<u64>) -> (r: Vec<u64>)
    ensures
        r@ == sorted_by(s@, span_key()),
        r@.len() == s@.len(),
{
    let mut out: Vec<u64> = Vec::new();
    let mut i: usize = 0;
    assert(out@ =~= sorted_by(s@.take(0), span_key()));
    while i < s.len()
        invariant
            i <= s@.len(),
            out@ == sorted_by(s@.take(i as int), span_key()),
            out@.len() == i,
        decreases s@.len() - i,
    {
        let x: u64 = s[i];
        let mut p: usize = out.len();
        proof {
            sorting_orders(s@.take(i as int), span_key());
        }
        while p > 0 && out[p - 1] > x
            invariant
                p <= out@.len(),
                forall|j: int| p <= j < out@.len() ==> span_key()(#[trigger] out@[j]) > span_key()(x),
            decreases p,
        {
            p = p - 1;
        }
        proof {
            assert forall|j: int| 0 <= j < p implies span_key()(#[trigger] out@[j]) <= span_key()(
                x,
            ) by {
                assert(span_key()(out@[j]) <= span_key()(out@[p - 1]));
            }
            lemma_insert_at(out@, x, span_key(), p as int);
            let t = s@.take(i + 1);
            assert(t.drop_last() =~= s@.take(i as int));
            assert(t.last() == x);
        }
        out.insert(p, x);
        i = i + 1;
    }
    assert(s@.take(i as int) =~= s@);
    out
}

fn spans_pctl(s: &Vec<u64>) -> (r: Option<SpanPctl>)
    ensures
        r == span_pctl(s@),
{
    if s.len() == 0 {
        return None;
    }
    let o = sort_spans(s);
    let n: usize = o.len();
    Some(SpanPctl { p50: o[n / 2], p95: o[tail_index(n)], max: o[n - 1], n })
}

/// Percentiles of measured figures.
#[derive(Debug)]
pub struct Pctl {
    /// Median.
    pub p50: Figure,
    /// 95th percentile.
    pub p95: Figure,
    /// Largest.
    pub max: Figure,
    /// Number of samples.
    pub n: usize,
}

/// Percentiles by their views.
#[verifier::ext_equal]
pub struct PctlView {
    pub p50: FigureView,
    pub p95: FigureView,
    pub max: FigureView,
    pub n: nat,
}

impl View for Pctl {
    type V = PctlView;

    open spec fn view(&self) -> PctlView {
        PctlView { p50: self.p50@, p95: self.p95@, max: self.max@, n: self.n as nat }
    }
}

/// Optional percentiles by their views.
pub open spec fn pctl_view(p: Option<Pctl>) -> Option<PctlView> {
    match p {
        Some(x) => Some(x@),
        None => None,
    }
}

/// Figures by their views.
pub open spec fn figure_views(v: Seq<Figure>) -> Seq<FigureView> {
    v.map_values(|f: Figure| f@)
}

/// A figure as a sorting key.
pub open spec fn figure_key() -> spec_fn(FigureView) -> int {
    |f: FigureView| f.real.key()
}

/// The percentiles of figures; none of none.
pub open spec fn pctl_of(s: Seq<FigureView>) -> Option<PctlView> {
    if s.len() == 0 {
        None
    } else {
        let o = sorted_by(s, figure_key());
        Some(
            PctlView {
                p50: o[median_place(s.len())],
                p95: o[tail_place(s.len())],
                max: o[s.len() - 1],
                n: s.len(),
            },
        )
    }
}

fn sort_figures(s: &Vec<Figure>) -> (r: Vec<Figure>)
    ensures
        figure_views(r@) == sorted_by(figure_views(s@), figure_key()),
        r@.len() == s@.len(),
{
    let ghost all = figure_views(s@);
    let mut out: Vec<Figure> = Vec::new();
    let mut i: usize = 0;
    assert(figure_views(out@) =~= sorted_by(all.take(0), figure_key()));
    while i < s.len()
        invariant
            i <= s@.len(),
            all == figure_views(s@),
            figure_views(out@) == sorted_by(all.take(i as int), figure_key()),
            out@.len() == i,
        decreases s@.len() - i,
    {
        let ghost head = figure_views(out@);
        let ghost x = all[i as int];
        let mut p: usize = out.len();
        proof {
            sorting_orders(all.take(i as int), figure_key());
        }
        while p > 0 && out[p - 1].real.above(&s[i].real)
            invariant
                p <= out@.len(),
                i < s@.len(),
                x == s@[i as int]@,
                head == figure_views(out@),
                forall|j: int| p <= j < head.len() ==> figure_key()(#[trigger] head[j])
                    > figure_key()(x),
            decreases p,
        {
            assert(head[p - 1] == out@[p - 1]@);
            p = p - 1;
        }
        proof {
            if p > 0 {
                assert(head[p - 1] == out@[p - 1]@);
            }
            assert forall|j: int| 0 <= j < p implies figure_key()(#[trigger] head[j])
                <= figure_key()(x) by {
                assert(figure_key()(head[j]) <= figure_key()(head[p - 1]));
            }
            lemma_insert_at(head, x, figure_key(), p as int);
            let t = all.take(i + 1);
            assert(t.drop_last() =~= all.take(i as int));
            assert(t.last() == x);
        }
        out.insert(p, s[i].clone());
        assert(figure_views(out@) =~= head.insert(p as int, x));
        i = i + 1;
    }
    assert(all.take(i as int) =~= all);
    out
}

/// Percentiles of figures.
pub fn pctl(s: &Vec<Figure>) -> (r: Option<Pctl>)
    ensures
        pctl_view(r) == pctl_of(figure_views(s@)),
{
    if s.len() == 0 {
        return None;
    }
    let o = sort_figures(s);
    let n: usize = o.len();
    let k: usize = tail_index(n);
    let ghost ov = figure_views(o@);
    assert(ov[(n / 2) as int] == o@[(n / 2) as int]@);
    assert(ov[k as int] == o@[k as int]@);
    assert(ov[n - 1] == o@[n - 1]@);
    Some(Pctl { p50: o[n / 2].clone(), p95: o[k].clone(), max: o[n - 1].clone(), n })
}

/// The figure zero.
pub open spec fn zero_figure() -> FigureView {
    FigureView { real: zero(), plain: "0"@, whole: "0"@, tenth: "0.0"@, json: "0.0"@ }
}

fn figure_zero() -> (r: Figure)
    ensures
        r@ == zero_figure(),
{
    Figure {
        real: real_zero(),
        plain: "0".to_owned(),
        whole: "0".to_owned(),
        tenth: "0.0".to_owned(),
        json: "0.0".to_owned(),
    }
}

/// The larger of two figures; the first where neither is.
pub open spec fn larger(a: FigureView, b: FigureView) -> FigureView {
    if a.real.below(b.real) {
        b
    } else {
        a
    }
}

fn larger_figure(a: Figure, b: Figure) -> (r: Figure)
    ensures
        r@ == larger(a@, b@),
{
    if a.real.lt(&b.real) {
        b
    } else {
        a
    }
}

/// A printed number without its minus sign.
pub open spec fn unsigned(s: Seq<char>) -> Seq<char> {
    if has_prefix(s, "-"@) {
        s.skip(1)
    } else {
        s
    }
}

/// The magnitude of a figure.
pub open spec fn absolute(f: FigureView) -> FigureView {
    FigureView {
        real: Real { bits: f.real.magnitude() as u64 },
        plain: unsigned(f.plain),
        whole: unsigned(f.whole),
        tenth: unsigned(f.tenth),
        json: unsigned(f.json),
    }
}

fn drop_sign(s: &str) -> (r: String)
    ensures
        r@ == unsigned(s@),
{
    proof {
        reveal_strlit("-");
    }
    match strip_prefix(s, "-") {
        Some(t) => t.to_owned(),
        None => s.to_owned(),
    }
}

fn absolute_figure(f: &Figure) -> (r: Figure)
    ensures
        r@ == absolute(f@),
{
    let bits: u64 = if f.real.bits >= SIGN {
        f.real.bits - SIGN
    } else {
        f.real.bits
    };
    Figure {
        real: Real { bits },
        plain: drop_sign(f.plain.as_str()),
        whole: drop_sign(f.whole.as_str()),
        tenth: drop_sign(f.tenth.as_str()),
        json: drop_sign(f.json.as_str()),
    }
}

/// Whether a datum is a telemetry sample of a vehicle.
pub open spec fn telemetry_of(d: DatumView, vehicle: Seq<char>) -> bool {
    d.kind == DatumKind::Telemetry && d.vehicle == Some(vehicle)
}

/// A field of a telemetry sample.
pub open spec fn sample_field(d: DatumView, key: Seq<char>) -> Option<Json> {
    match field(d.body, "sample"@) {
        Some(s) => field(s, key),
        None => None,
    }
}

pub(crate) fn is_telemetry_of(d: &Datum, vehicle: &str) -> (r: bool)
    ensures
        r == telemetry_of(d@, vehicle@),
{
    d.kind == DatumKind::Telemetry && match &d.vehicle {
        Some(v) => same(v.as_str(), vehicle),
        None => false,
    }
}

pub(crate) fn sample_figure(d: &Datum, key: &str) -> (r: Option<Figure>)
    ensures
        seen(r) == figure_of(sample_field(d@, key@)),
{
    match d.body.get("sample") {
        Some(s) => s.figure_field(key),
        None => None,
    }
}

fn sample_text(d: &Datum, key: &str) -> (r: Option<String>)
    ensures
        match r {
            Some(s) => text_of(sample_field(d@, key@)) == Some(s@),
            None => text_of(sample_field(d@, key@)) is None,
        },
{
    match d.body.get("sample") {
        Some(s) => s.text_field(key),
        None => None,
    }
}

/// Number of the first `n` data with a property.
pub open spec fn count_where(data: Seq<DatumView>, p: spec_fn(DatumView) -> bool, n: nat) -> nat
    decreases n,
{
    if n == 0 || n > data.len() {
        0
    } else {
        count_where(data, p, (n - 1) as nat) + (if p(data[n - 1]) {
            1nat
        } else {
            0
        })
    }
}

/// A count over more data is at least as large, and grows by one at most.
pub proof fn lemma_count_bound(data: Seq<DatumView>, p: spec_fn(DatumView) -> bool, n: nat)
    ensures
        count_where(data, p, n) <= n,
    decreases n,
{
    if n > 0 && n <= data.len() {
        lemma_count_bound(data, p, (n - 1) as nat);
    }
}

/// The largest value of a sample field of a vehicle, not below zero.
pub open spec fn peak(
    data: Seq<DatumView>,
    vehicle: Seq<char>,
    key: Seq<char>,
    n: nat,
) -> FigureView
    decreases n,
{
    if n == 0 || n > data.len() {
        zero_figure()
    } else {
        let before = peak(data, vehicle, key, (n - 1) as nat);
        match figure_of(sample_field(data[n - 1], key)) {
            Some(f) => if telemetry_of(data[n - 1], vehicle) {
                larger(before, f)
            } else {
                before
            },
            None => before,
        }
    }
}

/// The battery level of a vehicle's sample, when it reports one.
pub open spec fn battery_of(d: DatumView, vehicle: Seq<char>) -> Option<FigureView> {
    match figure_of(sample_field(d, "battery_pct"@)) {
        Some(f) => if telemetry_of(d, vehicle) && zero().at_most(f.real) {
            Some(f)
        } else {
            None
        },
        None => None,
    }
}

/// The first and the last battery level of a vehicle.
pub open spec fn battery_range(
    data: Seq<DatumView>,
    vehicle: Seq<char>,
    n: nat,
) -> Option<(FigureView, FigureView)>
    decreases n,
{
    if n == 0 || n > data.len() {
        None
    } else {
        let before = battery_range(data, vehicle, (n - 1) as nat);
        match battery_of(data[n - 1], vehicle) {
            Some(b) => match before {
                Some(r) => Some((r.0, b)),
                None => Some((b, b)),
            },
            None => before,
        }
    }
}

/// The modes of a vehicle, in the order in which they were first seen.
pub open spec fn modes_seen(data: Seq<DatumView>, vehicle: Seq<char>, n: nat) -> Seq<Seq<char>>
    decreases n,
{
    if n == 0 || n > data.len() {
        Seq::empty()
    } else {
        let before = modes_seen(data, vehicle, (n - 1) as nat);
        match text_of(sample_field(data[n - 1], "mode"@)) {
            Some(m) => if telemetry_of(data[n - 1], vehicle) && !before.contains(m) {
                before.push(m)
            } else {
                before
            },
            None => before,
        }
    }
}

/// The times of a vehicle's samples.
pub open spec fn sample_times(data: Seq<DatumView>, vehicle: Seq<char>, n: nat) -> Seq<u64>
    decreases n,
{
    if n == 0 || n > data.len() {
        Seq::empty()
    } else if telemetry_of(data[n - 1], vehicle) {
        sample_times(data, vehicle, (n - 1) as nat).push(data[n - 1].t_ns)
    } else {
        sample_times(data, vehicle, (n - 1) as nat)
    }
}

/// `b - a`, not below zero.
pub open spec fn span(a: u64, b: u64) -> u64 {
    if b >= a {
        (b - a) as u64
    } else {
        0
    }
}

/// The spans between neighbouring times.
pub open spec fn gaps(times: Seq<u64>) -> Seq<u64> {
    Seq::new(
        if times.len() == 0 {
            0
        } else {
            (times.len() - 1) as nat
        },
        |i: int| span(times[i], times[i + 1]),
    )
}

/// Flight summary of one vehicle, from its telemetry samples.
#[derive(Debug)]
pub struct VehicleSummary {
    pub vehicle: String,
    /// Telemetry samples seen.
    pub samples: usize,
    /// Largest height above ground (m).
    pub max_agl_m: Figure,
    /// Largest ground speed (m/s).
    pub max_speed_m_s: Figure,
    /// Battery percent, first and last sample that report it.
    pub battery_pct: Option<(Figure, Figure)>,
    /// Flight-controller modes, in the order in which they were first seen.
    pub modes: Vec<String>,
    /// Spans between telemetry samples.
    pub interarrival: Option<SpanPctl>,
}

/// A flight summary by its values.
#[verifier::ext_equal]
pub struct VehicleView {
    pub vehicle: Seq<char>,
    pub samples: nat,
    pub max_agl_m: FigureView,
    pub max_speed_m_s: FigureView,
    pub battery_pct: Option<(FigureView, FigureView)>,
    pub modes: Seq<Seq<char>>,
    pub interarrival: Option<SpanPctl>,
}

impl View for VehicleSummary {
    type V = VehicleView;

    open spec fn view(&self) -> VehicleView {
        VehicleView {
            vehicle: self.vehicle@,
            samples: self.samples as nat,
            max_agl_m: self.max_agl_m@,
            max_speed_m_s: self.max_speed_m_s@,
            battery_pct: battery_view(self.battery_pct),
            modes: views(self.modes@),
            interarrival: self.interarrival,
        }
    }
}

/// Battery levels by their views.
pub open spec fn battery_view(b: Option<(Figure, Figure)>) -> Option<(FigureView, FigureView)> {
    match b {
        Some(r) => Some((r.0@, r.1@)),
        None => None,
    }
}

/// A telemetry sample of a vehicle, as a property of data.
pub open spec fn is_sample(vehicle: Seq<char>) -> spec_fn(DatumView) -> bool {
    |d: DatumView| telemetry_of(d, vehicle)
}

/// The flight summary of a vehicle.
pub open spec fn vehicle_summary(data: Seq<DatumView>, vehicle: Seq<char>) -> VehicleView {
    VehicleView {
        vehicle,
        samples: count_where(data, is_sample(vehicle), data.len()),
        max_agl_m: peak(data, vehicle, "agl_m"@, data.len()),
        max_speed_m_s: peak(data, vehicle, "groundspeed_m_s"@, data.len()),
        battery_pct: battery_range(data, vehicle, data.len()),
        modes: modes_seen(data, vehicle, data.len()),
        interarrival: span_pctl(gaps(sample_times(data, vehicle, data.len()))),
    }
}

pub(crate) fn has_text(v: &Vec<String>, s: &str) -> (r: bool)
    ensures
        r == views(v@).contains(s@),
{
    let mut i: usize = 0;
    while i < v.len()
        invariant
            i <= v@.len(),
            forall|j: int| 0 <= j < i ==> views(v@)[j] != s@,
        decreases v@.len() - i,
    {
        if same(v[i].as_str(), s) {
            assert(views(v@)[i as int] == s@);
            return true;
        }
        i = i + 1;
    }
    false
}

fn gap_list(times: &Vec<u64>) -> (r: Vec<u64>)
    ensures
        r@ == gaps(times@),
{
    let mut out: Vec<u64> = Vec::new();
    let mut i: usize = 1;
    while i < times.len()
        invariant
            1 <= i,
            i == 1 || i <= times@.len(),
            out@.len() == i - 1,
            forall|j: int| 0 <= j < out@.len() ==> #[trigger] out@[j] == span(
                times@[j],
                times@[j + 1],
            ),
        decreases times@.len() - i,
    {
        let a: u64 = times[i - 1];
        let b: u64 = times[i];
        out.push(
            if b >= a {
                b - a
            } else {
                0
            },
        );
        i = i + 1;
    }
    assert(out@ =~= gaps(times@));
    out
}

fn summarize(data: &Vec<Datum>, vehicle: &str) -> (r: VehicleSummary)
    ensures
        r@ == vehicle_summary(datum_views(data@), vehicle@),
{
    let ghost ds = datum_views(data@);
    let mut samples: usize = 0;
    let mut max_agl_m = figure_zero();
    let mut max_speed_m_s = figure_zero();
    let mut battery_pct: Option<(Figure, Figure)> = None;
    let mut modes: Vec<String> = Vec::new();
    let mut times: Vec<u64> = Vec::new();
    let mut i: usize = 0;
    assert(views(modes@) =~= modes_seen(ds, vehicle@, 0));
    while i < data.len()
        invariant
            i <= data@.len(),
            ds == datum_views(data@),
            samples <= i,
            samples == count_where(ds, is_sample(vehicle@), i as nat),
            max_agl_m@ == peak(ds, vehicle@, "agl_m"@, i as nat),
            max_speed_m_s@ == peak(ds, vehicle@, "groundspeed_m_s"@, i as nat),
            battery_view(battery_pct) == battery_range(ds, vehicle@, i as nat),
            views(modes@) == modes_seen(ds, vehicle@, i as nat),
            times@ == sample_times(ds, vehicle@, i as nat),
        decreases data@.len() - i,
    {
        let d = &data[i];
        assert(ds[i as int] == d@);
        if is_telemetry_of(d, vehicle) {
            samples = samples + 1;
            match sample_figure(d, "agl_m") {
                Some(f) => {
                    max_agl_m = larger_figure(max_agl_m, f);
                },
                None => {},
            }
            match sample_figure(d, "groundspeed_m_s") {
                Some(f) => {
                    max_speed_m_s = larger_figure(max_speed_m_s, f);
                },
                None => {},
            }
            match sample_figure(d, "battery_pct") {
                Some(b) => {
                    if real_zero().le(&b.real) {
                        battery_pct = match battery_pct {
                            Some(range) => Some((range.0, b)),
                            None => Some((b.clone(), b)),
                        };
                    }
                },
                None => {},
            }
            match sample_text(d, "mode") {
                Some(m) => {
                    if !has_text(&modes, m.as_str()) {
                        let ghost before = modes@;
                        modes.push(m);
                        assert(views(modes@) =~= views(before).push(m@));
                    }
                },
                None => {},
            }
            times.push(d.t_ns);
        }
        i = i + 1;
    }
    let gaps = gap_list(&times);
    VehicleSummary {
        vehicle: vehicle.to_owned(),
        samples,
        max_agl_m,
        max_speed_m_s,
        battery_pct,
        modes,
        interarrival: spans_pctl(&gaps),
    }
}

/// The vehicles that the first `n` data hold telemetry of.
pub open spec fn telemetry_vehicles(data: Seq<DatumView>, n: nat) -> Seq<Seq<char>>
    decreases n,
{
    if n == 0 || n > data.len() {
        Seq::empty()
    } else {
        let before = telemetry_vehicles(data, (n - 1) as nat);
        match data[n - 1].vehicle {
            Some(v) => if data[n - 1].kind == DatumKind::Telemetry {
                before.push(v)
            } else {
                before
            },
            None => before,
        }
    }
}

fn telemetry_vehicle_list(data: &Vec<Datum>) -> (r: Vec<String>)
    ensures
        views(r@) == telemetry_vehicles(datum_views(data@), data@.len()),
{
    let ghost ds = datum_views(data@);
    let mut out: Vec<String> = Vec::new();
    let mut i: usize = 0;
    assert(views(out@) =~= telemetry_vehicles(ds, 0));
    while i < data.len()
        invariant
            i <= data@.len(),
            ds == datum_views(data@),
            views(out@) == telemetry_vehicles(ds, i as nat),
        decreases data@.len() - i,
    {
        assert(ds[i as int] == data@[i as int]@);
        match &data[i].vehicle {
            Some(v) => {
                if data[i].kind == DatumKind::Telemetry {
                    let ghost before = out@;
                    out.push(v.clone());
                    assert(views(out@) =~= views(before).push(v@));
                }
            },
            None => {},
        }
        i = i + 1;
    }
    out
}

/// Events of one pair this close together (ns) belong to one episode.
pub const EPISODE_MERGE_NS: u64 = 3_000_000_000;

/// Label of a confirmed cooperative avoidance.
pub const COOP: &'static str = "coord.coop";

/// Label of an uncooperative fallback.
pub const UNCO: &'static str = "coord.unco";

/// The two sides of a coordination event, the same for both of them.
pub open spec fn pair_of(d: DatumView) -> Seq<char> {
    let a = text_or(d.vehicle, Seq::empty());
    let b = text_or(text_of(field(d.body, "peer"@)), Seq::empty());
    if text_before(b, a) {
        b + "|"@ + a
    } else {
        a + "|"@ + b
    }
}

/// Whether a datum is a coordination event with a label.
pub open spec fn coord_event(d: DatumView, label: Seq<char>) -> bool {
    d.kind == DatumKind::Coord && d.label == label
}

/// The time of the last event of a pair among the first `n` data.
pub open spec fn last_seen(
    data: Seq<DatumView>,
    label: Seq<char>,
    pair: Seq<char>,
    n: nat,
) -> Option<u64>
    decreases n,
{
    if n == 0 || n > data.len() {
        None
    } else if coord_event(data[n - 1], label) && pair_of(data[n - 1]) == pair {
        Some(data[n - 1].t_ns)
    } else {
        last_seen(data, label, pair, (n - 1) as nat)
    }
}

/// Whether the event at `i` begins an episode: the last event of its pair is
/// not close before it.
pub open spec fn begins_episode(data: Seq<DatumView>, label: Seq<char>, i: nat) -> bool {
    match last_seen(data, label, pair_of(data[i as int]), i) {
        Some(t) => span(t, data[i as int].t_ns) >= EPISODE_MERGE_NS,
        None => true,
    }
}

/// Number of episodes of a label among the first `n` data. Both sides of a
/// pair journal the same manoeuvre, and their events count once.
pub open spec fn episodes(data: Seq<DatumView>, label: Seq<char>, n: nat) -> nat
    decreases n,
{
    if n == 0 || n > data.len() {
        0
    } else {
        episodes(data, label, (n - 1) as nat) + (if coord_event(data[n - 1], label)
            && begins_episode(data, label, (n - 1) as nat) {
            1nat
        } else {
            0
        })
    }
}

fn pair_text(d: &Datum) -> (r: String)
    ensures
        r@ == pair_of(d@),
{
    proof {
        reveal_strlit("");
        assert(""@ =~= Seq::empty());
    }
    let a = match &d.vehicle {
        Some(v) => v.clone(),
        None => "".to_owned(),
    };
    let b = match d.body.text_field("peer") {
        Some(p) => p,
        None => "".to_owned(),
    };
    if is_before(b.as_str(), a.as_str()) {
        let mut s = cat(b.as_str(), "|");
        s.append(a.as_str());
        s
    } else {
        let mut s = cat(a.as_str(), "|");
        s.append(b.as_str());
        s
    }
}

fn count_episodes(data: &Vec<Datum>, label: &str) -> (r: u64)
    ensures
        r == episodes(datum_views(data@), label@, data@.len()),
        r <= data@.len(),
{
    let ghost ds = datum_views(data@);
    let mut last: TextMap<u64> = TextMap::new();
    let mut n: u64 = 0;
    let mut i: usize = 0;
    proof {
        assert forall|k: Seq<char>| #[trigger] last.lookup(k) == last_seen(ds, label@, k, 0) by {
            assert(!last.has(k));
        }
    }
    while i < data.len()
        invariant
            i <= data@.len(),
            ds == datum_views(data@),
            n <= i,
            n == episodes(ds, label@, i as nat),
            last.ordered(),
            forall|k: Seq<char>| #[trigger]
                last.lookup(k) == last_seen(ds, label@, k, i as nat),
        decreases data@.len() - i,
    {
        let d = &data[i];
        assert(ds[i as int] == d@);
        if d.kind == DatumKind::Coord && same(d.label.as_str(), label) {
            let pair = pair_text(d);
            let fresh = match last.get(pair.as_str()) {
                Some(t) => !(d.t_ns <= *t || d.t_ns - *t < EPISODE_MERGE_NS),
                None => true,
            };
            if fresh {
                n = n + 1;
            }
            last.insert(pair, d.t_ns);
        }
        i = i + 1;
    }
    n
}

/// The largest bias among the first `n` data, without its sign.
pub open spec fn largest_bias(data: Seq<DatumView>, n: nat) -> Option<FigureView>
    decreases n,
{
    if n == 0 || n > data.len() {
        None
    } else {
        let before = largest_bias(data, (n - 1) as nat);
        match figure_of(field(data[n - 1].body, "bias_m"@)) {
            Some(b) => if data[n - 1].kind == DatumKind::Coord {
                Some(
                    larger(
                        match before {
                            Some(f) => f,
                            None => zero_figure(),
                        },
                        absolute(b),
                    ),
                )
            } else {
                before
            },
            None => before,
        }
    }
}

fn max_bias(data: &Vec<Datum>) -> (r: Option<Figure>)
    ensures
        seen(r) == largest_bias(datum_views(data@), data@.len()),
{
    let ghost ds = datum_views(data@);
    let mut out: Option<Figure> = None;
    let mut i: usize = 0;
    while i < data.len()
        invariant
            i <= data@.len(),
            ds == datum_views(data@),
            seen(out) == largest_bias(ds, i as nat),
        decreases data@.len() - i,
    {
        let d = &data[i];
        assert(ds[i as int] == d@);
        if d.kind == DatumKind::Coord {
            match d.body.figure_field("bias_m") {
                Some(b) => {
                    let before = match out {
                        Some(f) => f,
                        None => figure_zero(),
                    };
                    out = Some(larger_figure(before, absolute_figure(&b)));
                },
                None => {},
            }
        }
        i = i + 1;
    }
    out
}

/// A takeoff attempt.
pub open spec fn takeoff_result() -> spec_fn(DatumView) -> bool {
    |d: DatumView| d.kind == DatumKind::Service && d.label == "flight.takeoff.result"@
}

/// A takeoff that reported airborne.
pub open spec fn took_off() -> spec_fn(DatumView) -> bool {
    |d: DatumView| takeoff_result()(d) && flag_of(field(d.body, "airborne"@)) == Some(
        true,
    )
}

/// A journaled service invocation.
pub open spec fn service_call() -> spec_fn(DatumView) -> bool {
    |d: DatumView| d.kind == DatumKind::Service && has_prefix(d.label, "service."@)
}

/// A service invocation that was rejected.
pub open spec fn service_refusal() -> spec_fn(DatumView) -> bool {
    |d: DatumView| service_call()(d) && flag_of(field(d.body, "accepted"@)) == Some(
        false,
    )
}

/// A stale-telemetry mark of the dashboard.
pub open spec fn stale_mark() -> spec_fn(DatumView) -> bool {
    |d: DatumView| d.kind == DatumKind::Link && d.label == "telemetry_stale"@
}

/// A video statistics report.
pub open spec fn video_report() -> spec_fn(DatumView) -> bool {
    |d: DatumView| d.kind == DatumKind::Link && d.label == "video_stats"@
}

/// Another report on a link.
pub open spec fn other_link() -> spec_fn(DatumView) -> bool {
    |d: DatumView| d.kind == DatumKind::Link && d.label != "telemetry_stale"@ && d.label
        != "video_stats"@
}

/// The values of a field in the first `n` data with a property.
pub open spec fn figures_where(
    data: Seq<DatumView>,
    p: spec_fn(DatumView) -> bool,
    key: Seq<char>,
    n: nat,
) -> Seq<FigureView>
    decreases n,
{
    if n == 0 || n > data.len() {
        Seq::empty()
    } else {
        let before = figures_where(data, p, key, (n - 1) as nat);
        match figure_of(field(data[n - 1].body, key)) {
            Some(f) => if p(data[n - 1]) {
                before.push(f)
            } else {
                before
            },
            None => before,
        }
    }
}

/// The outcome of the last smart return to launch among the first `n` data.
pub open spec fn last_outcome(data: Seq<DatumView>, n: nat) -> Option<Seq<char>>
    decreases n,
{
    if n == 0 || n > data.len() {
        None
    } else {
        let before = last_outcome(data, (n - 1) as nat);
        match text_of(field(data[n - 1].body, "outcome"@)) {
            Some(o) => if data[n - 1].kind == DatumKind::Rtl && data[n - 1].label == "rtl.done"@ {
                Some(o)
            } else {
                before
            },
            None => before,
        }
    }
}

/// The run's outcome metrics.
#[derive(Debug)]
pub struct RunMetrics {
    /// Time from the first to the last datum (ns).
    pub duration_ns: u64,
    /// Summaries of the vehicles, in the order of their ids.
    pub vehicles: Vec<VehicleSummary>,
    /// Takeoff attempts (`flight.takeoff.result` data).
    pub takeoff_attempts: u64,
    /// Takeoffs that reported airborne.
    pub takeoff_ok: u64,
    /// Cooperative avoidance episodes (`coord.coop`).
    pub coop: u64,
    /// Uncooperative fallback episodes (`coord.unco`).
    pub unco: u64,
    /// Largest vertical avoidance bias (m).
    pub max_bias_m: Option<Figure>,
    /// Outcome of the last smart return to launch (`rtl.done`).
    pub rtl_outcome: Option<String>,
    /// Service invocations journaled (`service.*`).
    pub service_ops: u64,
    /// Service invocations rejected.
    pub service_rejected: u64,
    /// Service round trips (ms), when events carry `rtt_ms`.
    pub service_rtt_ms: Option<Pctl>,
    /// Stale-telemetry marks of the dashboard.
    pub stale_marks: u64,
    /// Telemetry-lane frame loss percent, as last reported.
    pub spark_loss_pct: Option<Figure>,
    /// Video bitrates (kbps), in time order.
    pub video_kbps: Vec<Figure>,
}

/// Outcome metrics by their values.
#[verifier::ext_equal]
pub struct MetricsView {
    pub duration_ns: u64,
    pub vehicles: Seq<VehicleView>,
    pub takeoff_attempts: nat,
    pub takeoff_ok: nat,
    pub coop: nat,
    pub unco: nat,
    pub max_bias_m: Option<FigureView>,
    pub rtl_outcome: Option<Seq<char>>,
    pub service_ops: nat,
    pub service_rejected: nat,
    pub service_rtt_ms: Option<PctlView>,
    pub stale_marks: nat,
    pub spark_loss_pct: Option<FigureView>,
    pub video_kbps: Seq<FigureView>,
}

/// Summaries by their views.
pub open spec fn summary_views(v: Seq<VehicleSummary>) -> Seq<VehicleView> {
    v.map_values(|s: VehicleSummary| s@)
}

impl View for RunMetrics {
    type V = MetricsView;

    open spec fn view(&self) -> MetricsView {
        MetricsView {
            duration_ns: self.duration_ns,
            vehicles: summary_views(self.vehicles@),
            takeoff_attempts: self.takeoff_attempts as nat,
            takeoff_ok: self.takeoff_ok as nat,
            coop: self.coop as nat,
            unco: self.unco as nat,
            max_bias_m: seen(self.max_bias_m),
            rtl_outcome: shown(self.rtl_outcome),
            service_ops: self.service_ops as nat,
            service_rejected: self.service_rejected as nat,
            service_rtt_ms: pctl_view(self.service_rtt_ms),
            stale_marks: self.stale_marks as nat,
            spark_loss_pct: seen(self.spark_loss_pct),
            video_kbps: figure_views(self.video_kbps@),
        }
    }
}

impl MetricsView {
    /// No more rejections than invocations, no more takeoffs than attempts,
    /// and episodes that can be counted together.
    pub open spec fn consistent(self) -> bool {
        &&& self.service_rejected <= self.service_ops
        &&& self.takeoff_ok <= self.takeoff_attempts
        &&& self.coop + self.unco <= u64::MAX
    }
}

/// The last of some figures.
pub open spec fn last_figure(s: Seq<FigureView>) -> Option<FigureView> {
    if s.len() == 0 {
        None
    } else {
        Some(s.last())
    }
}

/// The outcome metrics of data.
pub open spec fn metrics_of(data: Seq<DatumView>) -> MetricsView {
    let n = data.len();
    MetricsView {
        duration_ns: if n == 0 {
            0
        } else {
            span(data[0].t_ns, data.last().t_ns)
        },
        vehicles: sorted_texts(telemetry_vehicles(data, n)).map_values(
            |v: Seq<char>| vehicle_summary(data, v),
        ),
        takeoff_attempts: count_where(data, takeoff_result(), n),
        takeoff_ok: count_where(data, took_off(), n),
        coop: episodes(data, COOP@, n),
        unco: episodes(data, UNCO@, n),
        max_bias_m: largest_bias(data, n),
        rtl_outcome: last_outcome(data, n),
        service_ops: count_where(data, service_call(), n),
        service_rejected: count_where(data, service_refusal(), n),
        service_rtt_ms: pctl_of(figures_where(data, service_call(), "rtt_ms"@, n)),
        stale_marks: count_where(data, stale_mark(), n),
        spark_loss_pct: last_figure(figures_where(data, other_link(), "frame_loss_pct"@, n)),
        video_kbps: figures_where(data, video_report(), "kbps"@, n),
    }
}

/// No datum belongs to episodes of both kinds.
proof fn lemma_episodes_bound(data: Seq<DatumView>, n: nat)
    ensures
        episodes(data, COOP@, n) + episodes(data, UNCO@, n) <= n,
    decreases n,
{
    reveal_strlit("coord.coop");
    reveal_strlit("coord.unco");
    assert(COOP@[6] == 'c');
    assert(UNCO@[6] == 'u');
    if n > 0 && n <= data.len() {
        lemma_episodes_bound(data, (n - 1) as nat);
    }
}

/// What the services of a run did.
struct ServiceTally {
    takeoff_attempts: u64,
    takeoff_ok: u64,
    ops: u64,
    rejected: u64,
    rtts: Vec<Figure>,
}

fn tally_services(data: &Vec<Datum>) -> (r: ServiceTally)
    ensures
        r.takeoff_attempts == count_where(datum_views(data@), takeoff_result(), data@.len()),
        r.takeoff_ok == count_where(datum_views(data@), took_off(), data@.len()),
        r.ops == count_where(datum_views(data@), service_call(), data@.len()),
        r.rejected == count_where(datum_views(data@), service_refusal(), data@.len()),
        figure_views(r.rtts@) == figures_where(
            datum_views(data@),
            service_call(),
            "rtt_ms"@,
            data@.len(),
        ),
        r.rejected <= r.ops,
        r.takeoff_ok <= r.takeoff_attempts,
{
    let ghost ds = datum_views(data@);
    let mut t = ServiceTally {
        takeoff_attempts: 0,
        takeoff_ok: 0,
        ops: 0,
        rejected: 0,
        rtts: Vec::new(),
    };
    let mut i: usize = 0;
    assert(figure_views(t.rtts@) =~= figures_where(ds, service_call(), "rtt_ms"@, 0));
    while i < data.len()
        invariant
            i <= data@.len(),
            ds == datum_views(data@),
            t.takeoff_ok <= t.takeoff_attempts <= i,
            t.rejected <= t.ops <= i,
            t.takeoff_attempts == count_where(ds, takeoff_result(), i as nat),
            t.takeoff_ok == count_where(ds, took_off(), i as nat),
            t.ops == count_where(ds, service_call(), i as nat),
            t.rejected == count_where(ds, service_refusal(), i as nat),
            figure_views(t.rtts@) == figures_where(ds, service_call(), "rtt_ms"@, i as nat),
        decreases data@.len() - i,
    {
        let d = &data[i];
        assert(ds[i as int] == d@);
        if d.kind == DatumKind::Service {
            if same(d.label.as_str(), "flight.takeoff.result") {
                t.takeoff_attempts = t.takeoff_attempts + 1;
                if d.body.flag_field("airborne") == Some(true) {
                    t.takeoff_ok = t.takeoff_ok + 1;
                }
            }
            if starts_with(d.label.as_str(), "service.") {
                t.ops = t.ops + 1;
                if d.body.flag_field("accepted") == Some(false) {
                    t.rejected = t.rejected + 1;
                }
                match d.body.figure_field("rtt_ms") {
                    Some(f) => {
                        let ghost before = t.rtts@;
                        t.rtts.push(f);
                        assert(figure_views(t.rtts@) =~= figure_views(before).push(f@));
                    },
                    None => {},
                }
            }
        }
        i = i + 1;
    }
    t
}

/// What the links of a run reported.
struct LinkTally {
    stale_marks: u64,
    losses: Option<Figure>,
    kbps: Vec<Figure>,
}

fn tally_links(data: &Vec<Datum>) -> (r: LinkTally)
    ensures
        r.stale_marks == count_where(datum_views(data@), stale_mark(), data@.len()),
        seen(r.losses) == last_figure(
            figures_where(datum_views(data@), other_link(), "frame_loss_pct"@, data@.len()),
        ),
        figure_views(r.kbps@) == figures_where(
            datum_views(data@),
            video_report(),
            "kbps"@,
            data@.len(),
        ),
{
    let ghost ds = datum_views(data@);
    let mut t = LinkTally { stale_marks: 0, losses: None, kbps: Vec::new() };
    let mut i: usize = 0;
    assert(figure_views(t.kbps@) =~= figures_where(ds, video_report(), "kbps"@, 0));
    while i < data.len()
        invariant
            i <= data@.len(),
            ds == datum_views(data@),
            t.stale_marks <= i,
            t.stale_marks == count_where(ds, stale_mark(), i as nat),
            seen(t.losses) == last_figure(
                figures_where(ds, other_link(), "frame_loss_pct"@, i as nat),
            ),
            figure_views(t.kbps@) == figures_where(ds, video_report(), "kbps"@, i as nat),
        decreases data@.len() - i,
    {
        let d = &data[i];
        assert(ds[i as int] == d@);
        proof {
            reveal_strlit("telemetry_stale");
            reveal_strlit("video_stats");
            assert("telemetry_stale"@.len() != "video_stats"@.len());
        }
        if d.kind == DatumKind::Link {
            if same(d.label.as_str(), "telemetry_stale") {
                t.stale_marks = t.stale_marks + 1;
            } else if same(d.label.as_str(), "video_stats") {
                match d.body.figure_field("kbps") {
                    Some(f) => {
                        let ghost before = t.kbps@;
                        t.kbps.push(f);
                        assert(figure_views(t.kbps@) =~= figure_views(before).push(f@));
                    },
                    None => {},
                }
            } else {
                match d.body.figure_field("frame_loss_pct") {
                    Some(f) => {
                        t.losses = Some(f);
                    },
                    None => {},
                }
            }
        }
        i = i + 1;
    }
    t
}

fn rtl_result(data: &Vec<Datum>) -> (r: Option<String>)
    ensures
        shown(r) == last_outcome(datum_views(data@), data@.len()),
{
    let ghost ds = datum_views(data@);
    let mut out: Option<String> = None;
    let mut i: usize = 0;
    while i < data.len()
        invariant
            i <= data@.len(),
            ds == datum_views(data@),
            shown(out) == last_outcome(ds, i as nat),
        decreases data@.len() - i,
    {
        let d = &data[i];
        assert(ds[i as int] == d@);
        if d.kind == DatumKind::Rtl && same(d.label.as_str(), "rtl.done") {
            match d.body.text_field("outcome") {
                Some(o) => {
                    out = Some(o);
                },
                None => {},
            }
        }
        i = i + 1;
    }
    out
}

fn summaries(data: &Vec<Datum>) -> (r: Vec<VehicleSummary>)
    ensures
        summary_views(r@) == sorted_texts(
            telemetry_vehicles(datum_views(data@), data@.len()),
        ).map_values(|v: Seq<char>| vehicle_summary(datum_views(data@), v)),
{
    let ghost ds = datum_views(data@);
    let listed = telemetry_vehicle_list(data);
    let ids = sort_texts(&listed);
    let mut out: Vec<VehicleSummary> = Vec::new();
    let mut i: usize = 0;
    while i < ids.len()
        invariant
            i <= ids@.len(),
            ds == datum_views(data@),
            out@.len() == i,
            forall|j: int|
                0 <= j < i ==> (#[trigger] out@[j])@ == vehicle_summary(ds, ids@[j]@),
        decreases ids@.len() - i,
    {
        out.push(summarize(data, ids[i].as_str()));
        i = i + 1;
    }
    proof {
        let want = views(ids@).map_values(|v: Seq<char>| vehicle_summary(ds, v));
        assert(summary_views(out@) =~= want);
    }
    out
}

/// The outcome metrics of one dataset.
pub fn metrics(ds: &MissionDataset) -> (r: RunMetrics)
    ensures
        r@ == metrics_of(ds.data()),
        r@.consistent(),
{
    let data = &ds.data;
    let ghost dv = ds.data();
    let count: usize = data.len();
    let t0: u64 = ds.t0();
    let t1: u64 = ds.t1();
    let services = tally_services(data);
    let links = tally_links(data);
    proof {
        lemma_episodes_bound(dv, dv.len());
        assert(dv.len() == count);
        if dv.len() > 0 {
            assert(dv[0] == data@[0]@);
            assert(dv.last() == data@.last()@);
        }
    }
    let r = RunMetrics {
        duration_ns: if t1 >= t0 {
            t1 - t0
        } else {
            0
        },
        vehicles: summaries(data),
        takeoff_attempts: services.takeoff_attempts,
        takeoff_ok: services.takeoff_ok,
        coop: count_episodes(data, COOP),
        unco: count_episodes(data, UNCO),
        max_bias_m: max_bias(data),
        rtl_outcome: rtl_result(data),
        service_ops: services.ops,
        service_rejected: services.rejected,
        service_rtt_ms: pctl(&services.rtts),
        stale_marks: links.stale_marks,
        spark_loss_pct: links.losses,
        video_kbps: links.kbps,
    };
    assert(r@ =~= metrics_of(dv));
    r
}

/// Both sides of a pair name the same pair.
pub proof fn both_sides_name_one_pair(d: DatumView, e: DatumView)
    requires
        d.vehicle == text_of(field(e.body, "peer"@)),
        e.vehicle == text_of(field(d.body, "peer"@)),
    ensures
        pair_of(d) == pair_of(e),
{
    let a = text_or(d.vehicle, Seq::empty());
    let b = text_or(e.vehicle, Seq::empty());
    lemma_before_total(a, b);
}

proof fn lemma_last_seen_prefix(
    data: Seq<DatumView>,
    d: DatumView,
    label: Seq<char>,
    pair: Seq<char>,
    n: nat,
)
    requires
        n <= data.len(),
    ensures
        last_seen(data.push(d), label, pair, n) == last_seen(data, label, pair, n),
    decreases n,
{
    if n > 0 {
        lemma_last_seen_prefix(data, d, label, pair, (n - 1) as nat);
        assert(data.push(d)[n - 1] == data[n - 1]);
    }
}

proof fn lemma_episodes_prefix(data: Seq<DatumView>, d: DatumView, label: Seq<char>, n: nat)
    requires
        n <= data.len(),
    ensures
        episodes(data.push(d), label, n) == episodes(data, label, n),
    decreases n,
{
    if n > 0 {
        lemma_episodes_prefix(data, d, label, (n - 1) as nat);
        assert(data.push(d)[n - 1] == data[n - 1]);
        lemma_last_seen_prefix(data, d, label, pair_of(data[n - 1]), (n - 1) as nat);
    }
}

/// An event counts as a new episode exactly when no event of its pair is close
/// before it: the peer's mirror of an episode is not counted again, a later
/// episode of the same pair is.
pub proof fn mirrored_events_count_once(data: Seq<DatumView>, d: DatumView, label: Seq<char>)
    requires
        coord_event(d, label),
    ensures
        episodes(data.push(d), label, data.len() + 1) == episodes(data, label, data.len()) + (
        match last_seen(data, label, pair_of(d), data.len()) {
            Some(t) => if span(t, d.t_ns) < EPISODE_MERGE_NS {
                0nat
            } else {
                1
            },
            None => 1,
        }),
{
    lemma_episodes_prefix(data, d, label, data.len());
    lemma_last_seen_prefix(data, d, label, pair_of(d), data.len());
    assert(data.push(d)[data.len() as int] == d);
}

/// The figures of a run that take division, in the units that artifacts show.
#[derive(Debug)]
pub struct Measured {
    /// Time from the first to the last datum (s).
    pub duration_s: Figure,
    /// Cooperative share of the episodes (percent).
    pub coop_rate_pct: Option<Figure>,
    /// Median and 95th percentile of each vehicle's telemetry gaps (ms).
    pub interarrival_ms: Vec<Option<(Figure, Figure)>>,
    /// Mean video bitrate (kbps).
    pub video_kbps_mean: Option<Figure>,
}

/// Measured figures by their views.
#[verifier::ext_equal]
pub struct MeasuredView {
    pub duration_s: FigureView,
    pub coop_rate_pct: Option<FigureView>,
    pub interarrival_ms: Seq<Option<(FigureView, FigureView)>>,
    pub video_kbps_mean: Option<FigureView>,
}

impl View for Measured {
    type V = MeasuredView;

    open spec fn view(&self) -> MeasuredView {
        MeasuredView {
            duration_s: self.duration_s@,
            coop_rate_pct: seen(self.coop_rate_pct),
            interarrival_ms: self.interarrival_ms@.map_values(
                |o: Option<(Figure, Figure)>| battery_view(o),
            ),
            video_kbps_mean: seen(self.video_kbps_mean),
        }
    }
}

/// Whether figures are those of a run: a rate where there were episodes, gaps
/// for each vehicle that has any, and a mean where there was video.
pub open spec fn measures(g: MeasuredView, m: MetricsView) -> bool {
    &&& g.coop_rate_pct is Some <==> m.coop + m.unco > 0
    &&& g.interarrival_ms.len() == m.vehicles.len()
    &&& forall|i: int|
        0 <= i < m.vehicles.len() ==> ((#[trigger] g.interarrival_ms[i]) is Some
            <==> m.vehicles[i].interarrival is Some)
    &&& g.video_kbps_mean is Some <==> m.video_kbps.len() > 0
}

/// The medians and 95th percentiles of the first `n` vehicles.
pub open spec fn pooled(s: Seq<Option<(FigureView, FigureView)>>, n: nat) -> Seq<FigureView>
    decreases n,
{
    if n == 0 || n > s.len() {
        Seq::empty()
    } else {
        match s[n - 1] {
            Some(p) => pooled(s, (n - 1) as nat).push(p.0).push(p.1),
            None => pooled(s, (n - 1) as nat),
        }
    }
}

impl RunMetrics {
    /// Cooperative episodes and all episodes, when there were any: the
    /// success rate of cooperative avoidance as a fraction.
    pub fn coop_rate_pct(&self) -> (r: Option<(u64, u64)>)
        requires
            self@.consistent(),
        ensures
            r == if self.coop + self.unco > 0 {
                Some((self.coop, (self.coop + self.unco) as u64))
            } else {
                None
            },
    {
        let total: u64 = self.coop + self.unco;
        if total > 0 {
            Some((self.coop, total))
        } else {
            None
        }
    }

    /// The summary of a vehicle.
    pub fn vehicle(&self, id: &str) -> (r: Option<&VehicleSummary>)
        ensures
            match r {
                Some(v) => v.vehicle@ == id@ && self.vehicles@.contains(*v),
                None => forall|i: int|
                    0 <= i < self.vehicles@.len() ==> (#[trigger] self.vehicles@[i]).vehicle@
                        != id@,
            },
    {
        let mut i: usize = 0;
        while i < self.vehicles.len()
            invariant
                i <= self.vehicles@.len(),
                forall|j: int|
                    0 <= j < i ==> (#[trigger] self.vehicles@[j]).vehicle@ != id@,
            decreases self.vehicles@.len() - i,
        {
            if same(self.vehicles[i].vehicle.as_str(), id) {
                return Some(&self.vehicles[i]);
            }
            i = i + 1;
        }
        None
    }
}

impl Measured {
    /// Telemetry gaps over the fleet (ms): the percentiles of the vehicles'
    /// medians and 95th percentiles, taken as representative points.
    pub fn telemetry_interarrival_ms(&self) -> (r: Option<Pctl>)
        ensures
            pctl_view(r) == pctl_of(
                pooled(self@.interarrival_ms, self@.interarrival_ms.len()),
            ),
    {
        let ghost all = self@.interarrival_ms;
        let mut out: Vec<Figure> = Vec::new();
        let mut i: usize = 0;
        assert(figure_views(out@) =~= pooled(all, 0));
        while i < self.interarrival_ms.len()
            invariant
                i <= self.interarrival_ms@.len(),
                all == self@.interarrival_ms,
                figure_views(out@) == pooled(all, i as nat),
            decreases self.interarrival_ms@.len() - i,
        {
            assert(all[i as int] == battery_view(self.interarrival_ms@[i as int]));
            match &self.interarrival_ms[i] {
                Some(p) => {
                    let ghost before = out@;
                    out.push(p.0.clone());
                    out.push(p.1.clone());
                    assert(figure_views(out@) =~= figure_views(before).push(p.0@).push(p.1@));
                },
                None => {},
            }
            i = i + 1;
        }
        pctl(&out)
    }
}

/// One cell of the comparison table: how it is shown, and the number it sorts
/// by when it is one.
#[derive(Debug)]
pub struct MetricCell {
    pub display: String,
    pub num: Option<String>,
}

/// An outcome column of a run.
#[derive(Debug)]
pub struct Column {
    pub name: String,
    pub cell: MetricCell,
}

/// An outcome column by its texts.
#[verifier::ext_equal]
pub struct ColumnView {
    pub name: Seq<char>,
    pub display: Seq<char>,
    pub num: Option<Seq<char>>,
}

impl View for Column {
    type V = ColumnView;

    open spec fn view(&self) -> ColumnView {
        ColumnView {
            name: self.name@,
            display: self.cell.display@,
            num: shown(self.cell.num),
        }
    }
}

/// Columns by their views.
pub open spec fn column_views(v: Seq<Column>) -> Seq<ColumnView> {
    v.map_values(|c: Column| c@)
}

/// Columns with one more, if there is one.
pub open spec fn with_column(s: Seq<ColumnView>, c: Option<ColumnView>) -> Seq<ColumnView> {
    match c {
        Some(x) => s.push(x),
        None => s,
    }
}

/// A column of a figure with no decimals.
pub open spec fn whole_column(name: Seq<char>, f: Option<FigureView>) -> Option<ColumnView> {
    match f {
        Some(x) => Some(ColumnView { name, display: x.whole, num: Some(x.plain) }),
        None => None,
    }
}

/// A column of a figure with one decimal.
pub open spec fn tenth_column(name: Seq<char>, f: Option<FigureView>) -> Option<ColumnView> {
    match f {
        Some(x) => Some(ColumnView { name, display: x.tenth, num: Some(x.plain) }),
        None => None,
    }
}

/// A column of two counts that sorts by a third, when it is shown.
pub open spec fn ratio_column(
    is_shown: bool,
    name: Seq<char>,
    a: nat,
    b: nat,
    num: nat,
) -> Option<ColumnView> {
    if is_shown {
        Some(
            ColumnView {
                name,
                display: dec_text(a) + "/"@ + dec_text(b),
                num: Some(dec_text(num)),
            },
        )
    } else {
        None
    }
}

/// The median of percentiles.
pub open spec fn median(p: Option<PctlView>) -> Option<FigureView> {
    match p {
        Some(x) => Some(x.p50),
        None => None,
    }
}

/// The 95th percentile of percentiles.
pub open spec fn tail(p: Option<PctlView>) -> Option<FigureView> {
    match p {
        Some(x) => Some(x.p95),
        None => None,
    }
}

/// The outcome columns of a run, in the order of their names. Columns a run
/// has no data for are absent.
pub open spec fn columns_of(m: MetricsView, g: MeasuredView) -> Seq<ColumnView> {
    let gaps = pctl_of(pooled(g.interarrival_ms, g.interarrival_ms.len()));
    let s = with_column(Seq::empty(), whole_column("coop rate %"@, g.coop_rate_pct));
    let s = with_column(
        s,
        ratio_column(g.coop_rate_pct is Some, "coop/unco"@, m.coop, m.unco, m.coop),
    );
    let s = with_column(s, whole_column("duration s"@, Some(g.duration_s)));
    let s = with_column(s, tenth_column("max bias m"@, m.max_bias_m));
    let s = with_column(
        s,
        match m.rtl_outcome {
            Some(o) => Some(ColumnView { name: "rtl"@, display: o, num: None }),
            None => None,
        },
    );
    let s = with_column(s, tenth_column("spark loss %"@, m.spark_loss_pct));
    let s = with_column(
        s,
        if m.stale_marks > 0 {
            Some(
                ColumnView {
                    name: "stale marks"@,
                    display: dec_text(m.stale_marks),
                    num: Some(dec_text(m.stale_marks)),
                },
            )
        } else {
            None
        },
    );
    let s = with_column(
        s,
        ratio_column(
            m.service_ops > 0,
            "svc ok/rejected"@,
            (m.service_ops - m.service_rejected) as nat,
            m.service_rejected,
            m.service_rejected,
        ),
    );
    let s = with_column(s, tenth_column("svc rtt p50 ms"@, median(m.service_rtt_ms)));
    let s = with_column(s, tenth_column("svc rtt p95 ms"@, tail(m.service_rtt_ms)));
    let s = with_column(
        s,
        ratio_column(
            m.takeoff_attempts > 0,
            "takeoffs"@,
            m.takeoff_ok,
            m.takeoff_attempts,
            m.takeoff_ok,
        ),
    );
    let s = with_column(s, tenth_column("telem p50 ms"@, median(gaps)));
    with_column(s, tenth_column("telem p95 ms"@, tail(gaps)))
}

fn push_column(v: &mut Vec<Column>, name: &str, display: String, num: Option<String>)
    ensures
        column_views(final(v)@) == column_views(old(v)@).push(
            ColumnView { name: name@, display: display@, num: shown(num) },
        ),
{
    let ghost before = v@;
    let c = Column { name: name.to_owned(), cell: MetricCell { display, num } };
    v.push(c);
    assert(column_views(v@) =~= column_views(before).push(c@));
}

fn push_tenth(v: &mut Vec<Column>, name: &str, f: &Figure)
    ensures
        column_views(final(v)@) == with_column(
            column_views(old(v)@),
            tenth_column(name@, Some(f@)),
        ),
{
    push_column(v, name, f.tenth.clone(), Some(f.plain.clone()));
}

fn push_whole(v: &mut Vec<Column>, name: &str, f: &Figure)
    ensures
        column_views(final(v)@) == with_column(
            column_views(old(v)@),
            whole_column(name@, Some(f@)),
        ),
{
    push_column(v, name, f.whole.clone(), Some(f.plain.clone()));
}

fn push_ratio(v: &mut Vec<Column>, is_shown: bool, name: &str, a: u64, b: u64, num: u64)
    ensures
        column_views(final(v)@) == with_column(
            column_views(old(v)@),
            ratio_column(is_shown, name@, a as nat, b as nat, num as nat),
        ),
{
    if is_shown {
        let mut s = cat(dec(a).as_str(), "/");
        s.append(dec(b).as_str());
        push_column(v, name, s, Some(dec(num)));
    }
}

/// The outcome columns of the comparison table, in the order of their names.
pub fn outcome_columns(m: &RunMetrics, g: &Measured) -> (r: Vec<Column>)
    requires
        m@.consistent(),
        measures(g@, m@),
    ensures
        column_views(r@) == columns_of(m@, g@),
{
    let mut v: Vec<Column> = Vec::new();
    assert(column_views(v@) =~= Seq::empty());
    match &g.coop_rate_pct {
        Some(f) => push_whole(&mut v, "coop rate %", f),
        None => {},
    }
    push_ratio(&mut v, g.coop_rate_pct.is_some(), "coop/unco", m.coop, m.unco, m.coop);
    push_whole(&mut v, "duration s", &g.duration_s);
    match &m.max_bias_m {
        Some(f) => push_tenth(&mut v, "max bias m", f),
        None => {},
    }
    match &m.rtl_outcome {
        Some(o) => push_column(&mut v, "rtl", o.clone(), None),
        None => {},
    }
    match &m.spark_loss_pct {
        Some(f) => push_tenth(&mut v, "spark loss %", f),
        None => {},
    }
    if m.stale_marks > 0 {
        push_column(&mut v, "stale marks", dec(m.stale_marks), Some(dec(m.stale_marks)));
    }
    push_ratio(
        &mut v,
        m.service_ops > 0,
        "svc ok/rejected",
        m.service_ops - m.service_rejected,
        m.service_rejected,
        m.service_rejected,
    );
    match &m.service_rtt_ms {
        Some(p) => {
            push_tenth(&mut v, "svc rtt p50 ms", &p.p50);
            push_tenth(&mut v, "svc rtt p95 ms", &p.p95);
        },
        None => {},
    }
    push_ratio(
        &mut v,
        m.takeoff_attempts > 0,
        "takeoffs",
        m.takeoff_ok,
        m.takeoff_attempts,
        m.takeoff_ok,
    );
    match g.telemetry_interarrival_ms() {
        Some(p) => {
            push_tenth(&mut v, "telem p50 ms", &p.p50);
            push_tenth(&mut v, "telem p95 ms", &p.p95);
        },
        None => {},
    }
    v
}

} // verus!
