//! What the outcome metrics say of a run's data.

use vstd::prelude::*;

use crate::blocks::DatumKind;
use crate::dataset::DatumView;
use crate::json::{field, figure_of, flag_of, text_of, FigureView};
use crate::metrics::{
    absolute, both_sides_name_one_pair, count_where, coord_event, episodes, figure_key,
    figures_where, gaps, is_sample, largest_bias, last_outcome, last_seen, metrics_of, modes_seen,
    battery_range, other_link, pair_of, pctl_of, peak, sample_times, service_call, service_refusal,
    span_key, span_pctl, stale_mark, takeoff_result, telemetry_vehicles, took_off, vehicle_summary,
    video_report, COOP, UNCO,
};
use crate::sorting::{sorted_by, sorting_orders};
use crate::text_map::{increasing, sorted_texts, sorted_texts_hold_each_once};

verus! {

/// What a telemetry sample of a vehicle reads under a key.
pub open spec fn reading(d: DatumView, vehicle: Seq<char>, key: Seq<char>) -> Option<FigureView> {
    if d.kind == DatumKind::Telemetry && d.vehicle == Some(vehicle) && field(d.body, "sample"@)
        is Some {
        figure_of(field(field(d.body, "sample"@)->0, key))
    } else {
        None
    }
}

/// Whether a figure is the largest reading of a vehicle, but not below zero:
/// no reading is above it, and it is one of them or zero.
pub open spec fn is_peak(
    f: FigureView,
    data: Seq<DatumView>,
    vehicle: Seq<char>,
    key: Seq<char>,
    n: int,
) -> bool {
    &&& f.real.bits == 0 || exists|i: int|
        0 <= i < n && #[trigger] reading(data[i], vehicle, key) == Some(f) && 0 < f.real.key()
    &&& !f.real.is_nan() && 0 <= f.real.key()
    &&& forall|i: int|
        0 <= i < n && (#[trigger] reading(data[i], vehicle, key)) is Some ==> reading(
            data[i],
            vehicle,
            key,
        )->0.real.is_nan() || reading(data[i], vehicle, key)->0.real.key() <= f.real.key()
}

proof fn lemma_peak(data: Seq<DatumView>, vehicle: Seq<char>, key: Seq<char>, n: nat)
    requires
        n <= data.len(),
    ensures
        is_peak(peak(data, vehicle, key, n), data, vehicle, key, n as int),
    decreases n,
{
    if n > 0 {
        let m = (n - 1) as nat;
        lemma_peak(data, vehicle, key, m);
        let a = peak(data, vehicle, key, m);
        let b = peak(data, vehicle, key, n);
        if a.real.bits != 0 {
            let i = choose|i: int|
                0 <= i < m && #[trigger] reading(data[i], vehicle, key) == Some(a) && 0
                    < a.real.key();
            assert(reading(data[i], vehicle, key) == Some(a));
        }
        if b != a {
            assert(reading(data[n - 1], vehicle, key) == Some(b));
        }
    }
}

/// The peaks of a flight summary are the largest height and the largest ground
/// speed of the vehicle's samples: none of them reads more, and each peak was
/// read, unless nothing above zero was.
pub proof fn summaries_hold_the_peaks(data: Seq<DatumView>, vehicle: Seq<char>)
    ensures
        is_peak(
            vehicle_summary(data, vehicle).max_agl_m,
            data,
            vehicle,
            "agl_m"@,
            data.len() as int,
        ),
        is_peak(
            vehicle_summary(data, vehicle).max_speed_m_s,
            data,
            vehicle,
            "groundspeed_m_s"@,
            data.len() as int,
        ),
        vehicle_summary(data, vehicle).vehicle == vehicle,
{
    lemma_peak(data, vehicle, "agl_m"@, data.len());
    lemma_peak(data, vehicle, "groundspeed_m_s"@, data.len());
}

/// Whether a sample reports a battery level.
pub open spec fn reports_battery(d: DatumView, vehicle: Seq<char>) -> bool {
    reading(d, vehicle, "battery_pct"@) is Some && !reading(d, vehicle, "battery_pct"@)->0.real.is_nan()
        && 0 <= reading(d, vehicle, "battery_pct"@)->0.real.key()
}

/// Whether levels are those of the first and the last sample that report one.
pub open spec fn are_first_and_last(
    r: Option<(FigureView, FigureView)>,
    data: Seq<DatumView>,
    vehicle: Seq<char>,
    n: int,
) -> bool {
    match r {
        None => forall|i: int| 0 <= i < n ==> !reports_battery(#[trigger] data[i], vehicle),
        Some((first, last)) => exists|i: int, k: int|
            #![trigger reports_battery(data[i], vehicle), reports_battery(data[k], vehicle)]
            {
                &&& 0 <= i <= k < n
                &&& reports_battery(data[i], vehicle) && reports_battery(data[k], vehicle)
                &&& reading(data[i], vehicle, "battery_pct"@) == Some(first)
                &&& reading(data[k], vehicle, "battery_pct"@) == Some(last)
                &&& forall|j: int|
                    0 <= j < i || k < j < n ==> !reports_battery(#[trigger] data[j], vehicle)
            },
    }
}

proof fn lemma_battery(data: Seq<DatumView>, vehicle: Seq<char>, n: nat)
    requires
        n <= data.len(),
    ensures
        are_first_and_last(battery_range(data, vehicle, n), data, vehicle, n as int),
    decreases n,
{
    if n > 0 {
        let m = (n - 1) as nat;
        lemma_battery(data, vehicle, m);
        let before = battery_range(data, vehicle, m);
        let d = data[n - 1];
        if before is Some {
            let (first, last) = before->0;
            let (i, k) = choose|i: int, k: int|
                #![trigger reports_battery(data[i], vehicle), reports_battery(data[k], vehicle)]
                {
                    &&& 0 <= i <= k < m
                    &&& reports_battery(data[i], vehicle) && reports_battery(data[k], vehicle)
                    &&& reading(data[i], vehicle, "battery_pct"@) == Some(first)
                    &&& reading(data[k], vehicle, "battery_pct"@) == Some(last)
                    &&& forall|j: int|
                        0 <= j < i || k < j < m ==> !reports_battery(#[trigger] data[j], vehicle)
                };
            assert(reports_battery(data[i], vehicle) && reports_battery(data[k], vehicle));
            if reports_battery(d, vehicle) {
                assert(reports_battery(data[i], vehicle) && reports_battery(data[n - 1], vehicle));
            }
        } else if reports_battery(d, vehicle) {
            assert(reports_battery(data[n - 1], vehicle));
        }
    }
}

/// Whether a sample of a vehicle names a mode.
pub open spec fn names_mode(d: DatumView, vehicle: Seq<char>, mode: Seq<char>) -> bool {
    &&& d.kind == DatumKind::Telemetry && d.vehicle == Some(vehicle)
    &&& field(d.body, "sample"@) is Some
    &&& text_of(field(field(d.body, "sample"@)->0, "mode"@)) == Some(mode)
}

proof fn lemma_modes(data: Seq<DatumView>, vehicle: Seq<char>, n: nat, mode: Seq<char>)
    requires
        n <= data.len(),
    ensures
        modes_seen(data, vehicle, n).no_duplicates(),
        modes_seen(data, vehicle, n).contains(mode) <==> exists|i: int|
            0 <= i < n && #[trigger] names_mode(data[i], vehicle, mode),
    decreases n,
{
    if n > 0 {
        let m = (n - 1) as nat;
        lemma_modes(data, vehicle, m, mode);
        let before = modes_seen(data, vehicle, m);
        let after = modes_seen(data, vehicle, n);
        if after != before {
            let x = after.last();
            assert(after =~= before.push(x));
            assert(names_mode(data[n - 1], vehicle, x));
            assert(after[before.len() as int] == x);
            if before.contains(mode) {
                let k = choose|k: int| 0 <= k < before.len() && before[k] == mode;
                assert(after[k] == mode);
            }
            if after.contains(mode) && mode != x {
                let k = choose|k: int| 0 <= k < after.len() && after[k] == mode;
                assert(before[k] == mode);
            }
            assert forall|i: int, j: int|
                0 <= i < after.len() && 0 <= j < after.len() && i != j implies after[i]
                    != after[j] by {
                if i == before.len() {
                    assert(before.contains(before[j]));
                } else if j == before.len() {
                    assert(before.contains(before[i]));
                }
            }
        }
    }
}

/// A flight summary shows the battery of the first and of the last sample that
/// report one, and every mode that a sample named, once.
pub proof fn summaries_show_battery_and_modes(
    data: Seq<DatumView>,
    vehicle: Seq<char>,
    mode: Seq<char>,
)
    ensures
        are_first_and_last(
            vehicle_summary(data, vehicle).battery_pct,
            data,
            vehicle,
            data.len() as int,
        ),
        vehicle_summary(data, vehicle).modes.no_duplicates(),
        vehicle_summary(data, vehicle).modes.contains(mode) <==> exists|i: int|
            0 <= i < data.len() && #[trigger] names_mode(data[i], vehicle, mode),
{
    lemma_battery(data, vehicle, data.len());
    lemma_modes(data, vehicle, data.len(), mode);
}

// ---------------------------------------------------------------------------
// percentiles
// ---------------------------------------------------------------------------

/// Percentiles are items of the samples put in order: the middle one, the one
/// at 95 hundredths of the way, and the last, which none exceeds.
pub proof fn percentiles_stand_in_order(s: Seq<FigureView>)
    ensures
        s.len() == 0 <==> pctl_of(s) is None,
        pctl_of(s) matches Some(p) ==> {
            &&& p.n == s.len()
            &&& exists|o: Seq<FigureView>|
                {
                    &&& #[trigger] o.to_multiset() == s.to_multiset()
                    &&& o.len() == s.len()
                    &&& forall|i: int, j: int|
                        0 <= i <= j < o.len() ==> o[i].real.key() <= o[j].real.key()
                    &&& p.p50 == o[(s.len() / 2) as int]
                    &&& p.max == o[s.len() - 1]
                    &&& exists|k: int|
                        0 <= k < o.len() && p.p95 == #[trigger] o[k] && 20 * k <= 19 * (s.len() - 1)
                            + 10 < 20 * (k + 1)
                }
            &&& forall|i: int| 0 <= i < s.len() ==> (#[trigger] s[i]).real.key() <= p.max.real.key()
            &&& s.contains(p.p50) && s.contains(p.p95) && s.contains(p.max)
            &&& p.p50.real.key() <= p.max.real.key() && p.p95.real.key() <= p.max.real.key()
        },
{
    broadcast use vstd::seq_lib::group_to_multiset_ensures;

    if s.len() > 0 {
        let o = sorted_by(s, figure_key());
        sorting_orders(s, figure_key());
        assert(o.len() == s.len());
        let p = pctl_of(s)->0;
        assert forall|i: int, j: int| 0 <= i <= j < o.len() implies o[i].real.key()
            <= o[j].real.key() by {
            if i < j {
                assert(figure_key()(o[i]) <= figure_key()(o[j]));
            }
        }
        let k = (19 * (s.len() - 1) + 10) / 20;
        assert(20 * k <= 19 * (s.len() - 1) + 10 < 20 * (k + 1));
        assert(p.p95 == o[k]);
        assert forall|i: int| 0 <= i < s.len() implies (#[trigger] s[i]).real.key()
            <= p.max.real.key() by {
            assert(s.contains(s[i]));
            assert(o.to_multiset().count(s[i]) > 0);
            let j = choose|j: int| 0 <= j < o.len() && o[j] == s[i];
            assert(o[j].real.key() <= o[o.len() - 1].real.key());
        }
        lemma_from_sorted(s, o, (s.len() / 2) as int);
        lemma_from_sorted(s, o, k);
        lemma_from_sorted(s, o, s.len() - 1);
        assert(o.to_multiset() == s.to_multiset());
    }
}

proof fn lemma_from_sorted<T>(s: Seq<T>, o: Seq<T>, k: int)
    requires
        o.to_multiset() == s.to_multiset(),
        0 <= k < o.len(),
    ensures
        s.contains(o[k]),
{
    broadcast use vstd::seq_lib::group_to_multiset_ensures;

    assert(o.contains(o[k]));
    assert(s.to_multiset().count(o[k]) > 0);
}

/// The percentiles of spans of time are items of the spans put in order: the
/// middle one, the one at 95 hundredths of the way, and the longest.
pub proof fn span_percentiles_stand_in_order(s: Seq<u64>)
    requires
        s.len() <= usize::MAX,
    ensures
        s.len() == 0 <==> span_pctl(s) is None,
        span_pctl(s) matches Some(p) ==> {
            &&& p.n == s.len()
            &&& exists|o: Seq<u64>|
                {
                    &&& #[trigger] o.to_multiset() == s.to_multiset()
                    &&& o.len() == s.len()
                    &&& forall|i: int, j: int| 0 <= i <= j < o.len() ==> o[i] <= o[j]
                    &&& p.p50 == o[(s.len() / 2) as int]
                    &&& p.max == o[s.len() - 1]
                    &&& exists|k: int|
                        0 <= k < o.len() && p.p95 == #[trigger] o[k] && 20 * k <= 19 * (s.len() - 1)
                            + 10 < 20 * (k + 1)
                }
            &&& forall|i: int| 0 <= i < s.len() ==> #[trigger] s[i] <= p.max
            &&& s.contains(p.p50) && s.contains(p.p95) && s.contains(p.max)
        },
{
    broadcast use vstd::seq_lib::group_to_multiset_ensures;

    if s.len() > 0 {
        let o = sorted_by(s, span_key());
        sorting_orders(s, span_key());
        assert(o.len() == s.len());
        let p = span_pctl(s)->0;
        assert forall|i: int, j: int| 0 <= i <= j < o.len() implies o[i] <= o[j] by {
            if i < j {
                assert(span_key()(o[i]) <= span_key()(o[j]));
            }
        }
        let k = (19 * (s.len() - 1) + 10) / 20;
        assert(20 * k <= 19 * (s.len() - 1) + 10 < 20 * (k + 1));
        assert(p.p95 == o[k]);
        assert forall|i: int| 0 <= i < s.len() implies #[trigger] s[i] <= p.max by {
            assert(s.contains(s[i]));
            assert(o.to_multiset().count(s[i]) > 0);
            let j = choose|j: int| 0 <= j < o.len() && o[j] == s[i];
            assert(o[j] <= o[o.len() - 1]);
        }
        lemma_from_sorted(s, o, (s.len() / 2) as int);
        lemma_from_sorted(s, o, k);
        lemma_from_sorted(s, o, s.len() - 1);
        assert(o.to_multiset() == s.to_multiset());
    }
}

// ---------------------------------------------------------------------------
// one datum more
// ---------------------------------------------------------------------------

proof fn lemma_count_prefix(
    data: Seq<DatumView>,
    d: DatumView,
    p: spec_fn(DatumView) -> bool,
    n: nat,
)
    requires
        n <= data.len(),
    ensures
        count_where(data.push(d), p, n) == count_where(data, p, n),
    decreases n,
{
    if n > 0 {
        lemma_count_prefix(data, d, p, (n - 1) as nat);
        assert(data.push(d)[n - 1] == data[n - 1]);
    }
}

proof fn lemma_count_more(data: Seq<DatumView>, d: DatumView, p: spec_fn(DatumView) -> bool)
    ensures
        count_where(data.push(d), p, data.len() + 1) == count_where(data, p, data.len()) + (if p(
            d,
        ) {
            1nat
        } else {
            0
        }),
{
    lemma_count_prefix(data, d, p, data.len());
    assert(data.push(d)[data.len() as int] == d);
}

proof fn lemma_figures_prefix(
    data: Seq<DatumView>,
    d: DatumView,
    p: spec_fn(DatumView) -> bool,
    key: Seq<char>,
    n: nat,
)
    requires
        n <= data.len(),
    ensures
        figures_where(data.push(d), p, key, n) == figures_where(data, p, key, n),
    decreases n,
{
    if n > 0 {
        lemma_figures_prefix(data, d, p, key, (n - 1) as nat);
        assert(data.push(d)[n - 1] == data[n - 1]);
    }
}

proof fn lemma_figures_more(
    data: Seq<DatumView>,
    d: DatumView,
    p: spec_fn(DatumView) -> bool,
    key: Seq<char>,
)
    ensures
        figures_where(data.push(d), p, key, data.len() + 1) == (if p(d) && figure_of(
            field(d.body, key),
        ) is Some {
            figures_where(data, p, key, data.len()).push(figure_of(field(d.body, key))->0)
        } else {
            figures_where(data, p, key, data.len())
        }),
{
    lemma_figures_prefix(data, d, p, key, data.len());
    assert(data.push(d)[data.len() as int] == d);
}

proof fn lemma_outcome_prefix(data: Seq<DatumView>, d: DatumView, n: nat)
    requires
        n <= data.len(),
    ensures
        last_outcome(data.push(d), n) == last_outcome(data, n),
    decreases n,
{
    if n > 0 {
        lemma_outcome_prefix(data, d, (n - 1) as nat);
        assert(data.push(d)[n - 1] == data[n - 1]);
    }
}

proof fn lemma_bias_prefix(data: Seq<DatumView>, d: DatumView, n: nat)
    requires
        n <= data.len(),
    ensures
        largest_bias(data.push(d), n) == largest_bias(data, n),
    decreases n,
{
    if n > 0 {
        lemma_bias_prefix(data, d, (n - 1) as nat);
        assert(data.push(d)[n - 1] == data[n - 1]);
    }
}

/// Whether a text begins with another.
pub open spec fn begins(s: Seq<char>, with: Seq<char>) -> bool {
    with.is_prefix_of(s)
}

/// One more if a thing is so.
pub open spec fn one_if(b: bool) -> nat {
    if b {
        1
    } else {
        0
    }
}

/// What one more datum adds to the metrics of a run: a takeoff result counts
/// as an attempt and, if it says airborne, as a takeoff; a service event as an
/// invocation and, if it says not accepted, as a rejection; a stale mark as
/// one. The last return that is done gives its outcome, the last report of
/// another link its loss, and every video report adds its bitrate. Everything
/// else leaves these as they were.
pub proof fn metrics_count_what_happened(data: Seq<DatumView>, d: DatumView)
    ensures
        ({
            let m = metrics_of(data);
            let w = metrics_of(data.push(d));
            let service = d.kind == DatumKind::Service;
            let link = d.kind == DatumKind::Link;
            let result = service && d.label == "flight.takeoff.result"@;
            let call = service && begins(d.label, "service."@);
            let done = d.kind == DatumKind::Rtl && d.label == "rtl.done"@;
            let stale = link && d.label == "telemetry_stale"@;
            let video = link && d.label == "video_stats"@;
            let kbps = figure_of(field(d.body, "kbps"@));
            let loss = figure_of(field(d.body, "frame_loss_pct"@));
            &&& w.takeoff_attempts == m.takeoff_attempts + one_if(result)
            &&& w.takeoff_ok == m.takeoff_ok + one_if(
                result && flag_of(field(d.body, "airborne"@)) == Some(true),
            )
            &&& w.service_ops == m.service_ops + one_if(call)
            &&& w.service_rejected == m.service_rejected + one_if(
                call && flag_of(field(d.body, "accepted"@)) == Some(false),
            )
            &&& w.stale_marks == m.stale_marks + one_if(stale)
            &&& done && text_of(field(d.body, "outcome"@)) is Some ==> w.rtl_outcome == text_of(
                field(d.body, "outcome"@),
            )
            &&& !done || text_of(field(d.body, "outcome"@)) is None ==> w.rtl_outcome
                == m.rtl_outcome
            &&& video && kbps is Some ==> w.video_kbps == m.video_kbps.push(kbps->0)
            &&& !video || kbps is None ==> w.video_kbps == m.video_kbps
            &&& link && !stale && !video && loss is Some ==> w.spark_loss_pct == loss
            &&& !link || stale || video || loss is None ==> w.spark_loss_pct == m.spark_loss_pct
            &&& m.service_rtt_ms is Some || (call && figure_of(field(d.body, "rtt_ms"@)) is Some)
                <==> w.service_rtt_ms is Some
        }),
        // Without data there is nothing.
        ({
            let none = metrics_of(Seq::empty());
            &&& none.takeoff_attempts == 0 && none.takeoff_ok == 0 && none.service_ops == 0
            &&& none.service_rejected == 0 && none.stale_marks == 0 && none.coop == 0
            &&& none.unco == 0 && none.rtl_outcome is None && none.spark_loss_pct is None
            &&& none.video_kbps.len() == 0 && none.max_bias_m is None && none.duration_ns == 0
            &&& none.service_rtt_ms is None && none.vehicles.len() == 0
        }),
{
    lemma_count_more(data, d, takeoff_result());
    lemma_count_more(data, d, took_off());
    lemma_count_more(data, d, service_call());
    lemma_count_more(data, d, service_refusal());
    lemma_count_more(data, d, stale_mark());
    lemma_figures_more(data, d, video_report(), "kbps"@);
    lemma_figures_more(data, d, other_link(), "frame_loss_pct"@);
    lemma_figures_more(data, d, service_call(), "rtt_ms"@);
    lemma_outcome_prefix(data, d, data.len());
    assert(data.push(d)[data.len() as int] == d);
    let s = d.label;
    let p = "service."@;
    assert(p.is_prefix_of(s) <==> p.len() <= s.len() && s.take(p.len() as int) == p) by {
        if p.len() <= s.len() {
            if p.is_prefix_of(s) {
                assert(s.take(p.len() as int) =~= p);
            }
        }
    }
    sorted_texts_hold_each_once(telemetry_vehicles(Seq::empty(), 0));
    let none = sorted_texts(telemetry_vehicles(Seq::empty(), 0));
    if none.len() > 0 {
        assert(none.contains(none[0]));
    }
}

/// The time that a run took is what lies between its first and its last datum.
pub proof fn durations_span_the_run(data: Seq<DatumView>)
    requires
        data.len() > 0,
        data[0].t_ns <= data[data.len() - 1].t_ns,
    ensures
        data[0].t_ns + metrics_of(data).duration_ns == data[data.len() - 1].t_ns,
{
}

// ---------------------------------------------------------------------------
// coordination
// ---------------------------------------------------------------------------

/// The bias of a coordination event.
pub open spec fn bias_of(d: DatumView) -> Option<FigureView> {
    if d.kind == DatumKind::Coord {
        figure_of(field(d.body, "bias_m"@))
    } else {
        None
    }
}

proof fn lemma_bias(data: Seq<DatumView>, n: nat)
    requires
        n <= data.len(),
    ensures
        largest_bias(data, n) is None <==> forall|i: int|
            0 <= i < n ==> (#[trigger] bias_of(data[i])) is None,
        largest_bias(data, n) matches Some(f) ==> {
            &&& !f.real.is_nan() && 0 <= f.real.key()
            &&& f.real.bits == 0 || exists|i: int|
                0 <= i < n && (#[trigger] bias_of(data[i])) is Some && f.real.key() == bias_of(
                    data[i],
                )->0.real.magnitude()
            &&& forall|i: int|
                0 <= i < n && (#[trigger] bias_of(data[i])) is Some ==> bias_of(
                    data[i],
                )->0.real.is_nan() || bias_of(data[i])->0.real.magnitude() <= f.real.key()
        },
    decreases n,
{
    if n > 0 {
        let m = (n - 1) as nat;
        lemma_bias(data, m);
        let d = data[n - 1];
        let before = largest_bias(data, m);
        let after = largest_bias(data, n);
        if bias_of(d) is Some {
            let b = bias_of(d)->0;
            assert(absolute(b).real.key() == b.real.magnitude());
            assert(bias_of(data[n - 1]) is Some);
            if before is Some && before->0.real.bits != 0 {
                let i = choose|i: int|
                    0 <= i < m && (#[trigger] bias_of(data[i])) is Some && before->0.real.key()
                        == bias_of(data[i])->0.real.magnitude();
                assert(bias_of(data[i]) is Some);
            }
        } else {
            assert(after == before);
            if before is Some && before->0.real.bits != 0 {
                let i = choose|i: int|
                    0 <= i < m && (#[trigger] bias_of(data[i])) is Some && before->0.real.key()
                        == bias_of(data[i])->0.real.magnitude();
                assert(bias_of(data[i]) is Some);
            }
        }
    }
}

/// The largest bias of a run is the largest up or down that a coordination
/// event carries: no event carries more, some event carries as much unless all
/// are zero, and there is none exactly if no event carries one.
pub proof fn biases_are_the_largest_up_or_down(data: Seq<DatumView>)
    ensures
        metrics_of(data).max_bias_m is None <==> forall|i: int|
            0 <= i < data.len() ==> (#[trigger] bias_of(data[i])) is None,
        metrics_of(data).max_bias_m matches Some(f) ==> {
            &&& !f.real.is_nan() && 0 <= f.real.key()
            &&& f.real.bits == 0 || exists|i: int|
                0 <= i < data.len() && (#[trigger] bias_of(data[i])) is Some && f.real.key()
                    == bias_of(data[i])->0.real.magnitude()
            &&& forall|i: int|
                0 <= i < data.len() && (#[trigger] bias_of(data[i])) is Some ==> bias_of(
                    data[i],
                )->0.real.is_nan() || bias_of(data[i])->0.real.magnitude() <= f.real.key()
        },
{
    lemma_bias(data, data.len());
}

/// Whether two events name the same two sides, in either order.
pub open spec fn same_sides(d: DatumView, e: DatumView) -> bool {
    let a = text_of(field(d.body, "peer"@));
    let b = text_of(field(e.body, "peer"@));
    (d.vehicle == e.vehicle && a == b) || (d.vehicle == b && e.vehicle == a)
}

/// Whether a datum tells of an avoidance of one kind.
pub open spec fn avoidance(d: DatumView, cooperative: bool) -> bool {
    d.kind == DatumKind::Coord && d.label == (if cooperative {
        "coord.coop"@
    } else {
        "coord.unco"@
    })
}

/// The episodes of one kind in a run.
pub open spec fn episodes_told(data: Seq<DatumView>, cooperative: bool) -> nat {
    if cooperative {
        metrics_of(data).coop
    } else {
        metrics_of(data).unco
    }
}

proof fn lemma_last_seen_none(data: Seq<DatumView>, label: Seq<char>, pair: Seq<char>, n: nat)
    requires
        n <= data.len(),
        forall|i: int| 0 <= i < n ==> !coord_event(#[trigger] data[i], label),
    ensures
        last_seen(data, label, pair, n) is None,
    decreases n,
{
    if n > 0 {
        lemma_last_seen_none(data, label, pair, (n - 1) as nat);
    }
}

/// Avoidance is counted by episodes, not by events. The first event of its
/// kind is an episode; an event of another kind adds none; and an event right
/// after one of the same two sides adds one exactly if three seconds or more
/// lie between them, whichever side journaled it.
pub proof fn episodes_are_counted_once(data: Seq<DatumView>, d: DatumView, cooperative: bool)
    ensures
        !avoidance(d, cooperative) ==> episodes_told(data.push(d), cooperative) == episodes_told(
            data,
            cooperative,
        ),
        avoidance(d, cooperative) && (forall|i: int|
            0 <= i < data.len() ==> !avoidance(#[trigger] data[i], cooperative)) ==> episodes_told(
            data.push(d),
            cooperative,
        ) == episodes_told(data, cooperative) + 1,
        avoidance(d, cooperative) && data.len() > 0 && avoidance(data.last(), cooperative)
            && same_sides(data.last(), d) ==> episodes_told(data.push(d), cooperative)
            == episodes_told(data, cooperative) + one_if(
            d.t_ns >= data.last().t_ns + 3_000_000_000,
        ),
{
    let label = if cooperative {
        COOP@
    } else {
        UNCO@
    };
    let n = data.len();
    let all = data.push(d);
    assert(all[n as int] == d);
    lemma_episodes_same(data, d, label, n);
    if avoidance(d, cooperative) {
        lemma_seen_same(data, d, label, pair_of(d), n);
        if forall|i: int| 0 <= i < n ==> !avoidance(#[trigger] data[i], cooperative) {
            assert forall|i: int| 0 <= i < n implies !coord_event(#[trigger] data[i], label) by {
                assert(!avoidance(data[i], cooperative));
            }
            lemma_last_seen_none(data, label, pair_of(d), n);
        }
        if n > 0 && avoidance(data.last(), cooperative) && same_sides(data.last(), d) {
            let e = data.last();
            if !(d.vehicle == e.vehicle && text_of(field(d.body, "peer"@)) == text_of(
                field(e.body, "peer"@),
            )) {
                both_sides_name_one_pair(d, e);
            }
            assert(pair_of(d) == pair_of(e));
        }
    }
}

proof fn lemma_seen_same(
    data: Seq<DatumView>,
    d: DatumView,
    label: Seq<char>,
    pair: Seq<char>,
    n: nat,
)
    requires
        n <= data.len(),
    ensures
        last_seen(data.push(d), label, pair, n) == last_seen(data, label, pair, n),
    decreases n,
{
    if n > 0 {
        lemma_seen_same(data, d, label, pair, (n - 1) as nat);
        assert(data.push(d)[n - 1] == data[n - 1]);
    }
}

proof fn lemma_episodes_same(data: Seq<DatumView>, d: DatumView, label: Seq<char>, n: nat)
    requires
        n <= data.len(),
    ensures
        episodes(data.push(d), label, n) == episodes(data, label, n),
    decreases n,
{
    if n > 0 {
        lemma_episodes_same(data, d, label, (n - 1) as nat);
        assert(data.push(d)[n - 1] == data[n - 1]);
        lemma_seen_same(data, d, label, pair_of(data[n - 1]), (n - 1) as nat);
    }
}

// ---------------------------------------------------------------------------
// vehicles
// ---------------------------------------------------------------------------

/// Whether a datum is a telemetry sample of a vehicle.
pub open spec fn sampled(d: DatumView, vehicle: Seq<char>) -> bool {
    d.kind == DatumKind::Telemetry && d.vehicle == Some(vehicle)
}

proof fn lemma_vehicles(data: Seq<DatumView>, n: nat, vehicle: Seq<char>)
    requires
        n <= data.len(),
    ensures
        telemetry_vehicles(data, n).contains(vehicle) <==> exists|i: int|
            0 <= i < n && sampled(#[trigger] data[i], vehicle),
    decreases n,
{
    if n > 0 {
        let m = (n - 1) as nat;
        lemma_vehicles(data, m, vehicle);
        let before = telemetry_vehicles(data, m);
        let after = telemetry_vehicles(data, n);
        if before.contains(vehicle) {
            let k = choose|k: int| 0 <= k < before.len() && before[k] == vehicle;
            assert(after[k] == vehicle);
        }
        if sampled(data[n - 1], vehicle) {
            assert(after[after.len() - 1] == vehicle);
        }
        if after.contains(vehicle) && !before.contains(vehicle) {
            let k = choose|k: int| 0 <= k < after.len() && after[k] == vehicle;
            if k < before.len() {
                assert(before[k] == vehicle);
            }
            assert(sampled(data[n - 1], vehicle));
        }
    }
}

proof fn lemma_times(data: Seq<DatumView>, vehicle: Seq<char>, n: nat)
    requires
        n <= data.len(),
    ensures
        sample_times(data, vehicle, n).len() == count_where(data, is_sample(vehicle), n),
    decreases n,
{
    if n > 0 {
        lemma_times(data, vehicle, (n - 1) as nat);
    }
}

proof fn lemma_times_prefix(data: Seq<DatumView>, d: DatumView, vehicle: Seq<char>, n: nat)
    requires
        n <= data.len(),
    ensures
        sample_times(data.push(d), vehicle, n) == sample_times(data, vehicle, n),
    decreases n,
{
    if n > 0 {
        lemma_times_prefix(data, d, vehicle, (n - 1) as nat);
        assert(data.push(d)[n - 1] == data[n - 1]);
    }
}

proof fn lemma_last_time(data: Seq<DatumView>, vehicle: Seq<char>, n: nat, i: int)
    requires
        0 <= i < n <= data.len(),
        sampled(data[i], vehicle),
        forall|j: int| i < j < n ==> !sampled(#[trigger] data[j], vehicle),
    ensures
        sample_times(data, vehicle, n).len() > 0,
        sample_times(data, vehicle, n).last() == data[i].t_ns,
    decreases n,
{
    if i < n - 1 {
        assert(!sampled(data[n - 1], vehicle));
        lemma_last_time(data, vehicle, (n - 1) as nat, i);
    }
}

/// A run's metrics summarize every vehicle with telemetry, once, in the order
/// of their ids. A sample counts for its own vehicle alone, and from the second
/// on it adds the time since the one before.
pub proof fn every_vehicle_is_summarized_once(
    data: Seq<DatumView>,
    d: DatumView,
    vehicle: Seq<char>,
)
    ensures
        increasing(metrics_of(data).vehicles.map_values(|v: crate::metrics::VehicleView| v.vehicle)),
        (exists|k: int|
            0 <= k < metrics_of(data).vehicles.len() && (
            #[trigger] metrics_of(data).vehicles[k]).vehicle == vehicle) <==> exists|i: int|
            0 <= i < data.len() && sampled(#[trigger] data[i], vehicle),
        forall|k: int|
            0 <= k < metrics_of(data).vehicles.len() ==> #[trigger] metrics_of(data).vehicles[k]
                == vehicle_summary(data, metrics_of(data).vehicles[k].vehicle),
        vehicle_summary(data.push(d), vehicle).samples == vehicle_summary(data, vehicle).samples
            + one_if(sampled(d, vehicle)),
        vehicle_summary(Seq::empty(), vehicle).samples == 0,
        !sampled(d, vehicle) ==> vehicle_summary(data.push(d), vehicle).interarrival
            == vehicle_summary(data, vehicle).interarrival,
        vehicle_summary(data, vehicle).interarrival is Some <==> vehicle_summary(
            data,
            vehicle,
        ).samples > 1,
        data.len() < usize::MAX ==> (vehicle_summary(data, vehicle).interarrival matches Some(p)
            ==> p.n + 1 == vehicle_summary(data, vehicle).samples),
        sampled(d, vehicle) && data.len() < usize::MAX ==> forall|i: int|
            #![trigger data[i]]
            0 <= i < data.len() && sampled(data[i], vehicle) && data[i].t_ns <= d.t_ns && (forall|
                j: int,
            |
                i < j < data.len() ==> !sampled(#[trigger] data[j], vehicle))
                ==> vehicle_summary(data.push(d), vehicle).interarrival is Some
                && vehicle_summary(data.push(d), vehicle).interarrival->0.max >= d.t_ns
                - data[i].t_ns,
{
    let ids = sorted_texts(telemetry_vehicles(data, data.len()));
    let all = metrics_of(data).vehicles;
    sorted_texts_hold_each_once(telemetry_vehicles(data, data.len()));
    lemma_vehicles(data, data.len(), vehicle);
    assert(all.map_values(|v: crate::metrics::VehicleView| v.vehicle) =~= ids);
    if ids.contains(vehicle) {
        let k = choose|k: int| 0 <= k < ids.len() && ids[k] == vehicle;
        assert(all[k].vehicle == vehicle);
    }
    if exists|k: int| 0 <= k < all.len() && (#[trigger] all[k]).vehicle == vehicle {
        let k = choose|k: int| 0 <= k < all.len() && (#[trigger] all[k]).vehicle == vehicle;
        assert(ids[k] == vehicle);
        assert(ids.contains(vehicle));
    }
    lemma_count_more(data, d, is_sample(vehicle));
    lemma_times(data, vehicle, data.len());
    lemma_times_prefix(data, d, vehicle, data.len());
    assert(data.push(d)[data.len() as int] == d);
    let times = sample_times(data, vehicle, data.len());
    crate::metrics::lemma_count_bound(data, is_sample(vehicle), data.len());
    let more = sample_times(data.push(d), vehicle, data.len() + 1);
    if sampled(d, vehicle) && data.len() < usize::MAX {
        assert(more == times.push(d.t_ns));
        span_percentiles_stand_in_order(gaps(more));
        assert forall|i: int|
            #![trigger data[i]]
            0 <= i < data.len() && sampled(data[i], vehicle) && data[i].t_ns <= d.t_ns && (forall|
                j: int,
            |
                i < j < data.len() ==> !sampled(#[trigger] data[j], vehicle)) implies
            vehicle_summary(data.push(d), vehicle).interarrival is Some && vehicle_summary(
            data.push(d),
            vehicle,
        ).interarrival->0.max >= d.t_ns - data[i].t_ns by {
            lemma_last_time(data, vehicle, data.len(), i);
            let g = gaps(more);
            assert(g.len() == times.len());
            assert(more[times.len() - 1] == times[times.len() - 1]);
            assert(g[times.len() - 1] == d.t_ns - data[i].t_ns);
        }
    }
}

} // verus!
