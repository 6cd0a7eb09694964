//! What the outcome table of a run holds, and the times between its samples.

use vstd::prelude::*;

use crate::dataset::DatumView;
use crate::json::FigureView;
use crate::metrics::{
    columns_of, gaps, measures, pctl_of, pooled, sample_times, span, telemetry_of,
    with_column, ColumnView, MeasuredView, MetricsView,
};
use crate::text::dec_text;

verus! {

/// The times of a vehicle's samples are those of its telemetry, in order.
pub proof fn sample_times_are_the_telemetry_times(
    data: Seq<DatumView>,
    vehicle: Seq<char>,
    n: nat,
)
    requires
        0 < n <= data.len(),
    ensures
        sample_times(data, vehicle, 0).len() == 0,
        telemetry_of(data[n - 1], vehicle) ==> sample_times(data, vehicle, n) == sample_times(
            data,
            vehicle,
            (n - 1) as nat,
        ).push(data[n - 1].t_ns),
        !telemetry_of(data[n - 1], vehicle) ==> sample_times(data, vehicle, n) == sample_times(
            data,
            vehicle,
            (n - 1) as nat,
        ),
{
}

/// Between each two samples in a row there is one gap: the time from the first
/// to the second, and none if the clock went back.
pub proof fn gaps_lie_between_samples(times: Seq<u64>, i: int)
    ensures
        gaps(times).len() == if times.len() < 2 {
            0
        } else {
            times.len() - 1
        },
        0 <= i < times.len() - 1 && times[i] <= times[i + 1] ==> gaps(times)[i] == times[i + 1]
            - times[i],
        0 <= i < times.len() - 1 && times[i] > times[i + 1] ==> gaps(times)[i] == 0,
{
}

/// The span of two times is what lies between them, and nothing if the second
/// is the earlier one.
pub proof fn spans_lie_between_times(a: u64, b: u64)
    ensures
        b >= a ==> span(a, b) == b - a,
        b < a ==> span(a, b) == 0,
{
}

/// The pooled figures are the medians and the 95th percentiles of the vehicles
/// that have them, in order.
pub proof fn pooled_figures_come_in_pairs(s: Seq<Option<(FigureView, FigureView)>>, n: nat)
    requires
        0 < n <= s.len(),
    ensures
        pooled(s, 0).len() == 0,
        s[n - 1] is None ==> pooled(s, n) == pooled(s, (n - 1) as nat),
        s[n - 1] matches Some(p) ==> pooled(s, n) == pooled(s, (n - 1) as nat) + seq![p.0, p.1],
{
    if s[n - 1] is Some {
        let p = s[n - 1]->0;
        assert(pooled(s, n) =~= pooled(s, (n - 1) as nat) + seq![p.0, p.1]);
    }
}

/// Whether a column shows a figure under a name.
pub open spec fn figured(x: ColumnView, name: Seq<char>, shown: Seq<char>, f: FigureView) -> bool {
    x == (ColumnView { name, display: shown, num: Some(f.plain) })
}

/// Whether a column shows two counts under a name, and sorts by one.
pub open spec fn counted(x: ColumnView, name: Seq<char>, a: nat, b: nat, by: nat) -> bool {
    x == (ColumnView { name, display: dec_text(a) + "/"@ + dec_text(b), num: Some(dec_text(by)) })
}

proof fn lemma_with_column(s: Seq<ColumnView>, c: Option<ColumnView>, x: ColumnView)
    ensures
        with_column(s, c).contains(x) <==> s.contains(x) || c == Some(x),
{
    match c {
        Some(y) => {
            let t = s.push(y);
            assert(t.last() == y);
            if s.contains(x) {
                let k = choose|k: int| 0 <= k < s.len() && s[k] == x;
                assert(t[k] == x);
            }
            if t.contains(x) {
                let k = choose|k: int| 0 <= k < t.len() && t[k] == x;
                if k < s.len() {
                    assert(s[k] == x);
                }
            }
        },
        None => {},
    }
}

/// The outcome columns of a run are exactly these, each only if there is
/// something to show: the rate of cooperation with its episodes, the duration,
/// the largest bias, how the return ended, the loss and the stale marks of the
/// links, the answers of the services with their round trips, the takeoffs,
/// and the pooled times between samples.
#[verifier::rlimit(60)]
pub proof fn outcomes_are_these_columns(m: MetricsView, g: MeasuredView, x: ColumnView)
    requires
        m.consistent(),
    ensures
        ({
            let gap = pctl_of(pooled(g.interarrival_ms, g.interarrival_ms.len()));
            columns_of(m, g).contains(x) <==> {
                ||| g.coop_rate_pct is Some && figured(
                    x,
                    "coop rate %"@,
                    g.coop_rate_pct->0.whole,
                    g.coop_rate_pct->0,
                )
                ||| g.coop_rate_pct is Some && counted(x, "coop/unco"@, m.coop, m.unco, m.coop)
                ||| figured(x, "duration s"@, g.duration_s.whole, g.duration_s)
                ||| m.max_bias_m is Some && figured(
                    x,
                    "max bias m"@,
                    m.max_bias_m->0.tenth,
                    m.max_bias_m->0,
                )
                ||| m.rtl_outcome is Some && x == (ColumnView {
                    name: "rtl"@,
                    display: m.rtl_outcome->0,
                    num: None,
                })
                ||| m.spark_loss_pct is Some && figured(
                    x,
                    "spark loss %"@,
                    m.spark_loss_pct->0.tenth,
                    m.spark_loss_pct->0,
                )
                ||| m.stale_marks > 0 && x == (ColumnView {
                    name: "stale marks"@,
                    display: dec_text(m.stale_marks),
                    num: Some(dec_text(m.stale_marks)),
                })
                ||| m.service_ops > 0 && counted(
                    x,
                    "svc ok/rejected"@,
                    (m.service_ops - m.service_rejected) as nat,
                    m.service_rejected,
                    m.service_rejected,
                )
                ||| m.service_rtt_ms is Some && figured(
                    x,
                    "svc rtt p50 ms"@,
                    m.service_rtt_ms->0.p50.tenth,
                    m.service_rtt_ms->0.p50,
                )
                ||| m.service_rtt_ms is Some && figured(
                    x,
                    "svc rtt p95 ms"@,
                    m.service_rtt_ms->0.p95.tenth,
                    m.service_rtt_ms->0.p95,
                )
                ||| m.takeoff_attempts > 0 && counted(
                    x,
                    "takeoffs"@,
                    m.takeoff_ok,
                    m.takeoff_attempts,
                    m.takeoff_ok,
                )
                ||| gap is Some && figured(x, "telem p50 ms"@, gap->0.p50.tenth, gap->0.p50)
                ||| gap is Some && figured(x, "telem p95 ms"@, gap->0.p95.tenth, gap->0.p95)
            }
        }),
{
    assert forall|s: Seq<ColumnView>, c: Option<ColumnView>| #[trigger]
        with_column(s, c).contains(x) <==> s.contains(x) || c == Some(x) by {
        lemma_with_column(s, c, x);
    }
    let none = Seq::<ColumnView>::empty();
    assert(!none.contains(x));
}

/// What was measured of a run goes with what was counted: a rate of
/// cooperation exactly if there was an episode, times between the samples of
/// exactly the vehicles that have them, and a bitrate exactly if one was
/// reported.
pub proof fn measurements_go_with_the_counts(g: MeasuredView, m: MetricsView, i: int)
    requires
        measures(g, m),
    ensures
        g.coop_rate_pct is None <==> m.coop == 0 && m.unco == 0,
        g.interarrival_ms.len() == m.vehicles.len(),
        0 <= i < m.vehicles.len() ==> (g.interarrival_ms[i] is None
            <==> m.vehicles[i].interarrival is None),
        g.video_kbps_mean is None <==> m.video_kbps.len() == 0,
{
}

} // verus!
