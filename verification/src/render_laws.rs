//! What the artifacts show of the data they are drawn from.

use vstd::prelude::*;

use crate::blocks::{CitationView, DatumKind};
use crate::dataset::{has_prefix, setting_at, DatumView, Setting};
use crate::json::{field, figure_of, flag_of, quoted, text_of, FigureView};
use crate::metrics::{sample_field, telemetry_of, ColumnView, PctlView};
use crate::render::compare::{
    cell_text, column_named, delta_notes, first_seen, ground_track, is_shared, note_line,
    outcome_field, percent_byte, percent_text, uncommaed,
};
use crate::render::deck::{
    at_most, axis_end, biased, biased_places, facts_line, height_before, hero_of, last_time,
    link_facts, series_slot,
};
use crate::render::demo::{
    replay_events, replayed, text_place, track_points, vehicle_number,
};
use crate::render::report::{
    battery_text, bias_text, detail_of, first_time, kind_flags, link_lines, on_timeline, rtl_text,
    signed, spread_html,
};
use crate::render::{
    citation_row, citation_rows, cite_row_html, clock_text, drawer_of, escaped, escaped_char,
    plural_of, short_of, shown_setting, two_digits, Run,
};
use crate::text::{dec_text, joined};
use crate::text_map::TextMap;

verus! {

// ---------------------------------------------------------------------------
// texts
// ---------------------------------------------------------------------------

/// Escaping writes the four characters that mean something in a page by their
/// names and every other as it is, one behind the other.
pub proof fn escaping_names_four_characters(s: Seq<char>, c: char)
    ensures
        escaped(Seq::empty()).len() == 0,
        escaped(s.push(c)) == escaped(s) + escaped_char(c),
        escaped_char('&') == "&amp;"@,
        escaped_char('<') == "&lt;"@,
        escaped_char('>') == "&gt;"@,
        escaped_char('"') == "&quot;"@,
        c != '&' && c != '<' && c != '>' && c != '"' ==> escaped_char(c) == seq![c],
{
    assert(s.push(c).drop_last() =~= s);
}

/// The clock of an artifact counts whole minutes and seconds from its start,
/// each in two digits or more, and stands at zero before it.
pub proof fn clocks_count_minutes_and_seconds(t_ns: u64, t0_ns: u64, m: nat, s: nat)
    requires
        s < 60,
    ensures
        t_ns >= t0_ns && (60 * m + s) * 1_000_000_000 <= t_ns - t0_ns < (60 * m + s + 1)
            * 1_000_000_000 ==> clock_text(t_ns, t0_ns) == two_digits(m) + ":"@ + two_digits(s),
        t_ns < t0_ns ==> clock_text(t_ns, t0_ns) == two_digits(0) + ":"@ + two_digits(0),
        m < 10 ==> two_digits(m) == "0"@ + dec_text(m),
        m >= 10 ==> two_digits(m) == dec_text(m),
{
    let n = 60 * m + s;
    if t_ns >= t0_ns && n * 1_000_000_000 <= t_ns - t0_ns < (n + 1) * 1_000_000_000 {
        let d = t_ns - t0_ns;
        assert(d / 1_000_000_000 == n);
        assert(n as nat / 60 == m);
        assert(n as nat % 60 == s);
    }
}

/// Texts are joined with the separator between each two.
pub proof fn texts_join_with_separators(parts: Seq<Seq<char>>, sep: Seq<char>, t: Seq<char>)
    ensures
        joined(parts, sep, 0).len() == 0,
        parts.len() == 0 ==> joined(parts.push(t), sep, 1) == t,
        parts.len() > 0 ==> joined(parts.push(t), sep, parts.len() + 1) == joined(
            parts,
            sep,
            parts.len(),
        ) + sep + t,
{
    lemma_joined_prefix(parts, sep, t, parts.len());
}

proof fn lemma_joined_prefix(parts: Seq<Seq<char>>, sep: Seq<char>, t: Seq<char>, n: nat)
    requires
        n <= parts.len(),
    ensures
        joined(parts.push(t), sep, n) == joined(parts, sep, n),
    decreases n,
{
    if n > 0 {
        lemma_joined_prefix(parts, sep, t, (n - 1) as nat);
        assert(parts.push(t)[n - 1] == parts[n - 1]);
        assert(parts.push(t)[0] == parts[0]);
    }
}

/// A count of one is singular.
pub proof fn one_is_singular(n: nat)
    ensures
        n == 1 ==> plural_of(n).len() == 0,
        n != 1 ==> plural_of(n) == "s"@,
{
    reveal_strlit("");
}

/// A byte of a link is written as it is if a link may hold it, and else by a
/// percent sign and its two uppercase hex digits, the high one first.
pub proof fn links_escape_bytes(s: Seq<u8>, b: u8)
    ensures
        percent_text(Seq::empty()).len() == 0,
        percent_text(s.push(b)) == percent_text(s) + percent_byte(b),
        ({
            let plain = 0x30 <= b <= 0x3a || 0x41 <= b <= 0x5a || 0x61 <= b <= 0x7a || 0x2d <= b
                <= 0x2f || b == 0x5f || b == 0x7e;
            &&& plain ==> percent_byte(b) == seq![b as char]
            &&& !plain ==> percent_byte(b) == seq![
                '%',
                "0123456789ABCDEF"@[b as int / 16],
                "0123456789ABCDEF"@[b as int % 16],
            ]
        }),
{
    reveal_strlit("0123456789ABCDEF");
    assert(s.push(b).drop_last() =~= s);
}

/// A field of the table of values has semicolons for its commas.
pub proof fn fields_hold_no_comma(s: Seq<char>, i: int)
    requires
        0 <= i < s.len(),
    ensures
        uncommaed(s).len() == s.len(),
        uncommaed(s)[i] == if s[i] == ',' {
            ';'
        } else {
            s[i]
        },
{
}

// ---------------------------------------------------------------------------
// provenance and settings
// ---------------------------------------------------------------------------

/// Each citation has its row, in order: the whole hash as a hint, its first
/// ten digits, the chain and the position.
pub proof fn citations_have_their_rows(s: Seq<CitationView>, n: nat)
    requires
        0 < n <= s.len(),
    ensures
        citation_rows(s, 0).len() == 0,
        citation_rows(s, n) == citation_rows(s, (n - 1) as nat) + citation_row(s[n - 1]),
        ({
            let c = s[n - 1];
            &&& citation_row(c) == cite_row_html(
                escaped(c.hash),
                short_of(c.hash),
                escaped(c.chain),
                c.seq as nat,
            )
            &&& c.hash.len() > 10 ==> short_of(c.hash) == c.hash.take(10)
            &&& c.hash.len() <= 10 ==> short_of(c.hash) == c.hash
        }),
{
}

/// A drawer without citations is left out.
pub proof fn empty_drawers_are_left_out(label: Seq<char>, s: Seq<CitationView>)
    ensures
        drawer_of(label, s).len() == 0 <==> s.len() == 0,
{
    reveal_strlit("");
    reveal_strlit("</tbody></table></details>");
}

/// A setting is shown by its display form, and one that is not there is not
/// shown.
pub proof fn settings_are_shown_if_there(settings: TextMap<Setting>, key: Seq<char>)
    ensures
        setting_at(settings, key) is None ==> shown_setting(settings, key) is None,
        setting_at(settings, key) matches Some(s) ==> shown_setting(settings, key) == Some(
            s.display,
        ),
{
}

// ---------------------------------------------------------------------------
// comparison
// ---------------------------------------------------------------------------

/// A setting is shared exactly if every run shows it and any two the same.
pub proof fn shared_settings_are_the_same_everywhere(runs: Seq<Run>, key: Seq<char>)
    requires
        runs.len() > 0,
    ensures
        is_shared(runs, key) <==> {
            &&& forall|i: int| 0 <= i < runs.len() ==> (#[trigger] runs[i]).setting(key) is Some
            &&& forall|i: int, j: int|
                0 <= i < runs.len() && 0 <= j < runs.len() ==> (#[trigger] runs[i]).setting(key)
                    == (#[trigger] runs[j]).setting(key)
        },
{
    if is_shared(runs, key) {
        assert forall|i: int| 0 <= i < runs.len() implies (#[trigger] runs[i]).setting(
            key,
        ) is Some by {
            assert(runs[i].setting(key) == runs[0].setting(key));
        }
    }
}

/// Of names that repeat, the first of each is kept, in order.
pub proof fn names_are_kept_once(names: Seq<Seq<char>>, n: nat, x: Seq<char>)
    requires
        n <= names.len(),
    ensures
        first_seen(names, n).no_duplicates(),
        first_seen(names, n).contains(x) <==> names.take(n as int).contains(x),
    decreases n,
{
    if n > 0 {
        let m = (n - 1) as nat;
        names_are_kept_once(names, m, x);
        names_are_kept_once(names, m, names[m as int]);
        let before = first_seen(names, m);
        let t = names.take(n as int);
        assert(t.drop_last() =~= names.take(m as int));
        assert(t.last() == names[m as int]);
        assert(t =~= names.take(m as int).push(names[m as int]));
        if names.take(m as int).contains(x) {
            let k = choose|k: int|
                0 <= k < names.take(m as int).len() && names.take(m as int)[k] == x;
            assert(t[k] == x);
        }
        if t.contains(x) {
            let k = choose|k: int| 0 <= k < t.len() && t[k] == x;
            if k < m {
                assert(names.take(m as int)[k] == x);
            }
        }
        if !before.contains(names[m as int]) {
            let all = before.push(names[m as int]);
            assert(all.last() == names[m as int]);
            if before.contains(x) {
                let k = choose|k: int| 0 <= k < before.len() && before[k] == x;
                assert(all[k] == x);
            }
            if all.contains(x) {
                let k = choose|k: int| 0 <= k < all.len() && all[k] == x;
                if k < before.len() {
                    assert(before[k] == x);
                }
            }
            assert forall|i: int, j: int| 0 <= i < all.len() && 0 <= j < all.len() && i
                != j implies all[i] != all[j] by {
                if i < before.len() {
                    assert(before.contains(before[i]));
                }
                if j < before.len() {
                    assert(before.contains(before[j]));
                }
            }
        }
    }
}

proof fn lemma_column_named(s: Seq<ColumnView>, name: Seq<char>, i: nat, k: int)
    requires
        i <= k < s.len(),
        s[k].name == name,
        forall|j: int| i <= j < k ==> (#[trigger] s[j]).name != name,
    ensures
        column_named(s, name, i) == Some(s[k]),
    decreases s.len() - i,
{
    if i < k {
        assert(s[i as int].name != name);
        lemma_column_named(s, name, i + 1, k);
    }
}

proof fn lemma_column_unnamed(s: Seq<ColumnView>, name: Seq<char>, i: nat)
    requires
        forall|j: int| i <= j < s.len() ==> (#[trigger] s[j]).name != name,
    ensures
        column_named(s, name, i) is None,
    decreases s.len() - i,
{
    if i < s.len() {
        assert(s[i as int].name != name);
        lemma_column_unnamed(s, name, i + 1);
    }
}

/// An outcome is looked up by its name: the first column of that name, and
/// none if no column has it. What is missing is shown by a dash.
pub proof fn outcomes_are_looked_up_by_name(s: Seq<ColumnView>, name: Seq<char>, k: int)
    ensures
        (forall|j: int| 0 <= j < s.len() ==> (#[trigger] s[j]).name != name) ==> column_named(
            s,
            name,
            0,
        ) is None,
        0 <= k < s.len() && s[k].name == name && (forall|j: int|
            0 <= j < k ==> (#[trigger] s[j]).name != name) ==> column_named(s, name, 0) == Some(
            s[k],
        ),
        cell_text(None) == "—"@,
        cell_text(Some(name)) == name,
        outcome_field(None).len() == 0,
{
    reveal_strlit("");
    if forall|j: int| 0 <= j < s.len() ==> (#[trigger] s[j]).name != name {
        lemma_column_unnamed(s, name, 0);
    }
    if 0 <= k < s.len() && s[k].name == name && (forall|j: int|
        0 <= j < k ==> (#[trigger] s[j]).name != name) {
        lemma_column_named(s, name, 0, k);
    }
}

/// A run is noted by the settings it shows among those that changed; without
/// any it is noted as identical.
pub proof fn runs_are_noted_by_what_changed(run: Run, keys: Seq<Seq<char>>, n: nat)
    requires
        0 < n <= keys.len(),
    ensures
        delta_notes(run, keys, 0).len() == 0,
        run.setting(keys[n - 1]) is None ==> delta_notes(run, keys, n) == delta_notes(
            run,
            keys,
            (n - 1) as nat,
        ),
        run.setting(keys[n - 1]) matches Some(v) ==> delta_notes(run, keys, n) == delta_notes(
            run,
            keys,
            (n - 1) as nat,
        ).push(keys[n - 1] + " "@ + v),
        note_line(Seq::empty()) == "(identical settings)"@,
{
}

/// A track has a point for each telemetry sample of its vehicle with a full
/// position, in order: with its coordinates on a map, and with its time and
/// height too in a replay.
pub proof fn tracks_hold_the_positions(
    data: Seq<DatumView>,
    times: Seq<Seq<char>>,
    vehicle: Seq<char>,
    n: nat,
)
    requires
        0 < n <= data.len(),
    ensures
        ({
            let d = data[n - 1];
            let lat = figure_of(sample_field(d, "lat_deg"@));
            let lon = figure_of(sample_field(d, "lon_deg"@));
            let agl = figure_of(sample_field(d, "agl_m"@));
            let m = (n - 1) as nat;
            let there = telemetry_of(d, vehicle) && lat is Some && lon is Some;
            &&& !there ==> ground_track(data, vehicle, n) == ground_track(data, vehicle, m)
            &&& !there ==> track_points(data, times, vehicle, n) == track_points(
                data,
                times,
                vehicle,
                m,
            )
            &&& there ==> ground_track(data, vehicle, n) == ground_track(data, vehicle, m).push(
                "["@ + lat->0.json + ","@ + lon->0.json + "]"@,
            )
            &&& there ==> track_points(data, times, vehicle, n) == track_points(
                data,
                times,
                vehicle,
                m,
            ).push(
                "["@ + times[n - 1] + ","@ + lat->0.json + ","@ + lon->0.json + ","@ + (
                if agl is Some {
                    agl->0.json
                } else {
                    "0.0"@
                }) + "]"@,
            )
        }),
{
}

// ---------------------------------------------------------------------------
// report
// ---------------------------------------------------------------------------

/// A bias is shown with its sign, and a missing one by a dash.
pub proof fn biases_are_shown_with_their_sign(s: Seq<char>, f: FigureView)
    ensures
        s.len() > 0 && s[0] == '-' ==> signed(s) == s,
        s.len() == 0 || s[0] != '-' ==> signed(s) == "+"@ + s,
        bias_text(None) == "—"@,
        bias_text(Some(f)) == signed(f.tenth) + " m"@,
{
    reveal_strlit("-");
    if s.len() > 0 {
        if s[0] == '-' {
            assert(s.take(1) =~= "-"@);
        } else {
            assert(s.take(1)[0] != "-"@[0]);
        }
    }
}

/// The timeline shows services, returns to launch and events, except the
/// configuration; a replay shows coordination too.
pub proof fn timelines_show_what_happened(d: DatumView)
    ensures
        on_timeline(d) ==> d.kind != DatumKind::Telemetry && d.kind != DatumKind::Link && d.kind
            != DatumKind::Coord && d.label != "run.config"@,
        d.label != "run.config"@ && (d.kind == DatumKind::Service || d.kind == DatumKind::Rtl
            || d.kind == DatumKind::Event) ==> on_timeline(d) && replayed(d),
        d.label != "run.config"@ && d.kind == DatumKind::Coord ==> replayed(d) && !on_timeline(d),
        replayed(d) ==> d.kind != DatumKind::Telemetry && d.kind != DatumKind::Link && d.label
            != "run.config"@,
{
}

/// What the timeline says of an event: how a service answered and how fast,
/// whether a takeoff worked, and how a return to launch ended.
pub proof fn events_are_detailed_by_kind(d: DatumView, rest: Seq<char>)
    ensures
        ({
            let answer = flag_of(field(d.body, "accepted"@));
            let rtt = figure_of(field(d.body, "rtt_ms"@));
            let end = text_of(field(d.body, "outcome"@));
            &&& d.label == "service."@ + rest ==> detail_of(d) == (if answer == Some(true) {
                "accepted"@
            } else if answer == Some(false) {
                "rejected"@
            } else {
                ""@
            }) + (if rtt is Some {
                " · "@ + rtt->0.whole + " ms"@
            } else {
                ""@
            })
            &&& d.label == "flight.takeoff.result"@ ==> detail_of(d) == (if flag_of(
                field(d.body, "airborne"@),
            ) == Some(true) {
                "airborne"@
            } else {
                "failed"@
            })
            &&& d.label == "rtl.done"@ && end is Some ==> detail_of(d) == end->0
        }),
{
    reveal_strlit("service.");
    reveal_strlit("flight.takeoff.result");
    reveal_strlit("rtl.done");
    if d.label == "service."@ + rest {
        assert(d.label.take(8) =~= "service."@);
        assert(has_prefix(d.label, "service."@));
    }
    if d.label == "flight.takeoff.result"@ {
        assert(d.label.take(8)[0] == 'f');
    }
    if d.label == "rtl.done"@ {
        assert(d.label.take(8)[0] == 'r');
        assert("rtl.done"@.len() != "flight.takeoff.result"@.len());
    }
}

/// A battery is shown from its first to its last reading, a return to launch
/// by its outcome, and what is not known is said so.
pub proof fn flights_show_battery_and_return(a: FigureView, b: FigureView, outcome: Seq<char>)
    ensures
        battery_text(Some((a, b))) == a.whole + "% → "@ + b.whole + "%"@,
        battery_text(None) == "—"@,
        rtl_text(None) == "not engaged"@,
        rtl_text(Some(outcome)) == escaped(outcome),
{
}

/// The link section says only what was measured, in order: round trips, stale
/// marks, frame loss and bitrate; and that nothing was, if so.
pub proof fn links_say_what_was_measured(
    rtt: Option<PctlView>,
    stale: nat,
    loss: Option<FigureView>,
    kbps: Option<FigureView>,
)
    ensures
        ({
            let l = link_lines(rtt, stale, loss, kbps);
            let a = if rtt is Some {
                1int
            } else {
                0
            };
            let b = if stale > 0 {
                a + 1
            } else {
                a
            };
            let c = if loss is Some {
                b + 1
            } else {
                b
            };
            let d = if kbps is Some {
                c + 1
            } else {
                c
            };
            &&& d == 0 ==> l == seq!["No service-RTT, spark, or video data in this run."@]
            &&& d > 0 ==> l.len() == d
            &&& rtt matches Some(p) ==> l[0] == "Service RTT p50/p95: <strong>"@ + spread_html(
                p.p50.tenth,
                p.p95.tenth,
                p.n,
            ) + "</strong>."@
            &&& stale > 0 ==> l[a] == "The dashboard flagged <strong>"@ + dec_text(stale)
                + "</strong> stale-telemetry mark(s)."@
            &&& loss matches Some(f) ==> l[b] == "Spark telemetry-lane frame loss: <strong>"@
                + f.tenth + "%</strong>."@
            &&& kbps matches Some(f) ==> l[c] == "Mean video bitrate: <strong>"@ + f.whole
                + " kbps</strong>."@
        }),
{
}

/// The facts of a slide are those that were measured, in order: round trips,
/// frame loss and stale marks; and that nothing was, if so.
pub proof fn slides_tell_link_facts(rtt: Option<PctlView>, loss: Option<FigureView>, stale: nat)
    ensures
        ({
            let l = link_facts(rtt, loss, stale);
            let a = if rtt is Some {
                1int
            } else {
                0
            };
            let b = if loss is Some {
                a + 1
            } else {
                a
            };
            &&& l.len() == if stale > 0 {
                b + 1
            } else {
                b
            }
            &&& rtt matches Some(p) ==> l[0] == "service RTT "@ + p.p50.whole + "/"@ + p.p95.whole
                + " ms"@
            &&& loss matches Some(f) ==> l[a] == "spark loss "@ + f.tenth + "%"@
            &&& stale > 0 ==> l[b] == dec_text(stale) + " stale marks"@
            &&& l.len() == 0 ==> facts_line(l) == "no service/spark link data in this run"@
        }),
{
}

/// A section draws on the data of its kinds, and the clock of a report starts
/// with the first datum.
pub proof fn sections_draw_on_their_kinds(
    data: Seq<DatumView>,
    a: DatumKind,
    b: DatumKind,
    c: DatumKind,
    i: int,
)
    requires
        0 <= i < data.len(),
    ensures
        kind_flags(data, a, b, c).len() == data.len(),
        kind_flags(data, a, b, c)[i] <==> data[i].kind == a || data[i].kind == b || data[i].kind
            == c,
        first_time(data) == data[0].t_ns,
        last_time(data) == data[data.len() - 1].t_ns,
        first_time(Seq::empty()) == 0 && last_time(Seq::empty()) == 0,
{
}

// ---------------------------------------------------------------------------
// deck and replay
// ---------------------------------------------------------------------------

/// The chart of a vehicle has a point for each coordination event of it that
/// states a bias, in order.
pub proof fn charts_hold_the_stated_biases(data: Seq<DatumView>, vehicle: Seq<char>, n: nat)
    requires
        n <= data.len(),
    ensures
        ({
            let p = biased_places(data, vehicle, n);
            &&& forall|i: int|
                0 <= i < p.len() ==> 0 <= #[trigger] p[i] < n && data[p[i]].kind
                    == DatumKind::Coord && data[p[i]].vehicle == Some(vehicle) && figure_of(
                    field(data[p[i]].body, "bias_m"@),
                ) is Some
            &&& forall|i: int, j: int| 0 <= i < j < p.len() ==> #[trigger] p[i] < #[trigger] p[j]
            &&& forall|k: int|
                0 <= k < n && (#[trigger] data[k]).kind == DatumKind::Coord && data[k].vehicle
                    == Some(vehicle) && figure_of(field(data[k].body, "bias_m"@)) is Some
                    ==> p.contains(k)
        }),
    decreases n,
{
    if n > 0 {
        charts_hold_the_stated_biases(data, vehicle, (n - 1) as nat);
        let before = biased_places(data, vehicle, (n - 1) as nat);
        let p = biased_places(data, vehicle, n);
        assert forall|k: int|
            0 <= k < n && (#[trigger] data[k]).kind == DatumKind::Coord && data[k].vehicle == Some(
                vehicle,
            ) && figure_of(field(data[k].body, "bias_m"@)) is Some implies p.contains(k) by {
            if k < n - 1 {
                assert(before.contains(k));
                let i = choose|i: int| 0 <= i < before.len() && before[i] == k;
                assert(p[i] == k);
            } else {
                assert(biased(data[k], vehicle));
                assert(p.last() == k);
            }
        }
    }
}

/// A line of a chart keeps its height until the next point.
pub proof fn chart_lines_step(base: Seq<char>, s: Seq<(Seq<char>, Seq<char>)>, n: nat)
    ensures
        n == 0 ==> height_before(base, s, n) == base,
        0 < n <= s.len() ==> height_before(base, s, n) == s[n - 1].1,
{
}

/// The time axis of a chart is never empty, six series have six colors, and
/// a list is cut at its limit.
pub proof fn charts_have_an_axis_and_colors(t0: u64, t1: u64, i: nat, j: nat, limit: nat)
    ensures
        axis_end(t0, t1) > t0,
        t1 > t0 ==> axis_end(t0, t1) == t1,
        t1 <= t0 ==> axis_end(t0, t1) == t0 + 1,
        series_slot(i) == series_slot(i + 6),
        i < j < i + 6 ==> series_slot(i) != series_slot(j),
        at_most(i, limit) <= limit && at_most(i, limit) <= i,
        at_most(i, limit) == limit || at_most(i, limit) == i,
{
    reveal_strlit("--s1");
    reveal_strlit("--s2");
    reveal_strlit("--s3");
    reveal_strlit("--s4");
    reveal_strlit("--s5");
    reveal_strlit("--s6");
    assert("--s1"@[3] == '1' && "--s2"@[3] == '2' && "--s3"@[3] == '3' && "--s4"@[3] == '4'
        && "--s5"@[3] == '5' && "--s6"@[3] == '6');
}

/// A deck leads with the rate of cooperative avoidance where there is one, and
/// with the takeoffs otherwise.
pub proof fn decks_lead_with_cooperation(
    r: FigureView,
    coop: nat,
    unco: nat,
    airborne: nat,
    attempts: nat,
)
    ensures
        hero_of(Some(r), coop, unco, airborne, attempts).0 == r.whole + "%"@,
        hero_of(Some(r), coop, unco, airborne, attempts).1
            == "cooperative avoidance success ("@ + dec_text(coop) + "/"@ + dec_text(coop + unco)
            + " episodes)"@,
        hero_of(None, coop, unco, airborne, attempts).0 == dec_text(airborne) + "/"@ + dec_text(
            if attempts > 0 {
                attempts
            } else {
                1
            },
        ),
        hero_of(None, coop, unco, airborne, attempts).1 == "takeoffs completed"@,
{
}

proof fn lemma_text_place(s: Seq<Seq<char>>, t: Seq<char>, i: nat, k: int)
    requires
        i <= k < s.len(),
        s[k] == t,
        forall|j: int| i <= j < k ==> s[j] != t,
    ensures
        text_place(s, t, i) == k,
    decreases s.len() - i,
{
    if i < k {
        assert(s[i as int] != t);
        lemma_text_place(s, t, i + 1, k);
    }
}

proof fn lemma_text_nowhere(s: Seq<Seq<char>>, t: Seq<char>, i: nat)
    requires
        forall|j: int| i <= j < s.len() ==> s[j] != t,
    ensures
        text_place(s, t, i) >= s.len(),
    decreases s.len() - i,
{
    if i < s.len() {
        assert(s[i as int] != t);
        lemma_text_nowhere(s, t, i + 1);
    }
}

/// A replay numbers its vehicles by their place in the list, and an event of
/// no listed vehicle has minus one.
pub proof fn replays_number_their_vehicles(
    vehicles: Seq<Seq<char>>,
    v: Seq<char>,
    k: int,
)
    ensures
        vehicle_number(vehicles, None) == "-1"@,
        (forall|j: int| 0 <= j < vehicles.len() ==> vehicles[j] != v) ==> vehicle_number(
            vehicles,
            Some(v),
        ) == "-1"@,
        0 <= k < vehicles.len() && vehicles[k] == v && (forall|j: int|
            0 <= j < k ==> vehicles[j] != v) ==> vehicle_number(vehicles, Some(v)) == dec_text(
            k as nat,
        ),
{
    if forall|j: int| 0 <= j < vehicles.len() ==> vehicles[j] != v {
        lemma_text_nowhere(vehicles, v, 0);
    }
    if 0 <= k < vehicles.len() && vehicles[k] == v && (forall|j: int|
        0 <= j < k ==> vehicles[j] != v) {
        lemma_text_place(vehicles, v, 0, k);
    }
}

/// A replay lists what it shows, in order: the time, the vehicle's number and
/// the label of each event.
pub proof fn replays_list_their_events(
    data: Seq<DatumView>,
    times: Seq<Seq<char>>,
    vehicles: Seq<Seq<char>>,
    n: nat,
)
    requires
        0 < n <= data.len(),
    ensures
        ({
            let d = data[n - 1];
            let before = replay_events(data, times, vehicles, (n - 1) as nat);
            &&& replay_events(data, times, vehicles, 0).len() == 0
            &&& !replayed(d) ==> replay_events(data, times, vehicles, n) == before
            &&& replayed(d) ==> replay_events(data, times, vehicles, n) == before.push(
                "["@ + times[n - 1] + ","@ + vehicle_number(vehicles, d.vehicle) + ","@ + quoted(
                    d.label,
                ) + "]"@,
            )
        }),
{
}

} // verus!
