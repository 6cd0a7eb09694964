//! What becomes of the lines of a run: which datum a line is, which settings
//! it declares, and how lines are cut into Blocks and told apart.

use vstd::prelude::*;
use vstd::utf8::encode_utf8;

use crate::blocks::{all_hex, DatumKind};
use crate::chains::{
    batches_of, batches_upto, gathered_upto, key_refusal, plain_stem, role_of, sniff_line,
    sniff_upto, sniff_value, source_of, text_lines, ChainRole, Drain, ResolvedBlock, Round,
    SniffedFile, TimedLine,
};
use crate::dataset::{
    agreed, announced, config_record, declared, displayed, displayed_items,
    entry_leaves, first_leaf, journal_class, journal_datum, journal_fold, journal_step, last_leaf,
    leaves, line_value, lines_of, open_leaves, recorded_datum, recording_fold, setting_of, side_key,
    synthesized_upto, value_for, DatumView, Gathered, LeafView, RecordView,
};
use crate::json::{
    count_of, field, flag_of, json_of, key_place, lemma_key_place, printed, text_of, Json,
};
use crate::text::{dec_text, lemma_first_index, trimmed};

verus! {

// ---------------------------------------------------------------------------
// values
// ---------------------------------------------------------------------------

proof fn lemma_no_key(s: Seq<(String, Json)>, key: Seq<char>)
    requires
        forall|i: int| 0 <= i < s.len() ==> (#[trigger] s[i]).0@ != key,
    ensures
        key_place(s, key) >= s.len(),
{
    lemma_key_place(s, key, s.len() as int);
}

/// The field of an object is the value of the first entry with that key;
/// nothing else has fields.
pub proof fn fields_are_first_entries(j: Json, key: Seq<char>, k: int)
    ensures
        !(j is Object) ==> field(j, key) is None,
        j matches Json::Object(v) ==> {
            &&& (forall|i: int| 0 <= i < v@.len() ==> (#[trigger] v@[i]).0@ != key) ==> field(
                j,
                key,
            ) is None
            &&& 0 <= k < v@.len() && v@[k].0@ == key && (forall|i: int|
                0 <= i < k ==> (#[trigger] v@[i]).0@ != key) ==> field(j, key) == Some(v@[k].1)
        },
{
    match j {
        Json::Object(v) => {
            if forall|i: int| 0 <= i < v@.len() ==> (#[trigger] v@[i]).0@ != key {
                lemma_no_key(v@, key);
            }
            if 0 <= k < v@.len() && v@[k].0@ == key && (forall|i: int|
                0 <= i < k ==> (#[trigger] v@[i]).0@ != key) {
                lemma_key_place(v@, key, k);
            }
        },
        _ => {},
    }
}

/// A value is read as a text, a count or a flag only if it is one.
pub proof fn values_are_read_by_their_type(j: Json)
    ensures
        text_of(None) is None && count_of(None) is None && flag_of(None) is None,
        text_of(Some(j)) is Some <==> j is Text,
        j matches Json::Text(s) ==> text_of(Some(j)) == Some(s@),
        j matches Json::Number(_, count, _) ==> count_of(Some(j)) == count,
        !(j is Number) ==> count_of(Some(j)) is None,
        flag_of(Some(j)) is Some <==> j is Bool,
        j matches Json::Bool(b) ==> flag_of(Some(j)) == Some(b),
{
}

/// How a settings value is shown: a text without quotes, a list by its items
/// with commas between, anything else as JSON spells it.
pub proof fn settings_are_shown_plainly(j: Json, s: Seq<Json>)
    ensures
        setting_of(j).display == displayed(j),
        setting_of(j).json == printed(j),
        j matches Json::Text(t) ==> displayed(j) == t@,
        j matches Json::List(v) ==> displayed(j) == displayed_items(v@, v@.len()),
        !(j is Text) && !(j is List) ==> displayed(j) == printed(j),
        displayed_items(s, 0).len() == 0,
        s.len() > 0 ==> displayed_items(s, 1) == displayed(s[0]),
        s.len() > 1 ==> displayed_items(s, s.len()) == displayed_items(s, (s.len() - 1) as nat)
            + ","@ + displayed(s.last()),
{
}

/// Settings are flattened: an entry below a prefix has the key of the prefix,
/// a dot and its own; an object adds those of its entries; anything else is
/// one setting.
pub proof fn settings_are_flattened_to_dotted_keys(
    prefix: Seq<char>,
    j: Json,
    s: Seq<(String, Json)>,
    n: nat,
)
    requires
        0 < n <= s.len(),
    ensures
        !(j is Object) ==> leaves(prefix, j) == seq![(prefix, setting_of(j))],
        j matches Json::Object(v) ==> leaves(prefix, j) == entry_leaves(prefix, v@, v@.len()),
        entry_leaves(prefix, s, 0).len() == 0,
        entry_leaves(prefix, s, n) == entry_leaves(prefix, s, (n - 1) as nat) + leaves(
            if prefix.len() == 0 {
                s[n - 1].0@
            } else {
                prefix + "."@ + s[n - 1].0@
            },
            s[n - 1].1,
        ),
{
}

// ---------------------------------------------------------------------------
// lines
// ---------------------------------------------------------------------------

/// A payload is its lines with line feeds between, and no line holds one.
pub proof fn payloads_are_their_lines(s: Seq<u8>)
    ensures
        lines_of(s).len() > 0,
        joined(lines_of(s)) == s,
        forall|i: int, k: int|
            0 <= i < lines_of(s).len() && 0 <= k < lines_of(s)[i].len()
                ==> #[trigger] lines_of(s)[i][k] != 10,
    decreases s.len(),
{
    lemma_line_end(s);
    let k = crate::dataset::line_end(s);
    if k < s.len() {
        let head = s.take(k);
        let rest = s.skip(k + 1);
        payloads_are_their_lines(rest);
        let all = lines_of(s);
        assert(all == seq![head] + lines_of(rest));
        assert(all.skip(1) =~= lines_of(rest));
        assert(all[0] == head);
        assert(joined(all) == head + seq![10u8] + joined(lines_of(rest)));
        assert(head + seq![10u8] + rest =~= s);
        assert forall|i: int, k: int|
            0 <= i < all.len() && 0 <= k < all[i].len() implies #[trigger] all[i][k] != 10 by {
            if i > 0 {
                assert(all[i] == lines_of(rest)[i - 1]);
            }
        }
    } else {
        assert(lines_of(s) =~= seq![s]);
    }
}

/// Lines with a line feed between each two.
pub open spec fn joined(lines: Seq<Seq<u8>>) -> Seq<u8>
    decreases lines.len(),
{
    if lines.len() == 0 {
        Seq::empty()
    } else if lines.len() == 1 {
        lines[0]
    } else {
        lines[0] + seq![10u8] + joined(lines.skip(1))
    }
}

proof fn lemma_line_end(s: Seq<u8>)
    ensures
        0 <= crate::dataset::line_end(s) <= s.len(),
        crate::dataset::line_end(s) < s.len() ==> s[crate::dataset::line_end(s)] == 10,
        forall|i: int| 0 <= i < crate::dataset::line_end(s) ==> s[i] != 10,
    decreases s.len(),
{
    if s.len() > 0 && s[0] != 10 {
        let t = s.skip(1);
        lemma_line_end(t);
        assert forall|i: int| 0 <= i < crate::dataset::line_end(s) implies s[i] != 10 by {
            if i > 0 {
                assert(s[i] == t[i - 1]);
            }
        }
        if crate::dataset::line_end(s) < s.len() {
            assert(s[crate::dataset::line_end(s)] == t[crate::dataset::line_end(s) - 1]);
        }
    }
}

/// A line of white space has no value; any other has the one it spells.
pub proof fn blank_lines_have_no_value(line: Seq<u8>)
    ensures
        ({
            let empty = forall|i: int|
                0 <= i < line.len() ==> (#[trigger] line[i] == 32 || 9 <= line[i] <= 10 || 12
                    <= line[i] <= 13);
            &&& empty ==> line_value(line) is None
            &&& !empty ==> line_value(line) == json_of(line)
        }),
{
    if forall|i: int|
        0 <= i < line.len() ==> (#[trigger] line[i] == 32 || 9 <= line[i] <= 10 || 12 <= line[i]
            <= 13) {
        assert(crate::dataset::blank(line));
    }
}

// ---------------------------------------------------------------------------
// journals
// ---------------------------------------------------------------------------

/// A journal event is classed by the family that its kind begins with, and a
/// kind of no family is an event.
pub proof fn journal_events_are_classed_by_family(kind: Seq<char>)
    ensures
        "coord."@.is_prefix_of(kind) ==> journal_class(kind) == DatumKind::Coord,
        "service."@.is_prefix_of(kind) ==> journal_class(kind) == DatumKind::Service,
        "flight."@.is_prefix_of(kind) ==> journal_class(kind) == DatumKind::Service,
        "rtl."@.is_prefix_of(kind) ==> journal_class(kind) == DatumKind::Rtl,
        "spark."@.is_prefix_of(kind) ==> journal_class(kind) == DatumKind::Link,
        "link."@.is_prefix_of(kind) ==> journal_class(kind) == DatumKind::Link,
        !"coord."@.is_prefix_of(kind) && !"service."@.is_prefix_of(kind) && !"flight."@.is_prefix_of(
            kind,
        ) && !"rtl."@.is_prefix_of(kind) && !"spark."@.is_prefix_of(kind) && !"link."@.is_prefix_of(
            kind,
        ) ==> journal_class(kind) == DatumKind::Event,
{
    reveal_strlit("coord.");
    reveal_strlit("service.");
    reveal_strlit("flight.");
    reveal_strlit("rtl.");
    reveal_strlit("spark.");
    reveal_strlit("link.");
    lemma_prefix_taken("coord."@, kind);
    lemma_prefix_taken("service."@, kind);
    lemma_prefix_taken("flight."@, kind);
    lemma_prefix_taken("rtl."@, kind);
    lemma_prefix_taken("spark."@, kind);
    lemma_prefix_taken("link."@, kind);
    if kind.len() > 1 {
        assert("service."@.is_prefix_of(kind) ==> kind[0] == 's' && kind[1] == 'e');
        assert("spark."@.is_prefix_of(kind) ==> kind[0] == 's' && kind[1] == 'p');
    }
}

proof fn lemma_prefix_taken(p: Seq<char>, s: Seq<char>)
    ensures
        p.is_prefix_of(s) <==> crate::dataset::has_prefix(s, p),
        p.is_prefix_of(s) && p.len() > 0 ==> s.len() >= p.len() && s[0] == p[0],
        p.is_prefix_of(s) && p.len() > 1 ==> s[1] == p[1],
{
    if p.len() <= s.len() {
        assert(s.take(p.len() as int) =~= s.subrange(0, p.len() as int));
        if p.is_prefix_of(s) {
            assert(s.subrange(0, p.len() as int) =~= p);
            if p.len() > 0 {
                assert(s[0] == s.subrange(0, p.len() as int)[0]);
            }
            if p.len() > 1 {
                assert(s[1] == s.subrange(0, p.len() as int)[1]);
            }
        }
    }
}

/// What a journal line says of itself: its time, its vehicle and its kind are
/// those of its fields, the line is kept whole, and it came from its Block.
pub proof fn journal_lines_become_data(block: int, line: Json)
    ensures
        ({
            let d = journal_datum(block, line);
            let kind = text_of(field(line, "kind"@));
            let time = count_of(field(line, "ts_ns"@));
            &&& d.block == block && d.body == line
            &&& d.vehicle == text_of(field(line, "vehicle_id"@))
            &&& time matches Some(t) ==> d.t_ns == t
            &&& time is None ==> d.t_ns == 0
            &&& kind matches Some(k) ==> d.label == k && d.kind == journal_class(k)
            &&& kind is None ==> d.label.len() == 0
        }),
{
}

/// What one journal line adds: a datum if it has a value, a configuration
/// record exactly if it is a `run.config` line, and the run id if none was
/// known: the line's own, or that of the configuration it carries.
pub proof fn journals_gather_line_by_line(g: Gathered, block: int, line: Seq<u8>)
    ensures
        ({
            let h = journal_step(g, block, line);
            &&& line_value(line) is None ==> h == g
            &&& line_value(line) matches Some(v) ==> {
                let config = text_of(field(v, "kind"@)) == Some("run.config"@);
                let own = text_of(field(v, "run_id"@));
                let carried = field(v, "config"@);
                &&& h.data == g.data.push(journal_datum(block, v))
                &&& !config ==> h.records == g.records
                &&& config ==> h.records == g.records.push(config_record(v))
                &&& config_record(v).vehicle == (if text_of(field(v, "vehicle_id"@)) is Some {
                    text_of(field(v, "vehicle_id"@))->0
                } else {
                    "?"@
                })
                &&& g.run_id is Some ==> h.run_id == g.run_id
                &&& g.run_id is None && own is Some ==> h.run_id == own
                &&& g.run_id is None && own is None && !config ==> h.run_id is None
                &&& g.run_id is None && own is None && config && carried is Some ==> h.run_id
                    == text_of(field(carried->0, "run_id"@))
                &&& g.run_id is None && own is None && carried is None ==> h.run_id is None
            }
        }),
{
}

/// A journal is gathered line by line, in order, and a recording too: each
/// line adds to what the ones before it gave.
pub proof fn lines_add_up_in_order(
    g: Gathered,
    data: Seq<DatumView>,
    block: int,
    lines: Seq<Seq<u8>>,
    n: nat,
)
    requires
        0 < n <= lines.len(),
    ensures
        journal_fold(g, block, lines, 0) == g,
        journal_fold(g, block, lines, n) == journal_step(
            journal_fold(g, block, lines, (n - 1) as nat),
            block,
            lines[n - 1],
        ),
        recording_fold(data, block, lines, 0) == data,
        line_value(lines[n - 1]) is None ==> recording_fold(data, block, lines, n)
            == recording_fold(data, block, lines, (n - 1) as nat),
        line_value(lines[n - 1]) matches Some(v) ==> recording_fold(data, block, lines, n)
            == recording_fold(data, block, lines, (n - 1) as nat).push(recorded_datum(block, v)),
{
}

/// What a recorded event is: its class and its label go by its type, its time
/// is that of the line, and its vehicle is known for the types that name one.
pub proof fn recorded_events_become_data(block: int, line: Json, event: Json)
    requires
        field(line, "event"@) == Some(event),
    ensures
        ({
            let d = recorded_datum(block, line);
            let ty = text_of(field(event, "type"@));
            let time = count_of(field(line, "t_ns"@));
            let link = ty == Some("video_stats"@) || ty == Some("telemetry_stale"@);
            let told = ty == Some("event"@);
            let known = link || told || ty == Some("telemetry"@) || ty == Some("coord"@);
            &&& d.block == block && d.body == event
            &&& time matches Some(t) ==> d.t_ns == t
            &&& time is None ==> d.t_ns == 0
            &&& d.kind == DatumKind::Telemetry <==> ty == Some("telemetry"@)
            &&& d.kind == DatumKind::Coord <==> ty == Some("coord"@)
            &&& d.kind == DatumKind::Link <==> link
            &&& d.kind == DatumKind::Event <==> !link && ty != Some("telemetry"@) && ty != Some(
                "coord"@,
            )
            &&& known ==> d.vehicle == text_of(field(event, "vehicle"@))
            &&& !known ==> d.vehicle is None
            &&& told && text_of(field(event, "kind"@)) is Some ==> Some(d.label) == text_of(
                field(event, "kind"@),
            )
            &&& told && text_of(field(event, "kind"@)) is None ==> d.label == "event"@
            &&& !told && ty is Some ==> Some(d.label) == ty
            &&& ty is None ==> d.label.len() == 0
        }),
{
    reveal_strlit("telemetry");
    reveal_strlit("coord");
    reveal_strlit("video_stats");
    reveal_strlit("telemetry_stale");
    reveal_strlit("event");
    let a = "telemetry"@;
    let b = "coord"@;
    let c = "video_stats"@;
    let d = "telemetry_stale"@;
    let e = "event"@;
    assert(a.len() == 9 && b.len() == 5 && c.len() == 11 && d.len() == 15 && e.len() == 5);
    assert(b[0] != e[0]);
}

// ---------------------------------------------------------------------------
// settings
// ---------------------------------------------------------------------------

/// Of several values of a key the last, or the first, is the one at the last,
/// or the first, place that has the key.
pub proof fn leaves_are_found_from_either_end(s: Seq<LeafView>, key: Seq<char>, k: int)
    ensures
        (forall|i: int| 0 <= i < s.len() ==> (#[trigger] s[i]).0 != key) ==> last_leaf(s, key)
            is None && first_leaf(s, key) is None,
        0 <= k < s.len() && s[k].0 == key && (forall|i: int|
            k < i < s.len() ==> (#[trigger] s[i]).0 != key) ==> last_leaf(s, key) == Some(s[k].1),
        0 <= k < s.len() && s[k].0 == key && (forall|i: int|
            0 <= i < k ==> (#[trigger] s[i]).0 != key) ==> first_leaf(s, key) == Some(s[k].1),
    decreases s.len(),
{
    if s.len() > 0 {
        let t = s.drop_last();
        leaves_are_found_from_either_end(t, key, k);
        assert forall|i: int| 0 <= i < t.len() implies #[trigger] t[i] == s[i] by {}
        assert(s.last() == s[s.len() - 1]);
        if forall|i: int| 0 <= i < s.len() ==> (#[trigger] s[i]).0 != key {
            assert forall|i: int| 0 <= i < t.len() implies (#[trigger] t[i]).0 != key by {
                assert(t[i] == s[i]);
            }
        }
        if 0 <= k < t.len() && s[k].0 == key && (forall|i: int|
            k < i < s.len() ==> (#[trigger] s[i]).0 != key) {
            assert forall|i: int| k < i < t.len() implies (#[trigger] t[i]).0 != key by {
                assert(t[i] == s[i]);
            }
        }
        if 0 <= k < t.len() && s[k].0 == key && (forall|i: int|
            0 <= i < k ==> (#[trigger] s[i]).0 != key) {
            assert forall|i: int| 0 <= i < k implies (#[trigger] t[i]).0 != key by {
                assert(t[i] == s[i]);
            }
        }
        if k == s.len() - 1 && s[k].0 == key && (forall|i: int|
            0 <= i < k ==> (#[trigger] s[i]).0 != key) {
            assert forall|i: int| 0 <= i < t.len() implies (#[trigger] t[i]).0 != key by {
                assert(t[i] == s[i]);
            }
            lemma_no_first(t, key);
        }
    }
}

proof fn lemma_no_first(s: Seq<LeafView>, key: Seq<char>)
    requires
        forall|i: int| 0 <= i < s.len() ==> (#[trigger] s[i]).0 != key,
    ensures
        first_leaf(s, key) is None,
    decreases s.len(),
{
    if s.len() > 0 {
        let t = s.drop_last();
        assert forall|i: int| 0 <= i < t.len() implies (#[trigger] t[i]).0 != key by {
            assert(t[i] == s[i]);
        }
        lemma_no_first(t, key);
        assert(s.last() == s[s.len() - 1]);
    }
}

/// A later record of a vehicle overrides an earlier one where it declares a
/// key, and leaves the rest; records of other vehicles do not count.
pub proof fn later_records_override(
    records: Seq<RecordView>,
    r: RecordView,
    vehicle: Seq<char>,
    key: Seq<char>,
)
    ensures
        value_for(Seq::empty(), vehicle, key) is None,
        r.vehicle == vehicle && last_leaf(r.leaves, key) is Some ==> value_for(
            records.push(r),
            vehicle,
            key,
        ) == last_leaf(r.leaves, key),
        r.vehicle != vehicle || last_leaf(r.leaves, key) is None ==> value_for(
            records.push(r),
            vehicle,
            key,
        ) == value_for(records, vehicle, key),
{
    let all = records.push(r);
    assert(all.drop_last() =~= records);
    assert(all.last() == r);
}

/// Vehicles agree on a key exactly if each of them declares it and any two
/// with the same value.
pub proof fn vehicles_agree_when_all_declare_the_same(
    records: Seq<RecordView>,
    vehicles: Seq<Seq<char>>,
    key: Seq<char>,
)
    ensures
        agreed(records, vehicles, key) <==> {
            &&& forall|i: int|
                0 <= i < vehicles.len() ==> value_for(records, #[trigger] vehicles[i], key) is Some
            &&& forall|i: int, j: int|
                0 <= i < vehicles.len() && 0 <= j < vehicles.len() ==> value_for(
                    records,
                    #[trigger] vehicles[i],
                    key,
                )->0.json == value_for(records, #[trigger] vehicles[j], key)->0.json
        },
        vehicles.len() > 0 ==> side_key(key, vehicles[0]) == key + "@"@ + vehicles[0],
{
    if agreed(records, vehicles, key) {
        assert forall|i: int, j: int|
            0 <= i < vehicles.len() && 0 <= j < vehicles.len() implies value_for(
            records,
            #[trigger] vehicles[i],
            key,
        )->0.json == value_for(records, #[trigger] vehicles[j], key)->0.json by {
            assert(value_for(records, vehicles[i], key) is Some);
            assert(value_for(records, vehicles[j], key) is Some);
        }
    }
    if (forall|i: int|
        0 <= i < vehicles.len() ==> value_for(records, #[trigger] vehicles[i], key) is Some) && (
    forall|i: int, j: int|
        0 <= i < vehicles.len() && 0 <= j < vehicles.len() ==> value_for(
            records,
            #[trigger] vehicles[i],
            key,
        )->0.json == value_for(records, #[trigger] vehicles[j], key)->0.json) {
        assert forall|i: int| 0 <= i < vehicles.len() implies match value_for(
            records,
            #[trigger] vehicles[i],
            key,
        ) {
            Some(v) => value_for(records, vehicles[0], key) is Some && v.json == value_for(
                records,
                vehicles[0],
                key,
            )->0.json,
            None => false,
        } by {
            assert(value_for(records, vehicles[i], key) is Some);
            assert(value_for(records, vehicles[0], key) is Some);
        }
    }
}

/// A configuration line declares what its `config` object holds, or, without
/// one, what the line holds besides its envelope; the run id is no setting.
pub proof fn configurations_are_declared_inside_or_beside_the_envelope(
    line: Json,
    s: Seq<(String, Json)>,
    n: nat,
)
    requires
        0 < n <= s.len(),
    ensures
        field(line, "config"@) matches Some(c) && c is Object ==> declared(line) == leaves(
            Seq::empty(),
            field(line, "config"@)->0,
        ),
        !(field(line, "config"@) matches Some(c) && c is Object) ==> {
            &&& line matches Json::Object(v) ==> declared(line) == open_leaves(v@, v@.len())
            &&& !(line is Object) ==> declared(line).len() == 0
        },
        ({
            let key = s[n - 1].0@;
            let framed = key == "kind"@ || key == "ts_ns"@ || key == "vehicle_id"@ || key
                == "run_id"@;
            open_leaves(s, n) == open_leaves(s, (n - 1) as nat) + (if framed {
                Seq::empty()
            } else {
                leaves(key, s[n - 1].1)
            })
        }),
        forall|i: int|
            0 <= i < config_record(line).leaves.len() ==> (#[trigger] config_record(
                line,
            ).leaves[i]).0 != "run_id"@,
        forall|l: LeafView|
            l.0 != "run_id"@ && #[trigger] declared(line).contains(l) ==> config_record(
                line,
            ).leaves.contains(l),
{
    broadcast use vstd::seq_lib::group_filter_ensures;

    let keep = |l: LeafView| l.0 != "run_id"@;
    let d = declared(line);
    assert(config_record(line).leaves == d.filter(keep));
    assert forall|l: LeafView| l.0 != "run_id"@ && #[trigger] d.contains(l) implies d.filter(
        keep,
    ).contains(l) by {
        let i = choose|i: int| 0 <= i < d.len() && d[i] == l;
        assert(keep(d[i]));
    }
    assert forall|i: int| 0 <= i < d.filter(keep).len() implies (#[trigger] d.filter(keep)[i]).0
        != "run_id"@ by {
        assert(keep(d.filter(keep)[i]));
    }
    let key = s[n - 1].0@;
    if key == "kind"@ || key == "ts_ns"@ || key == "vehicle_id"@ || key == "run_id"@ {
        assert(open_leaves(s, n) =~= open_leaves(s, (n - 1) as nat) + Seq::<LeafView>::empty());
    }
}

/// Without a configuration record, the settings are what `agent.up` events
/// announce and nothing else: the fleet with its size, the carrier and the
/// source.
pub proof fn settings_are_announced_by_agents(data: Seq<DatumView>, n: nat, body: Json)
    requires
        0 < n <= data.len(),
    ensures
        synthesized_upto(data, 0).len() == 0,
        data[n - 1].label != "agent.up"@ ==> synthesized_upto(data, n) == synthesized_upto(
            data,
            (n - 1) as nat,
        ),
        data[n - 1].label == "agent.up"@ ==> synthesized_upto(data, n) == synthesized_upto(
            data,
            (n - 1) as nat,
        ) + announced(data[n - 1].body),
        first_leaf(announced(body), "fleet_ids"@) == (match field(body, "fleet_ids"@) {
            Some(v) => Some(setting_of(v)),
            None => None,
        }),
        first_leaf(announced(body), "carrier"@) == (match field(body, "carrier"@) {
            Some(v) => Some(setting_of(v)),
            None => None,
        }),
        first_leaf(announced(body), "endpoint.source"@) == (match field(body, "source"@) {
            Some(v) => Some(setting_of(v)),
            None => None,
        }),
        first_leaf(announced(body), "fleet_size"@) == (match field(body, "fleet_ids"@) {
            Some(Json::List(v)) => Some(
                crate::dataset::SettingView {
                    display: dec_text(v@.len()),
                    json: dec_text(v@.len()),
                },
            ),
            _ => None,
        }),
{
    reveal_strlit("fleet_ids");
    reveal_strlit("fleet_size");
    reveal_strlit("carrier");
    reveal_strlit("endpoint.source");
    assert("fleet_ids"@.len() == 9 && "fleet_size"@.len() == 10 && "carrier"@.len() == 7
        && "endpoint.source"@.len() == 15);
    reveal_with_fuel(first_leaf, 6);
    let a = announced(body);
    if a.len() > 0 {
        let b = a.drop_last();
        if b.len() > 0 {
            let c = b.drop_last();
            if c.len() > 0 {
                let d = c.drop_last();
                assert(d.len() <= 1);
            }
        }
    }
}

// ---------------------------------------------------------------------------
// chains
// ---------------------------------------------------------------------------

/// A configured chain has the role it names, and no other text names one.
pub proof fn roles_are_named_by_two_texts(s: Seq<char>)
    ensures
        role_of(s) == Some(ChainRole::VehicleJournal) <==> s == "vehicle-journal"@,
        role_of(s) == Some(ChainRole::DashboardRecording) <==> s == "dashboard-recording"@,
        role_of(s) is None <==> s != "vehicle-journal"@ && s != "dashboard-recording"@,
{
    reveal_strlit("vehicle-journal");
    reveal_strlit("dashboard-recording");
    assert("vehicle-journal"@.len() != "dashboard-recording"@.len());
}

/// A key is taken exactly if, without the white space around it, it is
/// sixty-four hex digits.
pub proof fn keys_are_sixty_four_hex_digits(s: Seq<char>)
    ensures
        key_refusal(s) is None <==> encode_utf8(trimmed(s)).len() == 64 && all_hex(
            encode_utf8(trimmed(s)),
        ),
        encode_utf8(trimmed(s)).len() == 64 && key_refusal(s) is Some ==> key_refusal(s) == Some(
            "bad hex digit"@,
        ),
{
}

/// How lines are cut into Blocks: a line joins the open one if it falls in the
/// same two seconds as the line before it, and begins a new one otherwise.
pub proof fn lines_of_two_seconds_share_a_block(s: Seq<TimedLine>, l: TimedLine)
    ensures
        batches_of(Seq::<TimedLine>::empty()).len() == 0,
        ({
            let old = batches_of(s);
            let new = batches_of(s.push(l));
            let joins = s.len() > 0 && s.last().0 / 2_000_000_000 == l.0 / 2_000_000_000;
            &&& joins ==> old.len() > 0 && new == old.drop_last().push(old.last() + (l.1 + "\n"@))
            &&& !joins ==> new == old.push(l.1 + "\n"@)
        }),
{
    let t = s.push(l);
    lemma_batches_prefix(s, l, s.len());
    let b = batches_upto(s, s.len());
    if s.len() > 0 {
        assert(t[s.len() - 1] == s.last());
        assert(batches_of(s).drop_last() =~= b.0);
    } else {
        assert(Seq::<char>::empty() + (l.1 + "\n"@) =~= l.1 + "\n"@);
    }
}

proof fn lemma_batches_prefix(s: Seq<TimedLine>, l: TimedLine, n: nat)
    requires
        n <= s.len(),
    ensures
        batches_upto(s.push(l), n) == batches_upto(s, n),
    decreases n,
{
    if n > 0 {
        lemma_batches_prefix(s, l, (n - 1) as nat);
        assert(s.push(l)[n - 1] == s[n - 1]);
        if n > 1 {
            assert(s.push(l)[n - 2] == s[n - 2]);
        }
    }
}

/// The lines of a text: a line feed ends a line, with a carriage return right
/// before it, and what follows the last one is a line only if it is not empty.
pub proof fn texts_fall_into_their_lines(line: Seq<char>, rest: Seq<char>)
    requires
        !line.contains('\n'),
    ensures
        text_lines(Seq::<char>::empty()).len() == 0,
        line.len() > 0 ==> text_lines(line) == seq![line],
        text_lines(line + seq!['\n'] + rest) == seq![
            if line.len() > 0 && line.last() == '\r' {
                line.drop_last()
            } else {
                line
            },
        ] + text_lines(rest),
{
    lemma_first_index(line, '\n');
    let t = line + seq!['\n'] + rest;
    assert(t[line.len() as int] == '\n');
    lemma_first_index(t, '\n');
    let k = crate::text::first_index(t, '\n');
    assert(t.contains('\n'));
    if k < line.len() {
        assert(line[k] == t[k]);
        assert(line.contains('\n'));
    }
    assert(k == line.len());
    assert(t.take(k) =~= line);
    assert(t.skip(k + 1) =~= rest);
}

/// A line with `ts_ns` and `kind` is a journal's, one with `t_ns` and `event` a
/// recording's, and any other is neither.
pub proof fn lines_tell_their_file(v: Json)
    ensures
        ({
            let journal = field(v, "ts_ns"@) is Some && field(v, "kind"@) is Some;
            let recording = field(v, "t_ns"@) is Some && field(v, "event"@) is Some;
            let time = if journal {
                count_of(field(v, "ts_ns"@))
            } else {
                count_of(field(v, "t_ns"@))
            };
            &&& sniff_value(v) is Some <==> journal || recording
            &&& sniff_value(v) matches Some(l) ==> {
                &&& l.role == (if journal {
                    ChainRole::VehicleJournal
                } else {
                    ChainRole::DashboardRecording
                })
                &&& time matches Some(t) ==> l.t_ns == t
                &&& time is None ==> l.t_ns == 0
                &&& journal ==> l.vehicle == text_of(field(v, "vehicle_id"@))
                &&& !journal ==> l.vehicle is None
            }
        }),
{
}

/// A file takes the role of its first telling line and the first vehicle that
/// one names; every telling line is kept as it stands, and no other is.
pub proof fn files_are_told_by_their_first_line(lines: Seq<Seq<char>>, n: nat)
    requires
        0 < n <= lines.len(),
    ensures
        ({
            let old = sniff_upto(lines, (n - 1) as nat);
            let new = sniff_upto(lines, n);
            let line = lines[n - 1];
            &&& sniff_upto(lines, 0) == (SniffedFile {
                role: None,
                vehicle: None,
                lines: Seq::empty(),
            })
            &&& sniff_line(line) is None ==> new == old
            &&& sniff_line(line) matches Some(l) ==> {
                &&& old.role is Some ==> new.role == old.role
                &&& old.role is None ==> new.role == Some(l.role)
                &&& old.vehicle is Some ==> new.vehicle == old.vehicle
                &&& old.vehicle is None ==> new.vehicle == l.vehicle
                &&& new.lines == old.lines.push((l.t_ns, line))
            }
            &&& trimmed(line).len() == 0 ==> sniff_line(line) is None
            &&& trimmed(line).len() > 0 ==> match json_of(encode_utf8(line)) {
                Some(v) => sniff_line(line) == sniff_value(v),
                None => sniff_line(line) is None,
            }
        }),
{
}

/// A device name keeps letters, digits and hyphens of a file's stem and has a
/// hyphen for each other character.
pub proof fn stems_are_made_plain(s: Seq<char>, i: int)
    requires
        0 <= i < s.len(),
    ensures
        plain_stem(s).len() == s.len(),
        ({
            let c = s[i];
            let plain = ('a' <= c && c <= 'z') || ('A' <= c && c <= 'Z') || ('0' <= c && c <= '9')
                || c == '-';
            plain_stem(s)[i] == if plain {
                c
            } else {
                '-'
            }
        }),
{
}

/// Where a source file is published: a journal on the chain of the vehicle it
/// names, or of its file name; a recording on the ground station's, under its
/// file name. A file without a telling line is none.
pub proof fn sources_go_to_their_chains(text: Seq<char>, stem: Option<Seq<char>>)
    ensures
        ({
            let f = sniff_upto(text_lines(text), text_lines(text).len());
            let name = plain_stem(
                if stem is Some {
                    stem->0
                } else {
                    "source"@
                },
            );
            let r = source_of(text, stem);
            &&& r is None <==> f.role is None
            &&& r matches Some(src) ==> Some(src.role) == f.role && src.lines == f.lines
            &&& f.role == Some(ChainRole::VehicleJournal) ==> {
                &&& r->0.device == "companion"@ && r->0.app == "journal"@
                &&& r->0.principal == "/muas/v3"@ + "/"@ + (if f.vehicle is Some {
                    f.vehicle->0
                } else {
                    name
                })
            }
            &&& f.role == Some(ChainRole::DashboardRecording) ==> {
                &&& r->0.device == name && r->0.app == "recording"@
                &&& r->0.principal == "/muas/v3/gcs"@
            }
        }),
{
}

/// When a chain counts as caught up: after enough silent rounds in a row once
/// something came, or when no rounds are left. An update ends the silence.
pub proof fn chains_are_caught_up_after_silence(d: Drain, n: usize, max_rounds: usize, quiet: usize)
    requires
        d.rounds < usize::MAX,
        d.silent < usize::MAX,
        d.fetched + n <= usize::MAX,
    ensures
        d.after(Round::Update(n)).silent == 0,
        d.after(Round::Update(n)).fetched == d.fetched + n,
        d.after(Round::Update(n)).rounds == d.rounds + 1,
        d.after(Round::Silence).silent == d.silent + 1,
        d.after(Round::Silence).fetched == d.fetched,
        d.after(Round::Silence).rounds == d.rounds + 1,
        d.rounds >= max_rounds ==> d.done(max_rounds, quiet),
        d.rounds < max_rounds && d.fetched == 0 ==> !d.done(max_rounds, quiet),
        d.rounds < max_rounds && d.silent == 0 ==> !d.done(max_rounds, quiet),
        d.rounds < max_rounds && d.silent < quiet ==> !d.done(max_rounds, quiet),
        d.fetched > 0 && d.silent > 0 && d.silent >= quiet ==> d.done(max_rounds, quiet),
{
}

/// Blocks are gathered in order, each as its chain's role says, and under the
/// number of its place; one without a payload adds nothing.
pub proof fn blocks_gather_by_their_role(s: Seq<ResolvedBlock>, n: nat)
    requires
        0 < n <= s.len(),
    ensures
        ({
            let old = gathered_upto(s, (n - 1) as nat);
            let new = gathered_upto(s, n);
            &&& s[n - 1].payload is None ==> new == old
            &&& s[n - 1].payload matches Some(p) ==> {
                let lines = lines_of(p@);
                &&& s[n - 1].role == ChainRole::VehicleJournal ==> new == journal_fold(
                    old,
                    n - 1,
                    lines,
                    lines.len(),
                )
                &&& s[n - 1].role == ChainRole::DashboardRecording ==> {
                    &&& new.data == recording_fold(old.data, n - 1, lines, lines.len())
                    &&& new.run_id == old.run_id && new.records == old.records
                }
            }
        }),
{
}

} // verus!
