//! The mission dataset that every artifact reads.
//!
//! A [`MissionDataset`] belongs to one run: the run's configuration (its
//! inputs) and every datum decoded from the run's Blocks (its outcomes). Each
//! datum carries the index of the Block it came from, and each Block its
//! content hash, chain root and chain position: that is its provenance.

use vstd::prelude::*;
use vstd::utf8::encode_utf8;

use crate::blocks::{
    citation_order, citation_views, hex, hex_text, lemma_citation_order, place_citation, sorted_citations,
    BlockRef, Citation, CitationView, DatumKind,
};
use crate::journal_laws::{
    come_back, journal_text, journaled, journaled_lines_are_read_back,
    journals_fall_into_their_lines, lemma_objects_are_not_blank, line_bytes,
};
use crate::json::{
    count_of, field, json_of, parse_json, printed, text_of, Json,
};
use crate::sorting::{distinct_items_rise, lemma_insert_at, sorted_by, sorting_orders};
use crate::spelling::reads_back;
use crate::text::{cat, dec, dec_text, same, starts_with, views};
use crate::text_map::{sort_texts, sorted_texts, TextMap};

verus! {

/// The human form of a settings value: texts without quotes, lists by their
/// items with commas between them, other values as JSON spells them.
pub open spec fn displayed(j: Json) -> Seq<char>
    decreases j, 0nat,
{
    match j {
        Json::Text(s) => s@,
        Json::List(v) => displayed_items(v@, v@.len()),
        _ => printed(j),
    }
}

/// The human form of the first `n` items.
pub open spec fn displayed_items(s: Seq<Json>, n: nat) -> Seq<char>
    decreases s, n,
{
    if n == 0 || n > s.len() {
        Seq::empty()
    } else if n == 1 {
        displayed(s[0])
    } else {
        displayed_items(s, (n - 1) as nat) + ","@ + displayed(s[n - 1])
    }
}

/// Compact human form of a JSON settings value.
pub fn display_value(v: &Json) -> (r: String)
    ensures
        r@ == displayed(*v),
    decreases v,
{
    match v {
        Json::Text(s) => s.clone(),
        Json::List(items) => {
            let mut out = String::new();
            let mut i: usize = 0;
            while i < items.len()
                invariant
                    i <= items@.len(),
                    *v == Json::List(*items),
                    out@ == displayed_items(items@, i as nat),
                decreases items@.len() - i,
            {
                if i > 0 {
                    out.append(",");
                }
                assert(decreases_to!(*v => v->List_0));
                assert(decreases_to!(items => items@));
                assert(decreases_to!(items@ => items@[i as int]));
                out.append(display_value(&items[i]).as_str());
                proof {
                    if i == 0 {
                        assert(out@ =~= displayed(items@[0]));
                    }
                }
                i = i + 1;
            }
            out
        },
        _ => v.print(),
    }
}

/// A settings value, by how it is shown and how JSON spells it.
#[derive(Debug)]
pub struct Setting {
    pub display: String,
    pub json: String,
}

/// A settings value by its texts.
#[verifier::ext_equal]
pub struct SettingView {
    pub display: Seq<char>,
    pub json: Seq<char>,
}

impl View for Setting {
    type V = SettingView;

    open spec fn view(&self) -> SettingView {
        SettingView { display: self.display@, json: self.json@ }
    }
}

impl Clone for Setting {
    fn clone(&self) -> (r: Self)
        ensures
            r == *self,
    {
        Setting { display: self.display.clone(), json: self.json.clone() }
    }
}

/// The settings value of a JSON value.
pub open spec fn setting_of(j: Json) -> SettingView {
    SettingView { display: displayed(j), json: printed(j) }
}

fn setting(j: &Json) -> (r: Setting)
    ensures
        r@ == setting_of(*j),
{
    Setting { display: display_value(j), json: j.print() }
}

/// A dotted key with its value.
pub type Leaf = (String, Setting);

/// A dotted key with its value, by their texts.
pub type LeafView = (Seq<char>, SettingView);

/// Leaves by their views.
pub open spec fn leaf_views(v: Seq<Leaf>) -> Seq<LeafView> {
    v.map_values(|l: Leaf| (l.0@, l.1@))
}

/// The key of a field below a prefix.
pub open spec fn dotted(prefix: Seq<char>, key: Seq<char>) -> Seq<char> {
    if prefix.len() == 0 {
        key
    } else {
        prefix + "."@ + key
    }
}

/// The leaves of a value below a prefix: an object is flattened field by
/// field, everything else is a leaf.
pub open spec fn leaves(prefix: Seq<char>, j: Json) -> Seq<LeafView>
    decreases j, 0nat,
{
    match j {
        Json::Object(v) => entry_leaves(prefix, v@, v@.len()),
        _ => seq![(prefix, setting_of(j))],
    }
}

/// The leaves of the first `n` entries of an object.
pub open spec fn entry_leaves(prefix: Seq<char>, s: Seq<(String, Json)>, n: nat) -> Seq<LeafView>
    decreases s, n,
{
    if n == 0 || n > s.len() {
        Seq::empty()
    } else {
        entry_leaves(prefix, s, (n - 1) as nat) + leaves(dotted(prefix, s[n - 1].0@), s[n - 1].1)
    }
}

fn push_leaf(out: &mut Vec<Leaf>, key: String, value: Setting)
    ensures
        leaf_views(final(out)@) == leaf_views(old(out)@).push((key@, value@)),
{
    let ghost before = out@;
    out.push((key, value));
    assert(leaf_views(out@) =~= leaf_views(before).push((key@, value@)));
}

fn flatten(prefix: &str, value: &Json, out: &mut Vec<Leaf>)
    ensures
        leaf_views(final(out)@) == leaf_views(old(out)@) + leaves(prefix@, *value),
    decreases value,
{
    match value {
        Json::Object(v) => {
            let ghost before = leaf_views(out@);
            let mut i: usize = 0;
            assert(before + entry_leaves(prefix@, v@, 0) =~= before);
            while i < v.len()
                invariant
                    i <= v@.len(),
                    *value == Json::Object(*v),
                    leaf_views(out@) == before + entry_leaves(prefix@, v@, i as nat),
                decreases v@.len() - i,
            {
                let key = if prefix.unicode_len() == 0 {
                    v[i].0.clone()
                } else {
                    let mut k = cat(prefix, ".");
                    k.append(v[i].0.as_str());
                    k
                };
                assert(decreases_to!(*value => value->Object_0));
                assert(decreases_to!(v => v@));
                assert(decreases_to!(v@ => v@[i as int]));
                assert(decreases_to!(v@[i as int] => v@[i as int].1));
                flatten(key.as_str(), &v[i].1, out);
                proof {
                    let a = entry_leaves(prefix@, v@, i as nat);
                    let b = leaves(dotted(prefix@, v@[i as int].0@), v@[i as int].1);
                    assert(before + a + b =~= before + (a + b));
                }
                i = i + 1;
            }
        },
        _ => {
            let ghost before = leaf_views(out@);
            push_leaf(out, prefix.to_owned(), setting(value));
            assert(leaf_views(out@) =~= before + leaves(prefix@, *value));
        },
    }
}

/// Whether a field belongs to the envelope of a journal line.
pub open spec fn in_envelope(key: Seq<char>) -> bool {
    key == "kind"@ || key == "ts_ns"@ || key == "vehicle_id"@ || key == "run_id"@
}

/// The leaves of the first `n` entries that are not of the envelope.
pub open spec fn open_leaves(s: Seq<(String, Json)>, n: nat) -> Seq<LeafView>
    decreases n,
{
    if n == 0 || n > s.len() {
        Seq::empty()
    } else if in_envelope(s[n - 1].0@) {
        open_leaves(s, (n - 1) as nat)
    } else {
        open_leaves(s, (n - 1) as nat) + leaves(s[n - 1].0@, s[n - 1].1)
    }
}

/// The settings that a configuration line declares: its `config` object, or
/// the line without its envelope.
pub open spec fn declared(line: Json) -> Seq<LeafView> {
    match field(line, "config"@) {
        Some(Json::Object(v)) => leaves(Seq::empty(), Json::Object(v)),
        _ => match line {
            Json::Object(v) => open_leaves(v@, v@.len()),
            _ => Seq::empty(),
        },
    }
}

/// Leaves without those of a key.
pub open spec fn without(s: Seq<LeafView>, key: Seq<char>) -> Seq<LeafView> {
    s.filter(|l: LeafView| l.0 != key)
}

/// One vehicle's configuration record, before merging.
#[derive(Debug)]
pub struct ConfigRecord {
    pub vehicle: String,
    pub leaves: Vec<Leaf>,
}

/// A configuration record by its values.
#[verifier::ext_equal]
pub struct RecordView {
    pub vehicle: Seq<char>,
    pub leaves: Seq<LeafView>,
}

impl View for ConfigRecord {
    type V = RecordView;

    open spec fn view(&self) -> RecordView {
        RecordView { vehicle: self.vehicle@, leaves: leaf_views(self.leaves@) }
    }
}

/// Records by their views.
pub open spec fn record_views(v: Seq<ConfigRecord>) -> Seq<RecordView> {
    v.map_values(|r: ConfigRecord| r@)
}

fn declared_leaves(line: &Json) -> (r: Vec<Leaf>)
    ensures
        leaf_views(r@) == declared(*line),
{
    let mut out: Vec<Leaf> = Vec::new();
    assert(leaf_views(out@) =~= Seq::empty());
    match line.get("config") {
        Some(config) => match config {
            Json::Object(_) => {
                flatten("", config, &mut out);
                proof {
                    reveal_strlit("");
                    assert(""@ =~= Seq::empty());
                    assert(leaf_views(out@) =~= leaves(Seq::empty(), *config));
                }
                return out;
            },
            _ => {},
        },
        None => {},
    }
    match line {
        Json::Object(v) => {
            let mut i: usize = 0;
            while i < v.len()
                invariant
                    i <= v@.len(),
                    leaf_views(out@) == open_leaves(v@, i as nat),
                decreases v@.len() - i,
            {
                let key = v[i].0.as_str();
                if !(same(key, "kind") || same(key, "ts_ns") || same(key, "vehicle_id") || same(
                    key,
                    "run_id",
                )) {
                    flatten(key, &v[i].1, &mut out);
                }
                i = i + 1;
            }
        },
        _ => {},
    }
    out
}

fn drop_leaves(v: Vec<Leaf>, key: &str) -> (r: Vec<Leaf>)
    ensures
        leaf_views(r@) == without(leaf_views(v@), key@),
{
    let mut out: Vec<Leaf> = Vec::new();
    let ghost p = |l: LeafView| l.0 != key@;
    let ghost all = leaf_views(v@);
    let mut i: usize = 0;
    proof {
        reveal(Seq::filter);
        assert(leaf_views(out@) =~= all.take(0).filter(p));
    }
    while i < v.len()
        invariant
            i <= v@.len(),
            all == leaf_views(v@),
            p == (|l: LeafView| l.0 != key@),
            leaf_views(out@) == all.take(i as int).filter(p),
        decreases v@.len() - i,
    {
        proof {
            reveal(Seq::filter);
            let t = all.take(i + 1);
            assert(t.drop_last() =~= all.take(i as int));
            assert(t.last() == (v@[i as int].0@, v@[i as int].1@));
        }
        if !same(v[i].0.as_str(), key) {
            push_leaf(&mut out, v[i].0.clone(), v[i].1.clone());
        }
        i = i + 1;
    }
    assert(all.take(i as int) =~= all);
    out
}

/// One datum and its provenance.
#[derive(Debug)]
pub struct Datum {
    /// Index into [`MissionDataset::blocks`]: the Block this line came from.
    pub block: usize,
    /// Datum time, ns since the Unix epoch.
    pub t_ns: u64,
    /// Vehicle the datum is about, when stated.
    pub vehicle: Option<String>,
    /// Classification.
    pub kind: DatumKind,
    /// The wire kind or type label (`coord.coop`, `telemetry`, ...).
    pub label: String,
    /// The decoded line (journal event object, or the recording's `event`).
    pub body: Json,
}

/// A datum by its values.
#[verifier::ext_equal]
pub struct DatumView {
    pub block: int,
    pub t_ns: u64,
    pub vehicle: Option<Seq<char>>,
    pub kind: DatumKind,
    pub label: Seq<char>,
    pub body: Json,
}

/// An optional text by its characters.
pub open spec fn shown(s: Option<String>) -> Option<Seq<char>> {
    match s {
        Some(t) => Some(t@),
        None => None,
    }
}

impl View for Datum {
    type V = DatumView;

    open spec fn view(&self) -> DatumView {
        DatumView {
            block: self.block as int,
            t_ns: self.t_ns,
            vehicle: shown(self.vehicle),
            kind: self.kind,
            label: self.label@,
            body: self.body,
        }
    }
}

/// Data by their views.
pub open spec fn datum_views(v: Seq<Datum>) -> Seq<DatumView> {
    v.map_values(|d: Datum| d@)
}

/// Whether a text begins with another.
pub open spec fn has_prefix(s: Seq<char>, prefix: Seq<char>) -> bool {
    prefix.len() <= s.len() && s.take(prefix.len() as int) == prefix
}

/// The class of a journal event.
pub open spec fn journal_class(kind: Seq<char>) -> DatumKind {
    if has_prefix(kind, "coord."@) {
        DatumKind::Coord
    } else if has_prefix(kind, "service."@) || has_prefix(kind, "flight."@) {
        DatumKind::Service
    } else if has_prefix(kind, "rtl."@) {
        DatumKind::Rtl
    } else if has_prefix(kind, "spark."@) || has_prefix(kind, "link."@) {
        DatumKind::Link
    } else {
        DatumKind::Event
    }
}

fn classify_journal(kind: &str) -> (r: DatumKind)
    ensures
        r == journal_class(kind@),
{
    if starts_with(kind, "coord.") {
        DatumKind::Coord
    } else if starts_with(kind, "service.") || starts_with(kind, "flight.") {
        DatumKind::Service
    } else if starts_with(kind, "rtl.") {
        DatumKind::Rtl
    } else if starts_with(kind, "spark.") || starts_with(kind, "link.") {
        DatumKind::Link
    } else {
        DatumKind::Event
    }
}

/// Position of the first line feed, or the number of bytes.
pub open spec fn line_end(s: Seq<u8>) -> int
    decreases s.len(),
{
    if s.len() == 0 || s[0] == 10 {
        0
    } else {
        1 + line_end(s.skip(1))
    }
}

/// The lines of a payload: what stands between its line feeds.
pub open spec fn lines_of(s: Seq<u8>) -> Seq<Seq<u8>>
    decreases s.len(),
{
    let k = line_end(s);
    if 0 <= k < s.len() {
        seq![s.take(k)] + lines_of(s.skip(k + 1))
    } else {
        seq![s]
    }
}

proof fn lemma_line_end(s: Seq<u8>, from: int, k: int)
    requires
        0 <= from <= k <= s.len(),
        forall|i: int| from <= i < k ==> s[i] != 10,
        k < s.len() ==> s[k] == 10,
    ensures
        line_end(s.skip(from)) == k - from,
    decreases k - from,
{
    if from < k {
        assert(s[from] != 10);
        assert(s.skip(from).skip(1) =~= s.skip(from + 1));
        lemma_line_end(s, from + 1, k);
    }
}

/// Whether a byte is ASCII white space.
pub open spec fn blank_byte(b: u8) -> bool {
    b == 9 || b == 10 || b == 12 || b == 13 || b == 32
}

/// Whether a line holds nothing but ASCII white space.
pub open spec fn blank(line: Seq<u8>) -> bool {
    forall|i: int| 0 <= i < line.len() ==> blank_byte(#[trigger] line[i])
}

/// The value on a line; blank and torn lines have none.
pub open spec fn line_value(line: Seq<u8>) -> Option<Json> {
    if blank(line) {
        None
    } else {
        json_of(line)
    }
}

/// Lines by their bytes.
pub open spec fn line_views(v: Seq<Vec<u8>>) -> Seq<Seq<u8>> {
    v.map_values(|l: Vec<u8>| l@)
}

fn split_lines(payload: &[u8]) -> (r: Vec<Vec<u8>>)
    ensures
        line_views(r@) == lines_of(payload@),
{
    let mut out: Vec<Vec<u8>> = Vec::new();
    let mut line: Vec<u8> = Vec::new();
    let mut i: usize = 0;
    let mut from: usize = 0;
    assert(payload@.skip(0) =~= payload@);
    assert(line_views(out@) + lines_of(payload@) =~= lines_of(payload@));
    assert(line@ =~= payload@.subrange(0, 0));
    while i < payload.len()
        invariant
            from <= i <= payload@.len(),
            line@ == payload@.subrange(from as int, i as int),
            forall|j: int| from <= j < i ==> payload@[j] != 10,
            line_views(out@) + lines_of(payload@.skip(from as int)) == lines_of(payload@),
        decreases payload@.len() - i,
    {
        let b: u8 = payload[i];
        if b == 10 {
            let ghost before = line_views(out@);
            let ghost l = line@;
            proof {
                lemma_line_end(payload@, from as int, i as int);
                let s = payload@.skip(from as int);
                assert(s.take(i - from) =~= l);
                assert(s.skip(i - from + 1) =~= payload@.skip(i + 1));
                assert(lines_of(s) == seq![l] + lines_of(payload@.skip(i + 1)));
            }
            out.push(line);
            line = Vec::new();
            from = i + 1;
            proof {
                let rest = lines_of(payload@.skip(i + 1));
                assert(line_views(out@) =~= before.push(l));
                assert(before.push(l) + rest =~= before + (seq![l] + rest));
                assert(line@ =~= payload@.subrange(i + 1, i + 1));
            }
        } else {
            line.push(b);
            assert(line@ =~= payload@.subrange(from as int, i + 1));
        }
        i = i + 1;
    }
    let ghost before = line_views(out@);
    let ghost l = line@;
    proof {
        lemma_line_end(payload@, from as int, i as int);
        assert(payload@.skip(from as int) =~= l);
        assert(lines_of(payload@.skip(from as int)) == seq![l]);
    }
    out.push(line);
    assert(line_views(out@) =~= before + seq![l]);
    out
}

fn is_blank(line: &Vec<u8>) -> (r: bool)
    ensures
        r == blank(line@),
{
    let mut i: usize = 0;
    while i < line.len()
        invariant
            i <= line@.len(),
            forall|j: int| 0 <= j < i ==> blank_byte(#[trigger] line@[j]),
        decreases line@.len() - i,
    {
        let b: u8 = line[i];
        if !(b == 9 || b == 10 || b == 12 || b == 13 || b == 32) {
            assert(!blank_byte(line@[i as int]));
            return false;
        }
        i = i + 1;
    }
    true
}

fn read_line(line: &Vec<u8>) -> (r: Option<Json>)
    ensures
        r == line_value(line@),
        !blank(line@) ==> reads_back(line@),
{
    if is_blank(line) {
        None
    } else {
        parse_json(line.as_slice())
    }
}

/// What ingestion gathers.
#[verifier::ext_equal]
pub struct Gathered {
    pub run_id: Option<Seq<char>>,
    pub data: Seq<DatumView>,
    pub records: Seq<RecordView>,
}

/// A text, or another in its place.
pub open spec fn text_or(t: Option<Seq<char>>, other: Seq<char>) -> Seq<char> {
    match t {
        Some(s) => s,
        None => other,
    }
}

/// The first of two texts that is there.
pub open spec fn first_of(a: Option<Seq<char>>, b: Option<Seq<char>>) -> Option<Seq<char>> {
    if a is Some {
        a
    } else {
        b
    }
}

/// The text of a field of a field.
pub open spec fn inner_text(j: Json, outer: Seq<char>, key: Seq<char>) -> Option<Seq<char>> {
    match field(j, outer) {
        Some(o) => text_of(field(o, key)),
        None => None,
    }
}

/// The run id that a journal line declares.
pub open spec fn declared_run(line: Json) -> Option<Seq<char>> {
    let own = text_of(field(line, "run_id"@));
    if own is None && text_of(field(line, "kind"@)) == Some("run.config"@) {
        inner_text(line, "config"@, "run_id"@)
    } else {
        own
    }
}

/// The datum of a journal line.
pub open spec fn journal_datum(block: int, line: Json) -> DatumView {
    let kind = text_or(text_of(field(line, "kind"@)), Seq::empty());
    DatumView {
        block,
        t_ns: match count_of(field(line, "ts_ns"@)) {
            Some(t) => t,
            None => 0,
        },
        vehicle: text_of(field(line, "vehicle_id"@)),
        kind: journal_class(kind),
        label: kind,
        body: line,
    }
}

/// The configuration record of a line.
pub open spec fn config_record(line: Json) -> RecordView {
    RecordView {
        vehicle: text_or(text_of(field(line, "vehicle_id"@)), "?"@),
        leaves: without(declared(line), "run_id"@),
    }
}

/// Gathering one journal line.
pub open spec fn journal_step(g: Gathered, block: int, line: Seq<u8>) -> Gathered {
    match line_value(line) {
        None => g,
        Some(v) => Gathered {
            run_id: first_of(g.run_id, declared_run(v)),
            data: g.data.push(journal_datum(block, v)),
            records: if text_of(field(v, "kind"@)) == Some("run.config"@) {
                g.records.push(config_record(v))
            } else {
                g.records
            },
        },
    }
}

/// Gathering the first `n` lines of a journal.
pub open spec fn journal_fold(g: Gathered, block: int, lines: Seq<Seq<u8>>, n: nat) -> Gathered
    decreases n,
{
    if n == 0 || n > lines.len() {
        g
    } else {
        journal_step(journal_fold(g, block, lines, (n - 1) as nat), block, lines[n - 1])
    }
}

/// The datum of a recorded event.
pub open spec fn recorded_datum(block: int, line: Json) -> DatumView {
    let event = match field(line, "event"@) {
        Some(e) => e,
        None => Json::Null,
    };
    let ty = text_or(text_of(field(event, "type"@)), Seq::empty());
    let known = ty == "telemetry"@ || ty == "coord"@ || ty == "video_stats"@ || ty
        == "telemetry_stale"@ || ty == "event"@;
    DatumView {
        block,
        t_ns: match count_of(field(line, "t_ns"@)) {
            Some(t) => t,
            None => 0,
        },
        vehicle: if known {
            text_of(field(event, "vehicle"@))
        } else {
            None
        },
        kind: if ty == "telemetry"@ {
            DatumKind::Telemetry
        } else if ty == "coord"@ {
            DatumKind::Coord
        } else if ty == "video_stats"@ || ty == "telemetry_stale"@ {
            DatumKind::Link
        } else {
            DatumKind::Event
        },
        label: if ty == "event"@ {
            text_or(text_of(field(event, "kind"@)), "event"@)
        } else {
            ty
        },
        body: event,
    }
}

/// Gathering the first `n` lines of a recording.
pub open spec fn recording_fold(
    data: Seq<DatumView>,
    block: int,
    lines: Seq<Seq<u8>>,
    n: nat,
) -> Seq<DatumView>
    decreases n,
{
    if n == 0 || n > lines.len() {
        data
    } else {
        let before = recording_fold(data, block, lines, (n - 1) as nat);
        match line_value(lines[n - 1]) {
            None => before,
            Some(v) => before.push(recorded_datum(block, v)),
        }
    }
}

/// The last value of a key among leaves.
pub open spec fn last_leaf(s: Seq<LeafView>, key: Seq<char>) -> Option<SettingView>
    decreases s.len(),
{
    if s.len() == 0 {
        None
    } else if s.last().0 == key {
        Some(s.last().1)
    } else {
        last_leaf(s.drop_last(), key)
    }
}

/// The first value of a key among leaves.
pub open spec fn first_leaf(s: Seq<LeafView>, key: Seq<char>) -> Option<SettingView>
    decreases s.len(),
{
    if s.len() == 0 {
        None
    } else {
        match first_leaf(s.drop_last(), key) {
            Some(v) => Some(v),
            None => if s.last().0 == key {
                Some(s.last().1)
            } else {
                None
            },
        }
    }
}

/// The value of a key in a settings map.
pub open spec fn setting_at(m: TextMap<Setting>, key: Seq<char>) -> Option<SettingView> {
    match m.lookup(key) {
        Some(s) => Some(s@),
        None => None,
    }
}

/// `a` has the leaves put over the settings of `b`, later leaves over earlier
/// ones.
pub open spec fn put_over(a: TextMap<Setting>, b: TextMap<Setting>, s: Seq<LeafView>) -> bool {
    forall|k: Seq<char>| #[trigger]
        setting_at(a, k) == match last_leaf(s, k) {
            Some(v) => Some(v),
            None => setting_at(b, k),
        }
}

/// `a` has the leaves added to the settings of `b`, where a key that is there
/// keeps its value.
pub open spec fn added_to(a: TextMap<Setting>, b: TextMap<Setting>, s: Seq<LeafView>) -> bool {
    forall|k: Seq<char>| #[trigger]
        setting_at(a, k) == match setting_at(b, k) {
            Some(v) => Some(v),
            None => first_leaf(s, k),
        }
}

/// The vehicles of records, in order.
pub open spec fn record_vehicles(records: Seq<RecordView>) -> Seq<Seq<char>> {
    sorted_texts(records.map_values(|r: RecordView| r.vehicle))
}

/// The keys of the first `n` leaves.
pub open spec fn leaf_keys(s: Seq<LeafView>) -> Seq<Seq<char>> {
    s.map_values(|l: LeafView| l.0)
}

/// The keys of records, one record behind the other.
pub open spec fn listed_keys(records: Seq<RecordView>) -> Seq<Seq<char>>
    decreases records.len(),
{
    if records.len() == 0 {
        Seq::empty()
    } else {
        listed_keys(records.drop_last()) + leaf_keys(records.last().leaves)
    }
}

/// What a vehicle declares for a key: its last record that has it counts.
pub open spec fn value_for(
    records: Seq<RecordView>,
    vehicle: Seq<char>,
    key: Seq<char>,
) -> Option<SettingView>
    decreases records.len(),
{
    if records.len() == 0 {
        None
    } else if records.last().vehicle == vehicle && last_leaf(records.last().leaves, key) is Some {
        last_leaf(records.last().leaves, key)
    } else {
        value_for(records.drop_last(), vehicle, key)
    }
}

/// Whether every vehicle declares the key, all with the same value.
pub open spec fn agreed(records: Seq<RecordView>, vehicles: Seq<Seq<char>>, key: Seq<char>) -> bool {
    forall|i: int|
        0 <= i < vehicles.len() ==> match value_for(records, #[trigger] vehicles[i], key) {
            Some(v) => value_for(records, vehicles[0], key) is Some && v.json == value_for(
                records,
                vehicles[0],
                key,
            )->0.json,
            None => false,
        }
}

/// The key of one vehicle's side of a setting.
pub open spec fn side_key(key: Seq<char>, vehicle: Seq<char>) -> Seq<char> {
    key + "@"@ + vehicle
}

/// Each vehicle's side of a setting, for the first `n` vehicles.
pub open spec fn sides(
    records: Seq<RecordView>,
    vehicles: Seq<Seq<char>>,
    key: Seq<char>,
    n: nat,
) -> Seq<LeafView>
    decreases n,
{
    if n == 0 || n > vehicles.len() {
        Seq::empty()
    } else {
        let before = sides(records, vehicles, key, (n - 1) as nat);
        match value_for(records, vehicles[n - 1], key) {
            Some(v) => before.push((side_key(key, vehicles[n - 1]), v)),
            None => before,
        }
    }
}

/// The settings of one key: the value where the vehicles agree, each side
/// where they do not or some are silent.
pub open spec fn settled(
    records: Seq<RecordView>,
    vehicles: Seq<Seq<char>>,
    key: Seq<char>,
) -> Seq<LeafView> {
    if agreed(records, vehicles, key) && vehicles.len() > 0 {
        seq![(key, value_for(records, vehicles[0], key)->0)]
    } else {
        sides(records, vehicles, key, vehicles.len())
    }
}

/// The settings of the first `n` keys.
pub open spec fn merged_upto(
    records: Seq<RecordView>,
    vehicles: Seq<Seq<char>>,
    keys: Seq<Seq<char>>,
    n: nat,
) -> Seq<LeafView>
    decreases n,
{
    if n == 0 || n > keys.len() {
        Seq::empty()
    } else {
        merged_upto(records, vehicles, keys, (n - 1) as nat) + settled(
            records,
            vehicles,
            keys[n - 1],
        )
    }
}

/// The settings that records merge into.
pub open spec fn merged(records: Seq<RecordView>) -> Seq<LeafView> {
    let keys = sorted_texts(listed_keys(records));
    merged_upto(records, record_vehicles(records), keys, keys.len())
}

/// A setting that counts.
pub open spec fn count_setting(n: nat) -> SettingView {
    SettingView { display: dec_text(n), json: dec_text(n) }
}

/// The setting that a field implies.
pub open spec fn implied(j: Option<Json>, key: Seq<char>) -> Seq<LeafView> {
    match j {
        Some(v) => seq![(key, setting_of(v))],
        None => Seq::empty(),
    }
}

/// The settings that an `agent.up` event implies.
pub open spec fn announced(body: Json) -> Seq<LeafView> {
    let fleet = field(body, "fleet_ids"@);
    implied(fleet, "fleet_ids"@) + (match fleet {
        Some(Json::List(v)) => seq![("fleet_size"@, count_setting(v@.len()))],
        _ => Seq::empty(),
    }) + implied(field(body, "carrier"@), "carrier"@) + implied(
        field(body, "source"@),
        "endpoint.source"@,
    )
}

/// The settings that the first `n` data imply.
pub open spec fn synthesized_upto(data: Seq<DatumView>, n: nat) -> Seq<LeafView>
    decreases n,
{
    if n == 0 || n > data.len() {
        Seq::empty()
    } else {
        let before = synthesized_upto(data, (n - 1) as nat);
        if data[n - 1].label == "agent.up"@ {
            before + announced(data[n - 1].body)
        } else {
            before
        }
    }
}

fn put(m: &mut TextMap<Setting>, key: String, value: Setting)
    requires
        old(m).ordered(),
    ensures
        final(m).ordered(),
        put_over(*final(m), *old(m), seq![(key@, value@)]),
{
    let ghost before = *m;
    let ghost one = seq![(key@, value@)];
    m.insert(key, value);
    proof {
        assert forall|k: Seq<char>| #[trigger] setting_at(*m, k) == match last_leaf(one, k) {
            Some(v) => Some(v),
            None => setting_at(before, k),
        } by {
            let l = m.lookup(k);
            assert(one.drop_last() =~= Seq::empty());
            assert(last_leaf(one.drop_last(), k) is None);
        }
    }
}

fn put_new(m: &mut TextMap<Setting>, key: &str, value: Setting)
    requires
        old(m).ordered(),
    ensures
        final(m).ordered(),
        added_to(*final(m), *old(m), seq![(key@, value@)]),
{
    let ghost before = *m;
    let ghost one = seq![(key@, value@)];
    proof {
        assert forall|k: Seq<char>| first_leaf(one, k) == if k == key@ {
            Some(value@)
        } else {
            None
        } by {
            assert(one.drop_last() =~= Seq::empty());
            assert(first_leaf(one.drop_last(), k) is None);
        }
    }
    if m.get(key).is_none() {
        assert(m.lookup(key@) is None);
        m.insert(key.to_owned(), value);
        proof {
            assert forall|k: Seq<char>| #[trigger] setting_at(*m, k) == match setting_at(before, k) {
                Some(v) => Some(v),
                None => first_leaf(one, k),
            } by {
                let l = m.lookup(k);
            }
        }
    }
}

/// The last value of a key in two lists one after the other.
pub proof fn lemma_last_leaf_concat(a: Seq<LeafView>, b: Seq<LeafView>, k: Seq<char>)
    ensures
        last_leaf(a + b, k) == match last_leaf(b, k) {
            Some(v) => Some(v),
            None => last_leaf(a, k),
        },
    decreases b.len(),
{
    if b.len() == 0 {
        assert(a + b =~= a);
    } else {
        assert((a + b).drop_last() =~= a + b.drop_last());
        assert((a + b).last() == b.last());
        lemma_last_leaf_concat(a, b.drop_last(), k);
    }
}

proof fn lemma_first_leaf_concat(a: Seq<LeafView>, b: Seq<LeafView>, k: Seq<char>)
    ensures
        first_leaf(a + b, k) == match first_leaf(a, k) {
            Some(v) => Some(v),
            None => first_leaf(b, k),
        },
    decreases b.len(),
{
    if b.len() == 0 {
        assert(a + b =~= a);
    } else {
        assert((a + b).drop_last() =~= a + b.drop_last());
        assert((a + b).last() == b.last());
        lemma_first_leaf_concat(a, b.drop_last(), k);
    }
}

proof fn lemma_put_over_chain(
    a: TextMap<Setting>,
    b: TextMap<Setting>,
    c: TextMap<Setting>,
    s: Seq<LeafView>,
    t: Seq<LeafView>,
)
    requires
        put_over(b, a, s),
        put_over(c, b, t),
    ensures
        put_over(c, a, s + t),
{
    assert forall|k: Seq<char>| #[trigger] setting_at(c, k) == match last_leaf(s + t, k) {
        Some(v) => Some(v),
        None => setting_at(a, k),
    } by {
        lemma_last_leaf_concat(s, t, k);
        let m = setting_at(b, k);
    }
}

proof fn lemma_added_chain(
    a: TextMap<Setting>,
    b: TextMap<Setting>,
    c: TextMap<Setting>,
    s: Seq<LeafView>,
    t: Seq<LeafView>,
)
    requires
        added_to(b, a, s),
        added_to(c, b, t),
    ensures
        added_to(c, a, s + t),
{
    assert forall|k: Seq<char>| #[trigger] setting_at(c, k) == match setting_at(a, k) {
        Some(v) => Some(v),
        None => first_leaf(s + t, k),
    } by {
        lemma_first_leaf_concat(s, t, k);
        let m = setting_at(b, k);
    }
}

/// The run's configuration: the inputs that artifacts lead with, flattened to
/// dotted keys (`link_profile.loss_pct`, `coord.grace_s`, ...). A key on which
/// vehicles disagree is stored per vehicle as `key@vehicle`.
#[derive(Debug)]
pub struct RunConfig {
    /// Declared run id.
    pub run_id: Option<String>,
    /// Flattened settings.
    pub settings: TextMap<Setting>,
    /// True when no configuration record was found and the settings are what
    /// the journals imply. What they do not imply is absent, never guessed.
    pub synthesized: bool,
}

impl RunConfig {
    /// A setting rendered for humans; `None` is unknown.
    pub fn display(&self, key: &str) -> (r: Option<String>)
        requires
            self.settings.ordered(),
        ensures
            match r {
                Some(s) => setting_at(self.settings, key@) is Some && s@ == setting_at(
                    self.settings,
                    key@,
                )->0.display,
                None => setting_at(self.settings, key@) is None,
            },
    {
        match self.settings.get(key) {
            Some(v) => Some(v.display.clone()),
            None => None,
        }
    }
}

/// The time of a datum, as a sorting key.
pub open spec fn time_key() -> spec_fn(DatumView) -> int {
    |d: DatumView| d.t_ns as int
}

/// Whether one of the marked data came from a Block.
pub open spec fn marked(data: Seq<DatumView>, flags: Seq<bool>, block: int) -> bool {
    exists|j: int| 0 <= j < data.len() && #[trigger] flags[j] && data[j].block == block
}

/// The citations of the Blocks below `n` that marked data came from, one for
/// each Block.
pub open spec fn marked_citations(
    blocks: Seq<BlockRef>,
    data: Seq<DatumView>,
    flags: Seq<bool>,
    n: nat,
) -> Seq<CitationView>
    decreases n,
{
    if n == 0 || n > blocks.len() {
        Seq::empty()
    } else {
        let before = marked_citations(blocks, data, flags, (n - 1) as nat);
        if marked(data, flags, n - 1) {
            before.push(blocks[n - 1].cited())
        } else {
            before
        }
    }
}

/// The citations of the Blocks that marked data came from, sorted, each once.
pub open spec fn section_citations(
    blocks: Seq<BlockRef>,
    data: Seq<DatumView>,
    flags: Seq<bool>,
) -> Seq<CitationView> {
    sorted_citations(marked_citations(blocks, data, flags, blocks.len()))
}

/// The data of one kind, by their positions below `n`.
pub open spec fn places_of_kind(data: Seq<DatumView>, kind: DatumKind, n: nat) -> Seq<int>
    decreases n,
{
    if n == 0 || n > data.len() {
        Seq::empty()
    } else if data[n - 1].kind == kind {
        places_of_kind(data, kind, (n - 1) as nat).push(n - 1)
    } else {
        places_of_kind(data, kind, (n - 1) as nat)
    }
}

/// The vehicles that the first `n` data name.
pub open spec fn named_vehicles(data: Seq<DatumView>, n: nat) -> Seq<Seq<char>>
    decreases n,
{
    if n == 0 || n > data.len() {
        Seq::empty()
    } else {
        match data[n - 1].vehicle {
            Some(v) => named_vehicles(data, (n - 1) as nat).push(v),
            None => named_vehicles(data, (n - 1) as nat),
        }
    }
}

/// The label of a run: its declared id, or one made from its first Block.
pub open spec fn label_of(run_id: Option<Seq<char>>, blocks: Seq<BlockRef>) -> Seq<char> {
    match run_id {
        Some(id) => id,
        None => if blocks.len() == 0 {
            "run-empty"@
        } else {
            "run-"@ + hex_text(blocks[0].hash@).take(8)
        },
    }
}

/// The one dataset: run configuration and data with their provenance.
#[derive(Debug)]
pub struct MissionDataset {
    /// The run's input configuration.
    pub run: RunConfig,
    /// Every resolved Block, in resolution order.
    pub blocks: Vec<BlockRef>,
    /// Every datum, in time order after [`MissionDataset::finish`].
    pub data: Vec<Datum>,
    /// Configuration records before merging.
    pub records: Vec<ConfigRecord>,
}

impl MissionDataset {
    /// The configuration records.
    pub open spec fn records(&self) -> Seq<RecordView> {
        record_views(self.records@)
    }

    /// The data by their values.
    pub open spec fn data(&self) -> Seq<DatumView> {
        datum_views(self.data@)
    }

    /// Every datum came from a Block of the dataset, and the settings are in
    /// order.
    pub open spec fn valid(&self) -> bool {
        &&& self.run.settings.ordered()
        &&& forall|i: int| 0 <= i < self.data@.len() ==> (#[trigger] self.data@[i]).block
            < self.blocks@.len()
    }

    /// What ingestion has gathered.
    pub open spec fn gathered(&self) -> Gathered {
        Gathered { run_id: shown(self.run.run_id), data: self.data(), records: self.records() }
    }

    /// Empty dataset.
    pub fn new() -> (r: Self)
        ensures
            r.valid(),
            r.gathered() == (Gathered {
                run_id: None,
                data: Seq::empty(),
                records: Seq::empty(),
            }),
            r.blocks@.len() == 0,
            r.run.settings.list().len() == 0,
            !r.run.synthesized,
    {
        let r = MissionDataset {
            run: RunConfig { run_id: None, settings: TextMap::new(), synthesized: false },
            blocks: Vec::new(),
            data: Vec::new(),
            records: Vec::new(),
        };
        assert(r.gathered() =~= (Gathered {
            run_id: None,
            data: Seq::empty(),
            records: Seq::empty(),
        }));
        r
    }

    fn push_datum(&mut self, d: Datum)
        requires
            old(self).valid(),
            d.block < old(self).blocks@.len(),
        ensures
            final(self).valid(),
            final(self).run == old(self).run,
            final(self).blocks == old(self).blocks,
            final(self).records() == old(self).records(),
            final(self).data() == old(self).data().push(d@),
    {
        let ghost before = self.data@;
        self.data.push(d);
        assert(datum_views(self.data@) =~= datum_views(before).push(d@));
    }

    /// Take up a configuration line.
    fn record_config(&mut self, vehicle: &str, line: &Json)
        requires
            old(self).valid(),
        ensures
            final(self).valid(),
            final(self).run.settings == old(self).run.settings,
            final(self).run.synthesized == old(self).run.synthesized,
            final(self).blocks == old(self).blocks,
            final(self).data() == old(self).data(),
            shown(final(self).run.run_id) == first_of(
                first_of(shown(old(self).run.run_id), text_of(field(*line, "run_id"@))),
                inner_text(*line, "config"@, "run_id"@),
            ),
            final(self).records() == old(self).records().push(
                RecordView { vehicle: vehicle@, leaves: without(declared(*line), "run_id"@) },
            ),
    {
        if self.run.run_id.is_none() {
            self.run.run_id = match line.text_field("run_id") {
                Some(id) => Some(id),
                None => match line.get("config") {
                    Some(config) => config.text_field("run_id"),
                    None => None,
                },
            };
        }
        let leaves = drop_leaves(declared_leaves(line), "run_id");
        let record = ConfigRecord { vehicle: vehicle.to_owned(), leaves };
        let ghost before = self.records@;
        self.records.push(record);
        assert(record_views(self.records@) =~= record_views(before).push(record@));
    }

    /// Ingest one journal Block (JSON lines of agent journal events). Lines
    /// that do not parse are skipped: a journal is safe against power loss,
    /// its last line may be torn. Every line that was journaled gives its
    /// datum.
    pub fn add_journal_block(&mut self, block: BlockRef, payload: &[u8])
        requires
            old(self).valid(),
        ensures
            final(self).valid(),
            final(self).blocks@ == old(self).blocks@.push(block),
            final(self).run.settings == old(self).run.settings,
            final(self).run.synthesized == old(self).run.synthesized,
            final(self).gathered() == journal_fold(
                old(self).gathered(),
                old(self).blocks@.len() as int,
                lines_of(payload@),
                lines_of(payload@).len(),
            ),
            forall|written: Seq<Json>|
                journaled(written) && payload@ == encode_utf8(#[trigger] journal_text(written))
                    ==> come_back(
                    old(self).gathered().data,
                    final(self).gathered().data,
                    old(self).blocks@.len() as int,
                    written,
                ),
    {
        let idx: usize = self.blocks.len();
        let ghost start = self.gathered();
        let ghost settings = self.run.settings;
        let ghost synthesized = self.run.synthesized;
        self.blocks.push(block);
        let ghost blocks = self.blocks;
        let lines = split_lines(payload);
        let mut i: usize = 0;
        while i < lines.len()
            invariant
                i <= lines@.len(),
                line_views(lines@) == lines_of(payload@),
                self.valid(),
                self.blocks == blocks,
                idx + 1 == blocks@.len(),
                self.run.settings == settings,
                self.run.synthesized == synthesized,
                self.gathered() == journal_fold(start, idx as int, lines_of(payload@), i as nat),
                forall|k: int|
                    0 <= k < i && !blank(#[trigger] lines_of(payload@)[k]) ==> reads_back(
                        lines_of(payload@)[k],
                    ),
            decreases lines@.len() - i,
        {
            let ghost g = self.gathered();
            assert(lines_of(payload@)[i as int] == lines@[i as int]@);
            match read_line(&lines[i]) {
                None => {},
                Some(value) => {
                    let kind = match value.text_field("kind") {
                        Some(k) => k,
                        None => {
                            proof {
                                reveal_strlit("");
                                assert(""@ =~= Seq::empty());
                            }
                            String::from_str("")
                        },
                    };
                    let t_ns: u64 = match value.count_field("ts_ns") {
                        Some(t) => t,
                        None => 0,
                    };
                    let vehicle = value.text_field("vehicle_id");
                    if self.run.run_id.is_none() {
                        self.run.run_id = value.text_field("run_id");
                    }
                    proof {
                        reveal_strlit("");
                        reveal_strlit("run.config");
                        assert("run.config"@.len() != 0);
                    }
                    if same(kind.as_str(), "run.config") {
                        match &vehicle {
                            Some(v) => self.record_config(v.as_str(), &value),
                            None => self.record_config("?", &value),
                        }
                    }
                    let class = classify_journal(kind.as_str());
                    let d = Datum { block: idx, t_ns, vehicle, kind: class, label: kind, body: value };
                    proof {
                        assert(d@ =~= journal_datum(idx as int, value));
                    }
                    self.push_datum(d);
                    assert(self.gathered() =~= journal_step(g, idx as int, lines@[i as int]@));
                },
            }
            i = i + 1;
        }
        assert(line_views(lines@).len() == lines@.len());
        proof {
            let all = lines_of(payload@);
            assert forall|written: Seq<Json>|
                journaled(written) && payload@ == encode_utf8(
                    #[trigger] journal_text(written),
                ) implies come_back(start.data, self.gathered().data, idx as int, written) by {
                journals_fall_into_their_lines(written);
                assert forall|k: int| 0 <= k < written.len() implies reads_back(
                    #[trigger] line_bytes(written)[k],
                ) by {
                    assert(all[k] == line_bytes(written)[k]);
                    lemma_objects_are_not_blank(written[k]);
                }
                journaled_lines_are_read_back(start, idx as int, written);
            }
        }
    }

    /// Ingest one dashboard-recording Block (JSON lines of the form
    /// `{"t_ns": .., "event": {"type": ..}}`).
    pub fn add_recording_block(&mut self, block: BlockRef, payload: &[u8])
        requires
            old(self).valid(),
        ensures
            final(self).valid(),
            final(self).blocks@ == old(self).blocks@.push(block),
            final(self).run == old(self).run,
            final(self).records() == old(self).records(),
            final(self).data() == recording_fold(
                old(self).data(),
                old(self).blocks@.len() as int,
                lines_of(payload@),
                lines_of(payload@).len(),
            ),
    {
        let idx: usize = self.blocks.len();
        let ghost start = *self;
        self.blocks.push(block);
        let ghost blocks = self.blocks;
        let lines = split_lines(payload);
        let mut i: usize = 0;
        while i < lines.len()
            invariant
                i <= lines@.len(),
                line_views(lines@) == lines_of(payload@),
                self.valid(),
                self.blocks == blocks,
                idx + 1 == blocks@.len(),
                self.run == start.run,
                self.records() == start.records(),
                self.data() == recording_fold(
                    start.data(),
                    idx as int,
                    lines_of(payload@),
                    i as nat,
                ),
            decreases lines@.len() - i,
        {
            assert(lines_of(payload@)[i as int] == lines@[i as int]@);
            match read_line(&lines[i]) {
                None => {},
                Some(value) => {
                    let d = recorded(idx, value);
                    self.push_datum(d);
                },
            }
            i = i + 1;
        }
        assert(line_views(lines@).len() == lines@.len());
    }
}

fn recorded(idx: usize, value: Json) -> (r: Datum)
    ensures
        r@ == recorded_datum(idx as int, value),
        r.block == idx,
{
    let t_ns: u64 = match value.count_field("t_ns") {
        Some(t) => t,
        None => 0,
    };
    let event = match value.into_field("event") {
        Some(e) => e,
        None => Json::Null,
    };
    let ty = match event.text_field("type") {
        Some(t) => t,
        None => {
            proof {
                reveal_strlit("");
                assert(""@ =~= Seq::empty());
            }
            String::from_str("")
        },
    };
    let t = ty.as_str();
    let vehicle = if same(t, "telemetry") || same(t, "coord") || same(t, "video_stats") || same(
        t,
        "telemetry_stale",
    ) || same(t, "event") {
        event.text_field("vehicle")
    } else {
        None
    };
    let kind = if same(t, "telemetry") {
        DatumKind::Telemetry
    } else if same(t, "coord") {
        DatumKind::Coord
    } else if same(t, "video_stats") || same(t, "telemetry_stale") {
        DatumKind::Link
    } else {
        DatumKind::Event
    };
    let label = if same(t, "event") {
        match event.text_field("kind") {
            Some(k) => k,
            None => "event".to_owned(),
        }
    } else {
        t.to_owned()
    };
    let r = Datum { block: idx, t_ns, vehicle, kind, label, body: event };
    assert(r@ =~= recorded_datum(idx as int, value));
    r
}

fn last_value(leaves: &Vec<Leaf>, key: &str) -> (r: Option<Setting>)
    ensures
        match r {
            Some(v) => last_leaf(leaf_views(leaves@), key@) == Some(v@),
            None => last_leaf(leaf_views(leaves@), key@) is None,
        },
{
    let ghost all = leaf_views(leaves@);
    let mut i: usize = leaves.len();
    assert(all.take(i as int) =~= all);
    while i > 0
        invariant
            i <= leaves@.len(),
            all == leaf_views(leaves@),
            last_leaf(all, key@) == last_leaf(all.take(i as int), key@),
        decreases i,
    {
        assert(all.take(i as int).drop_last() =~= all.take(i - 1));
        assert(all.take(i as int).last() == all[i - 1]);
        if same(leaves[i - 1].0.as_str(), key) {
            return Some(leaves[i - 1].1.clone());
        }
        i = i - 1;
    }
    None
}

fn vehicle_value(records: &Vec<ConfigRecord>, vehicle: &str, key: &str) -> (r: Option<Setting>)
    ensures
        match r {
            Some(v) => value_for(record_views(records@), vehicle@, key@) == Some(v@),
            None => value_for(record_views(records@), vehicle@, key@) is None,
        },
{
    let ghost all = record_views(records@);
    let mut i: usize = records.len();
    assert(all.take(i as int) =~= all);
    while i > 0
        invariant
            i <= records@.len(),
            all == record_views(records@),
            value_for(all, vehicle@, key@) == value_for(all.take(i as int), vehicle@, key@),
        decreases i,
    {
        assert(all.take(i as int).drop_last() =~= all.take(i - 1));
        assert(all.take(i as int).last() == all[i - 1]);
        if same(records[i - 1].vehicle.as_str(), vehicle) {
            match last_value(&records[i - 1].leaves, key) {
                Some(v) => {
                    return Some(v);
                },
                None => {},
            }
        }
        i = i - 1;
    }
    None
}

fn all_keys(records: &Vec<ConfigRecord>) -> (r: Vec<String>)
    ensures
        views(r@) == listed_keys(record_views(records@)),
{
    let ghost all = record_views(records@);
    let mut out: Vec<String> = Vec::new();
    let mut i: usize = 0;
    assert(views(out@) =~= listed_keys(all.take(0)));
    while i < records.len()
        invariant
            i <= records@.len(),
            all == record_views(records@),
            views(out@) == listed_keys(all.take(i as int)),
        decreases records@.len() - i,
    {
        let leaves = &records[i].leaves;
        let ghost before = views(out@);
        let ghost keys = leaf_keys(leaf_views(leaves@));
        let mut j: usize = 0;
        assert(before + keys.take(0) =~= before);
        while j < leaves.len()
            invariant
                j <= leaves@.len(),
                keys == leaf_keys(leaf_views(leaves@)),
                views(out@) == before + keys.take(j as int),
            decreases leaves@.len() - j,
        {
            let ghost prior = out@;
            out.push(leaves[j].0.clone());
            proof {
                assert(views(out@) =~= views(prior).push(leaves@[j as int].0@));
                assert(keys.take(j + 1) =~= keys.take(j as int).push(keys[j as int]));
                assert(views(out@) =~= before + keys.take(j + 1));
            }
            j = j + 1;
        }
        proof {
            assert(keys.take(j as int) =~= keys);
            let t = all.take(i + 1);
            assert(t.drop_last() =~= all.take(i as int));
            assert(t.last() == records@[i as int]@);
        }
        i = i + 1;
    }
    assert(all.take(i as int) =~= all);
    out
}

fn all_record_vehicles(records: &Vec<ConfigRecord>) -> (r: Vec<String>)
    ensures
        views(r@) == record_vehicles(record_views(records@)),
{
    let mut out: Vec<String> = Vec::new();
    let mut i: usize = 0;
    while i < records.len()
        invariant
            i <= records@.len(),
            out@.len() == i,
            forall|j: int| 0 <= j < i ==> (#[trigger] out@[j])@ == records@[j].vehicle@,
        decreases records@.len() - i,
    {
        out.push(records[i].vehicle.clone());
        i = i + 1;
    }
    assert(views(out@) =~= record_views(records@).map_values(|r: RecordView| r.vehicle));
    sort_texts(&out)
}

fn is_agreed(records: &Vec<ConfigRecord>, vehicles: &Vec<String>, key: &str) -> (r: bool)
    ensures
        r == agreed(record_views(records@), views(vehicles@), key@),
{
    let ghost rs = record_views(records@);
    let ghost vs = views(vehicles@);
    if vehicles.len() == 0 {
        return true;
    }
    let first = match vehicle_value(records, vehicles[0].as_str(), key) {
        Some(v) => v,
        None => {
            assert(value_for(rs, vs[0], key@) is None);
            return false;
        },
    };
    let mut i: usize = 0;
    while i < vehicles.len()
        invariant
            i <= vehicles@.len(),
            vehicles@.len() > 0,
            rs == record_views(records@),
            vs == views(vehicles@),
            value_for(rs, vs[0], key@) == Some(first@),
            forall|j: int|
                0 <= j < i ==> match value_for(rs, #[trigger] vs[j], key@) {
                    Some(v) => v.json == first.json@,
                    None => false,
                },
        decreases vehicles@.len() - i,
    {
        assert(vs[i as int] == vehicles@[i as int]@);
        let good = match vehicle_value(records, vehicles[i].as_str(), key) {
            Some(v) => same(v.json.as_str(), first.json.as_str()),
            None => false,
        };
        if !good {
            return false;
        }
        i = i + 1;
    }
    true
}

fn put_settled(
    m: &mut TextMap<Setting>,
    records: &Vec<ConfigRecord>,
    vehicles: &Vec<String>,
    key: &str,
)
    requires
        old(m).ordered(),
    ensures
        final(m).ordered(),
        put_over(
            *final(m),
            *old(m),
            settled(record_views(records@), views(vehicles@), key@),
        ),
{
    let ghost rs = record_views(records@);
    let ghost vs = views(vehicles@);
    if is_agreed(records, vehicles, key) && vehicles.len() > 0 {
        assert(vs[0] == vehicles@[0]@);
        match vehicle_value(records, vehicles[0].as_str(), key) {
            Some(v) => {
                put(m, key.to_owned(), v);
            },
            None => {},
        }
        return;
    }
    let ghost start = *m;
    let mut i: usize = 0;
    while i < vehicles.len()
        invariant
            i <= vehicles@.len(),
            rs == record_views(records@),
            vs == views(vehicles@),
            m.ordered(),
            put_over(*m, start, sides(rs, vs, key@, i as nat)),
        decreases vehicles@.len() - i,
    {
        assert(vs[i as int] == vehicles@[i as int]@);
        match vehicle_value(records, vehicles[i].as_str(), key) {
            Some(v) => {
                let mut k = cat(key, "@");
                k.append(vehicles[i].as_str());
                let ghost before = *m;
                let ghost one = seq![(k@, v@)];
                put(m, k, v);
                proof {
                    let s = sides(rs, vs, key@, i as nat);
                    lemma_put_over_chain(start, before, *m, s, one);
                    assert(s + one =~= sides(rs, vs, key@, (i + 1) as nat));
                }
            },
            None => {},
        }
        i = i + 1;
    }
}

fn put_merged(m: &mut TextMap<Setting>, records: &Vec<ConfigRecord>)
    requires
        old(m).ordered(),
    ensures
        final(m).ordered(),
        put_over(*final(m), *old(m), merged(record_views(records@))),
{
    let ghost rs = record_views(records@);
    let ghost start = *m;
    let listed = all_keys(records);
    let keys = sort_texts(&listed);
    let vehicles = all_record_vehicles(records);
    let ghost ks = views(keys@);
    let ghost vs = views(vehicles@);
    let mut i: usize = 0;
    while i < keys.len()
        invariant
            i <= keys@.len(),
            rs == record_views(records@),
            ks == views(keys@),
            vs == views(vehicles@),
            m.ordered(),
            put_over(*m, start, merged_upto(rs, vs, ks, i as nat)),
        decreases keys@.len() - i,
    {
        let ghost before = *m;
        put_settled(m, records, &vehicles, keys[i].as_str());
        proof {
            assert(ks[i as int] == keys@[i as int]@);
            lemma_put_over_chain(
                start,
                before,
                *m,
                merged_upto(rs, vs, ks, i as nat),
                settled(rs, vs, ks[i as int]),
            );
        }
        i = i + 1;
    }
}

fn put_implied(m: &mut TextMap<Setting>, j: Option<&Json>, key: &str)
    requires
        old(m).ordered(),
    ensures
        final(m).ordered(),
        added_to(
            *final(m),
            *old(m),
            implied(
                match j {
                    Some(v) => Some(*v),
                    None => None,
                },
                key@,
            ),
        ),
{
    match j {
        Some(v) => put_new(m, key, setting(v)),
        None => {},
    }
}

fn put_announced(m: &mut TextMap<Setting>, body: &Json)
    requires
        old(m).ordered(),
    ensures
        final(m).ordered(),
        added_to(*final(m), *old(m), announced(*body)),
{
    let ghost m0 = *m;
    let fleet = body.get("fleet_ids");
    put_implied(m, fleet, "fleet_ids");
    let ghost m1 = *m;
    let ghost s1 = implied(field(*body, "fleet_ids"@), "fleet_ids"@);
    let ghost s2 = match field(*body, "fleet_ids"@) {
        Some(Json::List(v)) => seq![("fleet_size"@, count_setting(v@.len()))],
        _ => Seq::empty(),
    };
    match fleet {
        Some(Json::List(v)) => {
            let n = Setting { display: dec(v.len() as u64), json: dec(v.len() as u64) };
            put_new(m, "fleet_size", n);
        },
        _ => {},
    }
    let ghost m2 = *m;
    put_implied(m, body.get("carrier"), "carrier");
    let ghost m3 = *m;
    put_implied(m, body.get("source"), "endpoint.source");
    proof {
        let s3 = implied(field(*body, "carrier"@), "carrier"@);
        let s4 = implied(field(*body, "source"@), "endpoint.source"@);
        lemma_added_chain(m0, m1, m2, s1, s2);
        lemma_added_chain(m0, m2, m3, s1 + s2, s3);
        lemma_added_chain(m0, m3, *m, s1 + s2 + s3, s4);
    }
}

fn put_synthesized(m: &mut TextMap<Setting>, data: &Vec<Datum>)
    requires
        old(m).ordered(),
    ensures
        final(m).ordered(),
        added_to(*final(m), *old(m), synthesized_upto(datum_views(data@), data@.len())),
{
    let ghost start = *m;
    let ghost ds = datum_views(data@);
    let mut i: usize = 0;
    while i < data.len()
        invariant
            i <= data@.len(),
            ds == datum_views(data@),
            m.ordered(),
            added_to(*m, start, synthesized_upto(ds, i as nat)),
        decreases data@.len() - i,
    {
        assert(ds[i as int] == data@[i as int]@);
        if same(data[i].label.as_str(), "agent.up") {
            let ghost before = *m;
            put_announced(m, &data[i].body);
            proof {
                lemma_added_chain(
                    start,
                    before,
                    *m,
                    synthesized_upto(ds, i as nat),
                    announced(data@[i as int].body),
                );
            }
        }
        i = i + 1;
    }
}

/// Put the data in time order; data of one time keep their order.
fn sort_data(data: &mut Vec<Datum>)
    ensures
        datum_views(final(data)@) == sorted_by(datum_views(old(data)@), time_key()),
        forall|i: int|
            0 <= i < final(data)@.len() ==> old(data)@.contains(#[trigger] final(data)@[i]),
{
    let ghost all = data@;
    let ghost views_all = datum_views(all);
    let n: usize = data.len();
    let mut i: usize = 0;
    proof {
        assert(datum_views(data@.take(0)) =~= sorted_by(views_all.take(0), time_key()));
    }
    while i < n
        invariant
            i <= n,
            n == all.len(),
            data@.len() == n,
            views_all == datum_views(all),
            datum_views(data@.take(i as int)) == sorted_by(views_all.take(i as int), time_key()),
            forall|j: int| i <= j < n ==> data@[j] == all[j],
            forall|j: int| 0 <= j < i ==> all.contains(#[trigger] data@[j]),
        decreases n - i,
    {
        let ghost head = datum_views(data@.take(i as int));
        let ghost held = data@;
        let t: u64 = data[i].t_ns;
        let mut p: usize = i;
        proof {
            sorting_orders(views_all.take(i as int), time_key());
        }
        while p > 0 && data[p - 1].t_ns > t
            invariant
                p <= i < n,
                data@ == held,
                data@.len() == n,
                head == datum_views(data@.take(i as int)),
                forall|j: int| p <= j < i ==> time_key()(#[trigger] head[j]) > t,
            decreases p,
        {
            assert(head[p - 1] == data@[p - 1]@);
            p = p - 1;
        }
        proof {
            let x = held[i as int]@;
            assert(time_key()(x) == t);
            if p > 0 {
                assert(head[p - 1] == held[p - 1]@);
            }
            assert forall|j: int| 0 <= j < p implies time_key()(#[trigger] head[j]) <= time_key()(
                x,
            ) by {
                assert(time_key()(head[j]) <= time_key()(head[p - 1]));
            }
            lemma_insert_at(head, x, time_key(), p as int);
            let v = views_all.take(i + 1);
            assert(v.drop_last() =~= views_all.take(i as int));
            assert(v.last() == x);
            assert(all.contains(all[i as int]));
        }
        if p < i {
            let d = data.remove(i);
            data.insert(p, d);
        }
        proof {
            let x = held[i as int]@;
            assert(datum_views(data@.take(i + 1)) =~= head.insert(p as int, x));
            assert forall|j: int| 0 <= j < i + 1 implies all.contains(#[trigger] data@[j]) by {
                if j < p {
                    assert(data@[j] == held[j]);
                } else if j == p {
                    assert(data@[j] == held[i as int]);
                } else {
                    assert(data@[j] == held[j - 1]);
                }
            }
        }
        i = i + 1;
    }
    assert(data@.take(i as int) =~= data@);
    assert(views_all.take(i as int) =~= views_all);
}

impl MissionDataset {
    /// Finish ingestion: put the data in time order and merge the
    /// configuration records into the run's settings. Without any record the
    /// settings are those that `agent.up` events imply, and the configuration
    /// is marked synthesized.
    pub fn finish(&mut self)
        requires
            old(self).valid(),
        ensures
            final(self).valid(),
            final(self).blocks == old(self).blocks,
            final(self).records == old(self).records,
            final(self).run.run_id == old(self).run.run_id,
            final(self).data() == sorted_by(old(self).data(), time_key()),
            old(self).records().len() == 0 ==> final(self).run.synthesized && added_to(
                final(self).run.settings,
                old(self).run.settings,
                synthesized_upto(final(self).data(), final(self).data().len()),
            ),
            old(self).records().len() > 0 ==> final(self).run.synthesized
                == old(self).run.synthesized && put_over(
                final(self).run.settings,
                old(self).run.settings,
                merged(old(self).records()),
            ),
    {
        let ghost all = self.data@;
        sort_data(&mut self.data);
        proof {
            assert forall|i: int| 0 <= i < self.data@.len() implies (#[trigger] self.data@[i]).block
                < self.blocks@.len() by {
                assert(all.contains(self.data@[i]));
            }
        }
        if self.records.len() == 0 {
            self.run.synthesized = true;
            put_synthesized(&mut self.run.settings, &self.data);
        } else {
            put_merged(&mut self.run.settings, &self.records);
        }
    }

    /// The run's display label: the declared run id, else one made from the
    /// first Block's hash, so an unlabelled run still has a stable name.
    pub fn run_label(&self) -> (r: String)
        ensures
            r@ == label_of(shown(self.run.run_id), self.blocks@),
    {
        match &self.run.run_id {
            Some(id) => id.clone(),
            None => if self.blocks.len() == 0 {
                "run-empty".to_owned()
            } else {
                let h = hex(&self.blocks[0].hash);
                proof {
                    crate::blocks::lemma_hex_text_len(self.blocks@[0].hash@);
                }
                let head = h.as_str().substring_char(0, 8);
                assert(hex_text(self.blocks@[0].hash@).take(8) =~= hex_text(
                    self.blocks@[0].hash@,
                ).subrange(0, 8));
                cat("run-", head)
            },
        }
    }

    /// All vehicle ids seen in the data, in order.
    pub fn vehicles(&self) -> (r: Vec<String>)
        ensures
            views(r@) == sorted_texts(named_vehicles(self.data(), self.data().len())),
    {
        let mut out: Vec<String> = Vec::new();
        let mut i: usize = 0;
        assert(views(out@) =~= named_vehicles(self.data(), 0));
        while i < self.data.len()
            invariant
                i <= self.data@.len(),
                views(out@) == named_vehicles(self.data(), i as nat),
            decreases self.data@.len() - i,
        {
            assert(self.data()[i as int] == self.data@[i as int]@);
            match &self.data[i].vehicle {
                Some(v) => {
                    let ghost before = out@;
                    out.push(v.clone());
                    assert(views(out@) =~= views(before).push(v@));
                },
                None => {},
            }
            i = i + 1;
        }
        sort_texts(&out)
    }

    /// First datum time (ns), 0 when empty.
    pub fn t0(&self) -> (r: u64)
        ensures
            r == if self.data@.len() > 0 {
                self.data@[0].t_ns
            } else {
                0
            },
    {
        if self.data.len() > 0 {
            self.data[0].t_ns
        } else {
            0
        }
    }

    /// Last datum time (ns), 0 when empty.
    pub fn t1(&self) -> (r: u64)
        ensures
            r == if self.data@.len() > 0 {
                self.data@.last().t_ns
            } else {
                0
            },
    {
        if self.data.len() > 0 {
            self.data[self.data.len() - 1].t_ns
        } else {
            0
        }
    }

    /// Positions of the data of one kind, in time order.
    pub fn of_kind(&self, kind: DatumKind) -> (r: Vec<usize>)
        ensures
            r@.map_values(|p: usize| p as int) == places_of_kind(
                self.data(),
                kind,
                self.data().len(),
            ),
    {
        let mut out: Vec<usize> = Vec::new();
        let mut i: usize = 0;
        assert(out@.map_values(|p: usize| p as int) =~= places_of_kind(self.data(), kind, 0));
        while i < self.data.len()
            invariant
                i <= self.data@.len(),
                out@.map_values(|p: usize| p as int) == places_of_kind(self.data(), kind, i as nat),
            decreases self.data@.len() - i,
        {
            assert(self.data()[i as int] == self.data@[i as int]@);
            if self.data[i].kind == kind {
                let ghost before = out@;
                out.push(i);
                assert(out@.map_values(|p: usize| p as int) =~= before.map_values(
                    |p: usize| p as int,
                ).push(i as int));
            }
            i = i + 1;
        }
        out
    }

    /// The citation of one datum's source Block.
    pub fn citation_of(&self, d: &Datum) -> (r: Citation)
        requires
            d.block < self.blocks@.len(),
        ensures
            r@ == self.blocks@[d.block as int].cited(),
    {
        self.blocks[d.block].citation()
    }

    /// The citations of the Blocks that marked data came from, sorted, each once.
    pub fn citations_marked(&self, flags: &Vec<bool>) -> (r: Vec<Citation>)
        requires
            flags@.len() == self.data@.len(),
        ensures
            citation_views(r@) == section_citations(self.blocks@, self.data(), flags@),
    {
        let mut out: Vec<Citation> = Vec::new();
        let mut b: usize = 0;
        let ghost ds = self.data();
        assert(citation_views(out@) =~= sorted_citations(
            marked_citations(self.blocks@, ds, flags@, 0),
        ));
        while b < self.blocks.len()
            invariant
                b <= self.blocks@.len(),
                ds == self.data(),
                flags@.len() == self.data@.len(),
                citation_views(out@) == sorted_citations(
                    marked_citations(self.blocks@, ds, flags@, b as nat),
                ),
            decreases self.blocks@.len() - b,
        {
            let mut j: usize = 0;
            let mut found = false;
            while j < self.data.len() && !found
                invariant
                    j <= self.data@.len(),
                    ds == self.data(),
                    flags@.len() == self.data@.len(),
                    found ==> marked(ds, flags@, b as int),
                    !found ==> forall|k: int|
                        0 <= k < j ==> !(#[trigger] flags@[k] && ds[k].block == b),
                decreases self.data@.len() - j + (if found {
                    0int
                } else {
                    1
                }),
            {
                assert(ds[j as int] == self.data@[j as int]@);
                if flags[j] && self.data[j].block == b {
                    assert(flags@[j as int] && ds[j as int].block == b as int);
                    found = true;
                } else {
                    j = j + 1;
                }
            }
            if found {
                proof {
                    let listed = marked_citations(self.blocks@, ds, flags@, b as nat);
                    lemma_citation_order();
                    distinct_items_rise(listed, citation_order());
                    assert(listed.push(self.blocks@[b as int].cited()).drop_last() =~= listed);
                }
                place_citation(&mut out, self.blocks[b].citation());
            }
            b = b + 1;
        }
        out
    }

    /// Sorted citations, each once, of every Block with a datum that the
    /// predicate picks: the footnotes of a report section.
    pub fn citations_where<F: Fn(&Datum) -> bool>(&self, pred: F) -> (r: Vec<Citation>)
        requires
            forall|d: &Datum| #[trigger] pred.requires((d,)),
        ensures
            exists|flags: Seq<bool>|
                #![trigger section_citations(self.blocks@, self.data(), flags)]
                flags.len() == self.data@.len() && (forall|i: int|
                    0 <= i < flags.len() ==> #[trigger] pred.ensures(
                        (&self.data@[i],),
                        flags[i],
                    )) && citation_views(r@) == section_citations(
                    self.blocks@,
                    self.data(),
                    flags,
                ),
    {
        let mut flags: Vec<bool> = Vec::new();
        let mut i: usize = 0;
        while i < self.data.len()
            invariant
                i <= self.data@.len(),
                flags@.len() == i,
                forall|d: &Datum| #[trigger] pred.requires((d,)),
                forall|j: int|
                    0 <= j < i ==> #[trigger] pred.ensures((&self.data@[j],), flags@[j]),
            decreases self.data@.len() - i,
        {
            let b = pred(&self.data[i]);
            flags.push(b);
            i = i + 1;
        }
        self.citations_marked(&flags)
    }

    /// Every Block's citation, sorted, each once: the provenance set of a
    /// whole artifact.
    pub fn all_citations(&self) -> (r: Vec<Citation>)
        ensures
            citation_views(r@) == cited_blocks(self.blocks@),
    {
        let ghost all = self.blocks@.map_values(|b: BlockRef| b.cited());
        let mut out: Vec<Citation> = Vec::new();
        let mut i: usize = 0;
        assert(citation_views(out@) =~= sorted_citations(all.take(0)));
        while i < self.blocks.len()
            invariant
                i <= self.blocks@.len(),
                all == self.blocks@.map_values(|b: BlockRef| b.cited()),
                citation_views(out@) == sorted_citations(all.take(i as int)),
            decreases self.blocks@.len() - i,
        {
            proof {
                lemma_citation_order();
                distinct_items_rise(all.take(i as int), citation_order());
                assert(all.take(i + 1).drop_last() =~= all.take(i as int));
                assert(all.take(i + 1).last() == all[i as int]);
            }
            place_citation(&mut out, self.blocks[i].citation());
            i = i + 1;
        }
        assert(all.take(i as int) =~= all);
        out
    }
}

/// The citations of Blocks, sorted, each once.
pub open spec fn cited_blocks(blocks: Seq<BlockRef>) -> Seq<CitationView> {
    sorted_citations(blocks.map_values(|b: BlockRef| b.cited()))
}

} // verus!
