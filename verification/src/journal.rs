//! The event journal: how events become lines, and how lines are gathered for
//! the chain that mirrors them. Writing is left to the program: a journal that
//! fails must never take the agent down.

use vstd::prelude::*;

use crate::dataset::{declared_run, first_of, journal_class, journal_datum, DatumView};
use crate::json::{count_of, field, field_in, in_key_order, key_place, printed, text_of, Json};
use crate::metrics::{service_call, service_refusal};
use crate::services::Ack;
use crate::spelling::{
    lemma_entries_by_field, lemma_field_of_entries, printable, spellable,
};
use crate::text::{cat, dec, dec_text};
use crate::text_map::{increasing, keys_of};

verus! {

/// What the journal holds of an event: its fields, or a value that is no
/// object under `value`.
pub open spec fn event_field(fields: Json, key: Seq<char>) -> Option<Json> {
    match fields {
        Json::Object(_) => field(fields, key),
        _ => if key == "value"@ {
            Some(fields)
        } else {
            None
        },
    }
}

/// Whether a value is an object with its entries in order.
pub open spec fn is_line(j: Json) -> bool {
    j is Object && in_key_order(j)
}

fn entries_of(fields: Json) -> (r: Vec<(String, Json)>)
    requires
        in_key_order(fields),
    ensures
        increasing(keys_of(r@)),
        forall|k: Seq<char>| #[trigger] field_in(r@, k) == event_field(fields, k),
{
    match fields {
        Json::Object(v) => {
            proof {
                assert forall|k: Seq<char>| #[trigger] field_in(v@, k) == event_field(
                    Json::Object(v),
                    k,
                ) by {}
            }
            v
        },
        other => {
            let none: Vec<(String, Json)> = Vec::new();
            assert(keys_of(none@) =~= Seq::empty());
            let r = Json::set_field(none, "value", other);
            proof {
                assert forall|k: Seq<char>| #[trigger] field_in(r@, k) == event_field(other, k) by {
                    assert(field_in(none@, k) is None);
                }
            }
            r
        },
    }
}

/// An object stays one that can be spelled when it gets new fields that can.
proof fn lemma_line_spellable(line: Json, more: Json, added: Seq<Seq<char>>, depth: nat)
    requires
        is_line(line),
        is_line(more),
        spellable(line, depth),
        forall|k: Seq<char>|
            !added.contains(k) ==> #[trigger] field(more, k) == field(line, k),
        forall|i: int|
            0 <= i < added.len() ==> field(more, #[trigger] added[i]) is Some && (field(
                more,
                added[i],
            )->0 is Text || field(more, added[i])->0 is Number && spellable(
                field(more, added[i])->0,
                (depth - 1) as nat,
            )),
    ensures
        spellable(more, depth),
{
    let below = (depth - 1) as nat;
    match (line, more) {
        (Json::Object(v), Json::Object(w)) => {
            assert forall|k: Seq<char>| #[trigger] field_in(w@, k) is Some implies spellable(
                field_in(w@, k)->0,
                below,
            ) by {
                assert(field(more, k) == field_in(w@, k));
                if added.contains(k) {
                    let i = choose|i: int| 0 <= i < added.len() && added[i] == k;
                    assert(field(more, added[i]) is Some);
                } else {
                    assert(field(more, k) == field(line, k));
                    let p = key_place(v@, k);
                    lemma_field_of_entries(v@, v@.len(), below, p);
                }
            }
            lemma_entries_by_field(w@, w@.len(), below);
        },
        _ => {},
    }
}

/// The event of a kind at a time, with its fields beside them.
pub fn event(kind: &str, fields: Json, ts_ns: u64) -> (r: Json)
    requires
        in_key_order(fields),
    ensures
        is_line(r),
        text_of(field(r, "kind"@)) == Some(kind@),
        count_of(field(r, "ts_ns"@)) == Some(ts_ns),
        forall|k: Seq<char>|
            k != "kind"@ && k != "ts_ns"@ ==> #[trigger] field(r, k) == event_field(fields, k),
        forall|depth: nat|
            fields is Object && #[trigger] spellable(fields, depth) ==> spellable(r, depth),
{
    let v0 = entries_of(fields);
    let ghost s0 = v0@;
    let text = Json::Text(kind.to_owned());
    let v1 = Json::set_field(v0, "kind", text);
    let ghost s1 = v1@;
    let count = Json::from_count(ts_ns);
    let v2 = Json::set_field(v1, "ts_ns", count);
    proof {
        assert(field_in(v2@, "ts_ns"@) == Some(count));
        reveal_strlit("kind");
        reveal_strlit("ts_ns");
        assert("kind"@.len() == 4);
        assert("ts_ns"@.len() == 5);
        assert(field_in(s1, "kind"@) == Some(text));
        assert(field_in(v2@, "kind"@) == Some(text));
    }
    let ghost s2 = v2@;
    let r = Json::Object(v2);
    proof {
        assert forall|k: Seq<char>| k != "kind"@ && k != "ts_ns"@ implies #[trigger] field(r, k)
            == event_field(fields, k) by {
            assert(field_in(s2, k) == field_in(s1, k));
            assert(field_in(s1, k) == field_in(s0, k));
        }
        assert forall|depth: nat|
            fields is Object && #[trigger] spellable(fields, depth) implies spellable(
            r,
            depth,
        ) by {
            let added = seq!["kind"@, "ts_ns"@];
            assert forall|k: Seq<char>| !added.contains(k) implies #[trigger] field(r, k) == field(
                fields,
                k,
            ) by {
                assert(added[0] == "kind"@);
                assert(added[1] == "ts_ns"@);
            }
            lemma_line_spellable(fields, r, added, depth);
        }
    }
    r
}

/// Whether `r` is a line with a text under a key, unless the line has that key.
pub open spec fn stamped(line: Json, key: Seq<char>, text: Seq<char>, r: Json) -> bool {
    &&& forall|k: Seq<char>| k != key ==> #[trigger] field(r, k) == field(line, k)
    &&& match field(line, key) {
        Some(_) => r == line,
        None => text_of(field(r, key)) == Some(text),
    }
}

fn stamp(line: Json, key: &str, text: &str) -> (r: Json)
    requires
        is_line(line),
    ensures
        is_line(r),
        stamped(line, key@, text@, r),
        forall|depth: nat| #[trigger] spellable(line, depth) ==> spellable(r, depth),
{
    if line.get(key).is_some() {
        return line;
    }
    match line {
        Json::Object(v) => {
            let value = Json::Text(text.to_owned());
            let entries = Json::set_field(v, key, value);
            let r = Json::Object(entries);
            proof {
                assert(field_in(entries@, key@) == Some(value));
                assert forall|k: Seq<char>| k != key@ implies #[trigger] field(r, k) == field(
                    line,
                    k,
                ) by {
                    assert(field_in(entries@, k) == field_in(v@, k));
                }
                assert forall|depth: nat| #[trigger] spellable(line, depth) implies spellable(
                    r,
                    depth,
                ) by {
                    let added = seq![key@];
                    assert forall|k: Seq<char>| !added.contains(k) implies #[trigger] field(r, k)
                        == field(line, k) by {
                        assert(added[0] == key@);
                    }
                    lemma_line_spellable(line, r, added, depth);
                }
            }
            r
        },
        other => other,
    }
}

/// The line of an event: tagged with the vehicle unless it names one.
pub fn tagged(line: Json, vehicle_id: &str) -> (r: Json)
    requires
        is_line(line),
    ensures
        is_line(r),
        stamped(line, "vehicle_id"@, vehicle_id@, r),
        forall|depth: nat| #[trigger] spellable(line, depth) ==> spellable(r, depth),
{
    stamp(line, "vehicle_id", vehicle_id)
}

/// The line of a deployment's run: tagged with the run, if there is one,
/// unless the line names one.
pub fn of_run(line: Json, run_id: Option<&str>) -> (r: Json)
    requires
        is_line(line),
    ensures
        is_line(r),
        match run_id {
            Some(id) => stamped(line, "run_id"@, id@, r),
            None => r == line,
        },
        forall|depth: nat| #[trigger] spellable(line, depth) ==> spellable(r, depth),
{
    match run_id {
        Some(id) => stamp(line, "run_id", id),
        None => line,
    }
}

/// The text of a line with its line feed, the only one in it.
pub fn line_text(line: &Json) -> (r: String)
    ensures
        r@ == printed(*line) + "\n"@,
        forall|depth: nat| #[trigger] spellable(*line, depth) ==> printable(printed(*line)),
{
    let mut s = line.print();
    s.append("\n");
    s
}

/// The name of the journal file of a vehicle that starts at a time.
pub fn file_name(vehicle_id: &str, start_ns: u64) -> (r: String)
    ensures
        r@ == "agent-"@ + vehicle_id@ + "-"@ + dec_text((start_ns / 1_000_000_000) as nat)
            + ".jsonl"@,
{
    let mut s = cat("agent-", vehicle_id);
    s.append("-");
    s.append(dec(start_ns / 1_000_000_000).as_str());
    s.append(".jsonl");
    s
}

/// Lines gathered for the chain since its last Block.
#[derive(Debug)]
pub struct Batch {
    /// Whether a chain is attached.
    pub attached: bool,
    pub text: String,
}

impl Batch {
    /// Nothing gathered.
    pub fn new(attached: bool) -> (r: Self)
        ensures
            r.attached == attached,
            r.text@ == Seq::<char>::empty(),
    {
        Batch { attached, text: String::new() }
    }

    /// Gather a line, if a chain is attached.
    pub fn gather(&mut self, line: &str)
        ensures
            final(self).attached == old(self).attached,
            final(self).text@ == (if old(self).attached {
                old(self).text@ + line@
            } else {
                old(self).text@
            }),
    {
        if self.attached {
            self.text.append(line);
        }
    }

    /// The payload of the next Block: what was gathered, if anything was. It
    /// is taken whether or not it can be published.
    pub fn cut(&mut self) -> (r: Option<String>)
        ensures
            final(self).attached == old(self).attached,
            final(self).text@ == Seq::<char>::empty(),
            match r {
                Some(s) => old(self).attached && s@ == old(self).text@ && s@.len() > 0,
                None => !old(self).attached || old(self).text@.len() == 0,
            },
    {
        let full = self.text.clone();
        self.text = String::new();
        if self.attached && full.as_str().unicode_len() > 0 {
            Some(full)
        } else {
            assert(self.text@ =~= Seq::<char>::empty());
            None
        }
    }
}

/// The line of an event is the datum of its kind and time, and of the vehicle
/// that journaled it unless the event names one.
pub proof fn journal_lines_become_data(
    line: Json,
    kind: Seq<char>,
    ts_ns: u64,
    vehicle: Seq<char>,
    block: int,
)
    requires
        text_of(field(line, "kind"@)) == Some(kind),
        count_of(field(line, "ts_ns"@)) == Some(ts_ns),
        text_of(field(line, "vehicle_id"@)) == Some(vehicle),
    ensures
        journal_datum(block, line) == (DatumView {
            block,
            t_ns: ts_ns,
            vehicle: Some(vehicle),
            kind: journal_class(kind),
            label: kind,
            body: line,
        }),
{
}

/// A line that is tagged with its run declares it: a dataset that has no run
/// yet takes it from there.
pub proof fn tagged_lines_declare_their_run(line: Json, run: Seq<char>, tagged_line: Json)
    requires
        field(line, "run_id"@) is None,
        stamped(line, "run_id"@, run, tagged_line),
    ensures
        declared_run(tagged_line) == Some(run),
        first_of(None, declared_run(tagged_line)) == Some(run),
{
}

/// The kind of a service's journal events.
pub open spec fn service_kind(op: Seq<char>) -> Seq<char> {
    "service."@ + op
}

/// The fields of an answered service request.
pub open spec fn ack_keys() -> Seq<Seq<char>> {
    seq!["accepted"@, "code"@, "detail"@, "request"@]
}

/// The journal event of an answered service request: its kind and its fields,
/// which are these four.
pub fn ack_event(op: &str, request: Json, ack: &Ack) -> (r: (String, Json))
    ensures
        r.0@ == service_kind(op@),
        is_line(r.1),
        field(r.1, "accepted"@) == Some(Json::Bool(ack.accepted)),
        text_of(field(r.1, "code"@)) == Some(ack@.code),
        text_of(field(r.1, "detail"@)) == Some(ack@.detail),
        field(r.1, "request"@) == Some(request),
        forall|k: Seq<char>| #[trigger] field(r.1, k) is Some ==> ack_keys().contains(k),
{
    let kind = cat("service.", op);
    let none: Vec<(String, Json)> = Vec::new();
    let ghost s0 = none@;
    assert(keys_of(none@) =~= Seq::empty());
    let code = Json::Text(ack.code.clone());
    let detail = Json::Text(ack.detail.clone());
    let v = Json::set_field(none, "accepted", Json::Bool(ack.accepted));
    let ghost s1 = v@;
    let v = Json::set_field(v, "code", code);
    let ghost s2 = v@;
    let v = Json::set_field(v, "detail", detail);
    let ghost s3 = v@;
    let v = Json::set_field(v, "request", request);
    proof {
        reveal_strlit("accepted");
        reveal_strlit("code");
        reveal_strlit("detail");
        reveal_strlit("request");
        assert("accepted"@.len() == 8);
        assert("code"@.len() == 4);
        assert("detail"@.len() == 6);
        assert("request"@.len() == 7);
        assert(field_in(s1, "accepted"@) == Some(Json::Bool(ack.accepted)));
        assert(field_in(s2, "accepted"@) == Some(Json::Bool(ack.accepted)));
        assert(field_in(s3, "accepted"@) == Some(Json::Bool(ack.accepted)));
        assert(field_in(v@, "accepted"@) == Some(Json::Bool(ack.accepted)));
        assert(field_in(s2, "code"@) == Some(code));
        assert(field_in(s3, "code"@) == Some(code));
        assert(field_in(v@, "code"@) == Some(code));
        assert(field_in(s3, "detail"@) == Some(detail));
        assert(field_in(v@, "detail"@) == Some(detail));
        assert(field_in(v@, "request"@) == Some(request));
        let keys = ack_keys();
        assert(keys[0] == "accepted"@ && keys[1] == "code"@);
        assert(keys[2] == "detail"@ && keys[3] == "request"@);
        assert forall|k: Seq<char>| #[trigger] field(Json::Object(v), k) is Some implies ack_keys(
        ).contains(k) by {
            assert(field(Json::Object(v), k) == field_in(v@, k));
            assert(field_in(s0, k) is None);
            if !ack_keys().contains(k) {
                assert(field_in(v@, k) == field_in(s3, k));
                assert(field_in(s3, k) == field_in(s2, k));
                assert(field_in(s2, k) == field_in(s1, k));
                assert(field_in(s1, k) == field_in(s0, k));
            }
        }
    }
    (kind, Json::Object(v))
}

/// An answered service request, journaled and read back, is counted as a
/// service call, and as a rejected one exactly when it was not accepted.
pub proof fn answered_requests_are_counted(line: Json, op: Seq<char>, accepted: bool, block: int)
    requires
        text_of(field(line, "kind"@)) == Some(service_kind(op)),
        field(line, "accepted"@) == Some(Json::Bool(accepted)),
    ensures
        service_call()(journal_datum(block, line)),
        service_refusal()(journal_datum(block, line)) == !accepted,
{
    reveal_strlit("service.");
    reveal_strlit("coord.");
    let kind = service_kind(op);
    assert(kind.take(8) =~= "service."@);
    assert(kind[0] == 's');
    if kind.len() >= 6 && kind.take(6) == "coord."@ {
        assert(kind.take(6)[0] == 'c');
    }
}

} // verus!
