//! JSON values as the journals and recordings hold them.
//!
//! A number is kept by how it prints and what it counts and measures.

use serde_json::Value;
use vstd::prelude::*;
use vstd::utf8::encode_utf8;

use crate::blocks::hex_char;
use crate::quantity::Real;
use crate::spelling::{
    alike, entries_spellable, items_spellable, lemma_numerals_are_printable, printable, reads_back,
    spellable, DEEPEST,
};
use crate::text::{cat, dec, dec_text, same};
use crate::text_map::{increasing, keys_of, lemma_before_total, text_before, TextMap};

verus! {

/// A double and its printed forms.
#[derive(Debug)]
pub struct Figure {
    pub real: Real,
    /// Shortest form.
    pub plain: String,
    /// Without decimals.
    pub whole: String,
    /// With one decimal.
    pub tenth: String,
    /// As JSON spells it.
    pub json: String,
}

/// A double and its printed forms, by their characters.
#[verifier::ext_equal]
pub struct FigureView {
    pub real: Real,
    pub plain: Seq<char>,
    pub whole: Seq<char>,
    pub tenth: Seq<char>,
    pub json: Seq<char>,
}

impl View for Figure {
    type V = FigureView;

    open spec fn view(&self) -> FigureView {
        FigureView {
            real: self.real,
            plain: self.plain@,
            whole: self.whole@,
            tenth: self.tenth@,
            json: self.json@,
        }
    }
}

impl Clone for Figure {
    fn clone(&self) -> (r: Self)
        ensures
            r == *self,
    {
        Figure {
            real: self.real,
            plain: self.plain.clone(),
            whole: self.whole.clone(),
            tenth: self.tenth.clone(),
            json: self.json.clone(),
        }
    }
}

/// A JSON value.
#[derive(Debug)]
pub enum Json {
    Null,
    Bool(bool),
    /// How it prints, its value when it is a 64-bit count, and its double.
    Number(String, Option<u64>, Option<Figure>),
    Text(String),
    List(Vec<Json>),
    /// Entries in the order of their keys.
    Object(Vec<(String, Json)>),
}

/// Whether the entries of a value, if it has any, are in the order of their
/// keys.
pub open spec fn in_key_order(j: Json) -> bool {
    match j {
        Json::Object(v) => increasing(keys_of(v@)),
        _ => true,
    }
}

/// `serde_json::Value`, the outside crate's JSON value.
#[verifier::external_type_specification]
#[verifier::external_body]
pub struct ExValue(serde_json::Value);

/// What a `serde_json::Value` holds.
pub uninterp spec fn held(v: Value) -> Json;

/// The value that bytes spell, if they spell one.
pub uninterp spec fn json_of(bytes: Seq<u8>) -> Option<Json>;

/// `serde_json::from_slice`: the value that the bytes spell, or nothing when
/// they are not one JSON value. The spelling of a value is read as that value,
/// but for the rounding of doubles. Nothing is said of other bytes.
#[verifier::external_body]
fn read_value(bytes: &[u8]) -> (r: Option<Value>)
    ensures
        match r {
            Some(v) => json_of(bytes@) == Some(held(v)),
            None => json_of(bytes@) is None,
        },
        forall|j: Json|
            spellable(j, DEEPEST as nat) && bytes@ == encode_utf8(#[trigger] printed(j)) ==> (r
                is Some && alike(j, held(r->0))),
{
    serde_json::from_slice(bytes).ok()
}

/// A `serde_json::Value` variant by variant; a number by what
/// `serde_json::Number` prints, its `as_u64` and its `as_f64`, the latter also
/// as `format` prints it and as a JSON number. The entries of a
/// `serde_json::Map` come in the order of their keys.
#[verifier::external_body]
fn from_value(v: Value) -> (r: Json)
    ensures
        r == held(v),
        in_key_order(r),
{
    match v {
        Value::Null => Json::Null,
        Value::Bool(b) => Json::Bool(b),
        Value::Number(n) => Json::Number(n.to_string(), n.as_u64(), n.as_f64().map(|x| Figure {
            real: Real { bits: x.to_bits() },
            plain: format!("{x}"),
            whole: format!("{x:.0}"),
            tenth: format!("{x:.1}"),
            json: Value::from(x).to_string(),
        })),
        Value::String(s) => Json::Text(s),
        Value::Array(a) => Json::List(a.into_iter().map(from_value).collect()),
        Value::Object(m) => Json::Object(m.into_iter().map(|(k, x)| (k, from_value(x))).collect()),
    }
}

/// The value that bytes spell; `None` when they are not one JSON value. The
/// spelling of a value is read as that value, but for the rounding of doubles.
pub fn parse_json(bytes: &[u8]) -> (r: Option<Json>)
    ensures
        r == json_of(bytes@),
        r is Some ==> in_key_order(r->0),
        reads_back(bytes@),
{
    match read_value(bytes) {
        Some(v) => Some(from_value(v)),
        None => None,
    }
}

/// How JSON spells a character within a text: quotes, backslashes and control
/// characters are escaped, by a letter of their own or by their code.
pub open spec fn spelled_char(c: char) -> Seq<char> {
    let code = c as u32;
    if c == '"' || c == '\\' {
        seq!['\\', c]
    } else if code == 8 {
        seq!['\\', 'b']
    } else if code == 9 {
        seq!['\\', 't']
    } else if code == 10 {
        seq!['\\', 'n']
    } else if code == 12 {
        seq!['\\', 'f']
    } else if code == 13 {
        seq!['\\', 'r']
    } else if code < 32 {
        seq!['\\', 'u', '0', '0', hex_char((code / 16) as int), hex_char((code % 16) as int)]
    } else {
        seq![c]
    }
}

/// How JSON spells the characters of a text.
pub open spec fn spelled(s: Seq<char>) -> Seq<char>
    decreases s.len(),
{
    if s.len() == 0 {
        Seq::empty()
    } else {
        spelled(s.drop_last()) + spelled_char(s.last())
    }
}

/// The JSON spelling of a text: in quotes.
pub open spec fn quoted(s: Seq<char>) -> Seq<char> {
    seq!['"'] + spelled(s) + seq!['"']
}

proof fn lemma_spelled_printable(s: Seq<char>)
    ensures
        printable(spelled(s)),
    decreases s.len(),
{
    if s.len() > 0 {
        lemma_spelled_printable(s.drop_last());
        let code = s.last() as u32;
        if code < 32 {
            assert(0 <= code / 16 < 16 && 0 <= code % 16 < 16);
        }
        assert(printable(spelled_char(s.last())));
    }
}

/// The spelling of a text is on one line.
pub proof fn lemma_quoted_printable(s: Seq<char>)
    ensures
        printable(quoted(s)),
{
    lemma_spelled_printable(s);
}

/// `serde_json::to_string` of a text: the text in quotes, with escapes for
/// quotes, backslashes and control characters. It does not fail on texts.
#[verifier::external_body]
pub(crate) fn quote(s: &str) -> (r: String)
    ensures
        r@ == quoted(s@),
{
    serde_json::to_string(s).unwrap_or_default()
}

/// The compact spelling of a value.
pub open spec fn printed(j: Json) -> Seq<char>
    decreases j, 0nat,
{
    match j {
        Json::Null => "null"@,
        Json::Bool(b) => if b {
            "true"@
        } else {
            "false"@
        },
        Json::Number(text, _, _) => text@,
        Json::Text(s) => quoted(s@),
        Json::List(v) => "["@ + printed_items(v@, v@.len()) + "]"@,
        Json::Object(v) => "{"@ + printed_entries(v@, v@.len()) + "}"@,
    }
}

/// The first `n` items with commas between them.
pub open spec fn printed_items(s: Seq<Json>, n: nat) -> Seq<char>
    decreases s, n,
{
    if n == 0 || n > s.len() {
        Seq::empty()
    } else if n == 1 {
        printed(s[0])
    } else {
        printed_items(s, (n - 1) as nat) + ","@ + printed(s[n - 1])
    }
}

/// The first `n` entries with commas between them.
pub open spec fn printed_entries(s: Seq<(String, Json)>, n: nat) -> Seq<char>
    decreases s, n,
{
    if n == 0 || n > s.len() {
        Seq::empty()
    } else {
        let entry = quoted(s[n - 1].0@) + ":"@ + printed(s[n - 1].1);
        if n == 1 {
            entry
        } else {
            printed_entries(s, (n - 1) as nat) + ","@ + entry
        }
    }
}

/// Place of a key among entries, or their number.
pub open spec fn key_place(s: Seq<(String, Json)>, key: Seq<char>) -> int
    decreases s.len(),
{
    if s.len() == 0 {
        0
    } else if s[0].0@ == key {
        0
    } else {
        1 + key_place(s.skip(1), key)
    }
}

/// The field of an object; `None` for a missing one and for other values.
pub open spec fn field(j: Json, key: Seq<char>) -> Option<Json> {
    match j {
        Json::Object(v) => {
            let k = key_place(v@, key);
            if 0 <= k < v@.len() {
                Some(v@[k].1)
            } else {
                None
            }
        },
        _ => None,
    }
}

/// The text of a value that is one.
pub open spec fn text_of(j: Option<Json>) -> Option<Seq<char>> {
    match j {
        Some(Json::Text(s)) => Some(s@),
        _ => None,
    }
}

/// The 64-bit count of a value that is one.
pub open spec fn count_of(j: Option<Json>) -> Option<u64> {
    match j {
        Some(Json::Number(_, count, _)) => count,
        _ => None,
    }
}

/// The double of a value that is a number.
pub open spec fn figure_of(j: Option<Json>) -> Option<FigureView> {
    match j {
        Some(Json::Number(_, _, figure)) => match figure {
            Some(f) => Some(f@),
            None => None,
        },
        _ => None,
    }
}

/// An optional double by its view.
pub open spec fn seen(f: Option<Figure>) -> Option<FigureView> {
    match f {
        Some(x) => Some(x@),
        None => None,
    }
}

/// The flag of a value that is one.
pub open spec fn flag_of(j: Option<Json>) -> Option<bool> {
    match j {
        Some(Json::Bool(b)) => Some(b),
        _ => None,
    }
}

/// Where a key is, if no entry before it has it.
pub proof fn lemma_key_place(s: Seq<(String, Json)>, key: Seq<char>, k: int)
    requires
        0 <= k <= s.len(),
        forall|i: int| 0 <= i < k ==> (#[trigger] s[i]).0@ != key,
        k < s.len() ==> s[k].0@ == key,
    ensures
        key_place(s, key) == k,
    decreases s.len(),
{
    if s.len() > 0 && k > 0 {
        assert(s[0].0@ != key);
        let t = s.skip(1);
        assert forall|i: int| 0 <= i < k - 1 implies (#[trigger] t[i]).0@ != key by {
            assert(t[i] == s[i + 1]);
        }
        lemma_key_place(t, key, k - 1);
    }
}

fn find_key(entries: &Vec<(String, Json)>, key: &str) -> (r: usize)
    ensures
        r == key_place(entries@, key@),
        r <= entries@.len(),
{
    let mut i: usize = 0;
    while i < entries.len() && !same(entries[i].0.as_str(), key)
        invariant
            i <= entries@.len(),
            forall|j: int| 0 <= j < i ==> (#[trigger] entries@[j]).0@ != key@,
        decreases entries@.len() - i,
    {
        i = i + 1;
    }
    proof {
        lemma_key_place(entries@, key@, i as int);
    }
    i
}

impl Json {
    /// The field of an object.
    pub fn get(&self, key: &str) -> (r: Option<&Json>)
        ensures
            match r {
                Some(j) => field(*self, key@) == Some(*j),
                None => field(*self, key@) is None,
            },
    {
        match self {
            Json::Object(v) => {
                let k: usize = find_key(v, key);
                if k < v.len() {
                    Some(&v[k].1)
                } else {
                    None
                }
            },
            _ => None,
        }
    }

    /// Take a field out of an object; other values have none.
    pub fn into_field(self, key: &str) -> (r: Option<Json>)
        ensures
            r == field(self, key@),
    {
        match self {
            Json::Object(v) => {
                let mut v = v;
                let k: usize = find_key(&v, key);
                if k < v.len() {
                    let e = v.remove(k);
                    Some(e.1)
                } else {
                    None
                }
            },
            _ => None,
        }
    }

    /// The text of a field that is one.
    pub fn text_field(&self, key: &str) -> (r: Option<String>)
        ensures
            match r {
                Some(s) => text_of(field(*self, key@)) == Some(s@),
                None => text_of(field(*self, key@)) is None,
            },
    {
        match self.get(key) {
            Some(Json::Text(s)) => Some(s.clone()),
            _ => None,
        }
    }

    /// The 64-bit count of a field that is one.
    pub fn count_field(&self, key: &str) -> (r: Option<u64>)
        ensures
            r == count_of(field(*self, key@)),
    {
        match self.get(key) {
            Some(Json::Number(_, count, _)) => *count,
            _ => None,
        }
    }

    /// The double of a field that is a number.
    pub fn figure_field(&self, key: &str) -> (r: Option<Figure>)
        ensures
            seen(r) == figure_of(field(*self, key@)),
    {
        match self.get(key) {
            Some(Json::Number(_, _, figure)) => match figure {
                Some(f) => Some(f.clone()),
                None => None,
            },
            _ => None,
        }
    }

    /// The flag of a field that is one.
    pub fn flag_field(&self, key: &str) -> (r: Option<bool>)
        ensures
            r == flag_of(field(*self, key@)),
    {
        match self.get(key) {
            Some(Json::Bool(b)) => Some(*b),
            _ => None,
        }
    }

    /// The compact spelling: one line, where the numbers are spelled as such.
    pub fn print(&self) -> (r: String)
        ensures
            r@ == printed(*self),
            forall|depth: nat| #[trigger] spellable(*self, depth) ==> printable(r@),
        decreases self,
    {
        match self {
            Json::Null => {
                proof {
                    reveal_strlit("null");
                }
                "null".to_owned()
            },
            Json::Bool(b) => {
                proof {
                    reveal_strlit("true");
                    reveal_strlit("false");
                }
                if *b {
                    "true".to_owned()
                } else {
                    "false".to_owned()
                }
            },
            Json::Number(text, count, _) => {
                proof {
                    match count {
                        Some(n) => lemma_numerals_are_printable(*n as nat),
                        None => {},
                    }
                }
                text.clone()
            },
            Json::Text(s) => {
                proof {
                    lemma_quoted_printable(s@);
                }
                quote(s.as_str())
            },
            Json::List(v) => {
                proof {
                    reveal_strlit("[");
                    reveal_strlit(",");
                    reveal_strlit("]");
                }
                let mut inner = String::new();
                let mut i: usize = 0;
                while i < v.len()
                    invariant
                        i <= v@.len(),
                        *self == Json::List(*v),
                        ","@.len() == 1 && ","@[0] == ',',
                        inner@ == printed_items(v@, i as nat),
                        forall|depth: nat| #[trigger]
                            items_spellable(v@, i as nat, depth) ==> printable(inner@),
                    decreases v@.len() - i,
                {
                    let ghost before = inner@;
                    if i > 0 {
                        inner.append(",");
                    }
                    assert(decreases_to!(*self => self->List_0));
                    assert(decreases_to!(v => v@));
                    assert(decreases_to!(v@ => v@[i as int]));
                    inner.append(v[i].print().as_str());
                    proof {
                        if i == 0 {
                            assert(inner@ =~= printed(v@[0]));
                        }
                    }
                    i = i + 1;
                    proof {
                        assert forall|depth: nat| #[trigger]
                            items_spellable(v@, i as nat, depth) implies printable(inner@) by {
                            assert(items_spellable(v@, (i - 1) as nat, depth));
                            assert(spellable(v@[i - 1], depth));
                            assert(printable(before));
                        }
                    }
                }
                let mut s = cat("[", inner.as_str());
                s.append("]");
                proof {
                    assert forall|depth: nat| #[trigger] spellable(*self, depth) implies printable(
                        s@,
                    ) by {
                        assert(items_spellable(v@, v@.len(), (depth - 1) as nat));
                    }
                }
                s
            },
            Json::Object(v) => {
                proof {
                    reveal_strlit("{");
                    reveal_strlit(",");
                    reveal_strlit(":");
                    reveal_strlit("}");
                }
                let mut inner = String::new();
                let mut i: usize = 0;
                while i < v.len()
                    invariant
                        i <= v@.len(),
                        *self == Json::Object(*v),
                        ","@.len() == 1 && ","@[0] == ',',
                        ":"@.len() == 1 && ":"@[0] == ':',
                        inner@ == printed_entries(v@, i as nat),
                        forall|depth: nat| #[trigger]
                            entries_spellable(v@, i as nat, depth) ==> printable(inner@),
                    decreases v@.len() - i,
                {
                    let ghost before = inner@;
                    if i > 0 {
                        inner.append(",");
                    }
                    let ghost head = inner@;
                    proof {
                        lemma_quoted_printable(v@[i as int].0@);
                    }
                    let key = quote(v[i].0.as_str());
                    inner.append(key.as_str());
                    inner.append(":");
                    assert(decreases_to!(*self => self->Object_0));
                    assert(decreases_to!(v => v@));
                    assert(decreases_to!(v@ => v@[i as int]));
                    assert(decreases_to!(v@[i as int] => v@[i as int].1));
                    inner.append(v[i].1.print().as_str());
                    proof {
                        let e = quoted(v@[i as int].0@) + ":"@ + printed(v@[i as int].1);
                        assert(inner@ =~= head + e);
                        if i == 0 {
                            assert(inner@ =~= e);
                        }
                    }
                    i = i + 1;
                    proof {
                        assert forall|depth: nat| #[trigger]
                            entries_spellable(v@, i as nat, depth) implies printable(inner@) by {
                            assert(entries_spellable(v@, (i - 1) as nat, depth));
                            assert(spellable(v@[i - 1].1, depth));
                            assert(printable(before));
                        }
                    }
                }
                let mut s = cat("{", inner.as_str());
                s.append("}");
                proof {
                    assert forall|depth: nat| #[trigger] spellable(*self, depth) implies printable(
                        s@,
                    ) by {
                        assert(entries_spellable(v@, v@.len(), (depth - 1) as nat));
                    }
                }
                s
            },
        }
    }
}

/// Whether a value can be read as a record of `count` members: an object, or
/// the members in their order.
pub open spec fn is_record(j: Json, count: nat) -> bool {
    match j {
        Json::Object(_) => true,
        Json::List(v) => v@.len() <= count,
        _ => false,
    }
}

/// A member of a record, by its key or its position.
pub open spec fn member(j: Json, key: Seq<char>, place: nat) -> Option<Json> {
    match j {
        Json::List(v) => if place < v@.len() {
            Some(v@[place as int])
        } else {
            None
        },
        _ => field(j, key),
    }
}

impl Json {
    /// Whether the value can be read as a record.
    pub fn has_members(&self, count: usize) -> (r: bool)
        ensures
            r == is_record(*self, count as nat),
    {
        match self {
            Json::Object(_) => true,
            Json::List(v) => v.len() <= count,
            _ => false,
        }
    }

    /// A member of a record.
    pub fn member_at(&self, key: &str, place: usize) -> (r: Option<&Json>)
        ensures
            match r {
                Some(j) => member(*self, key@, place as nat) == Some(*j),
                None => member(*self, key@, place as nat) is None,
            },
    {
        match self {
            Json::List(v) => if place < v.len() {
                Some(&v[place])
            } else {
                None
            },
            _ => self.get(key),
        }
    }

    /// The double of a value that is a number.
    pub fn as_figure(&self) -> (r: Option<Figure>)
        ensures
            seen(r) == figure_of(Some(*self)),
    {
        match self {
            Json::Number(_, _, figure) => match figure {
                Some(f) => Some(f.clone()),
                None => None,
            },
            _ => None,
        }
    }

    /// The 64-bit count of a value that is one.
    pub fn as_count(&self) -> (r: Option<u64>)
        ensures
            r == count_of(Some(*self)),
    {
        match self {
            Json::Number(_, count, _) => *count,
            _ => None,
        }
    }

    /// The text of a value that is one.
    pub fn as_text(&self) -> (r: Option<String>)
        ensures
            match r {
                Some(s) => text_of(Some(*self)) == Some(s@),
                None => text_of(Some(*self)) is None,
            },
    {
        match self {
            Json::Text(s) => Some(s.clone()),
            _ => None,
        }
    }

    /// A count.
    pub fn from_count(n: u64) -> (r: Json)
        ensures
            count_of(Some(r)) == Some(n),
            printed(r) == dec_text(n as nat),
            r is Number,
            forall|depth: nat| #[trigger] spellable(r, depth),
    {
        Json::Number(dec(n), Some(n), None)
    }

    /// Set a field of an object's entries that are in order.
    pub fn set_field(entries: Vec<(String, Json)>, key: &str, value: Json) -> (r: Vec<
        (String, Json),
    >)
        requires
            increasing(keys_of(entries@)),
        ensures
            increasing(keys_of(r@)),
            forall|k: Seq<char>| #[trigger]
                field_in(r@, k) == (if k == key@ {
                    Some(value)
                } else {
                    field_in(entries@, k)
                }),
    {
        let mut m = TextMap::from_entries(entries);
        let ghost before = m;
        m.insert(key.to_owned(), value);
        let r = m.into_entries();
        proof {
            assert forall|k: Seq<char>| #[trigger] field_in(r@, k) == (if k == key@ {
                Some(value)
            } else {
                field_in(entries@, k)
            }) by {
                lemma_field_is_lookup(m, k);
                lemma_field_is_lookup(before, k);
            }
        }
        r
    }
}

/// The field of an object with these entries.
pub open spec fn field_in(s: Seq<(String, Json)>, key: Seq<char>) -> Option<Json> {
    let k = key_place(s, key);
    if 0 <= k < s.len() {
        Some(s[k].1)
    } else {
        None
    }
}

proof fn lemma_field_is_lookup(m: TextMap<Json>, key: Seq<char>)
    requires
        m.ordered(),
    ensures
        field_in(m.list(), key) == m.lookup(key),
{
    let s = m.list();
    if m.has(key) {
        let p = m.place(key);
        assert(m.keys()[p] == key);
        assert forall|i: int| 0 <= i < p implies (#[trigger] s[i]).0@ != key by {
            assert(text_before(m.keys()[i], m.keys()[p]));
            lemma_before_total(key, key);
        }
        lemma_key_place(s, key, p);
    } else {
        assert forall|i: int| 0 <= i < s.len() implies (#[trigger] s[i]).0@ != key by {
            if s[i].0@ == key {
                assert(m.keys()[i] == key);
            }
        }
        lemma_key_place(s, key, s.len() as int);
    }
}

} // verus!
