//! What survives being spelled as JSON and read again.
//!
//! Texts, flags, counts, lists and keys come back as they were. A number that
//! is no count comes back as a number: reading rounds doubles.

use serde_json::Value;
use vstd::prelude::*;
use vstd::utf8::{encode_scalar, encode_utf8};

use crate::json::{
    count_of, field, field_in, flag_of, held, json_of, key_place, lemma_key_place, printed, text_of,
    Json,
};
use crate::quantity::Real;
use crate::text::{dec_text, digit_char};
use crate::text_map::{increasing, keys_of, lemma_before_total, text_before};

verus! {

/// Nesting that a reader follows.
pub const DEEPEST: u64 = 127;

/// Bits of ten to the 300; a reader may take larger doubles for overflows.
pub const LARGEST: u64 = 0x7e37_e43c_8800_759c;

/// Whether a text is free of control characters.
pub open spec fn printable(s: Seq<char>) -> bool {
    forall|i: int| 0 <= i < s.len() ==> #[trigger] s[i] as u32 >= 32
}

/// Whether a double is far from overflow.
pub open spec fn moderate(r: Real) -> bool {
    r.magnitude() <= LARGEST
}

/// Whether a value can be spelled and read again: counts are spelled in
/// decimal, other numbers as `serde_json` spells them, keys are in order, and
/// nothing is nested deeper than `depth`.
pub open spec fn spellable(j: Json, depth: nat) -> bool
    decreases j, 0nat,
{
    match j {
        Json::Number(text, Some(n), _) => text@ == dec_text(n as nat),
        Json::Number(text, None, figure) => {
            &&& printable(text@)
            &&& figure is Some
            &&& moderate(figure->0.real)
            &&& exists|v: Value| #[trigger] held(v) == j
        },
        Json::List(v) => depth > 0 && items_spellable(v@, v@.len(), (depth - 1) as nat),
        Json::Object(v) => {
            &&& depth > 0
            &&& increasing(keys_of(v@))
            &&& entries_spellable(v@, v@.len(), (depth - 1) as nat)
        },
        _ => true,
    }
}

/// Whether the first `n` items can be spelled.
pub open spec fn items_spellable(s: Seq<Json>, n: nat, depth: nat) -> bool
    decreases s, n,
{
    if n == 0 || n > s.len() {
        true
    } else {
        items_spellable(s, (n - 1) as nat, depth) && spellable(s[n - 1], depth)
    }
}

/// Whether the first `n` entries can be spelled.
pub open spec fn entries_spellable(s: Seq<(String, Json)>, n: nat, depth: nat) -> bool
    decreases s, n,
{
    if n == 0 || n > s.len() {
        true
    } else {
        entries_spellable(s, (n - 1) as nat, depth) && spellable(s[n - 1].1, depth)
    }
}

/// Whether two values are the same but for the numbers that are no counts.
pub open spec fn alike(a: Json, b: Json) -> bool
    decreases a, 0nat,
{
    match (a, b) {
        (Json::Null, Json::Null) => true,
        (Json::Bool(x), Json::Bool(y)) => x == y,
        (Json::Number(_, m, _), Json::Number(_, n, _)) => m == n,
        (Json::Text(s), Json::Text(t)) => s@ == t@,
        (Json::List(v), Json::List(w)) => v@.len() == w@.len() && items_alike(
            v@,
            w@,
            v@.len(),
        ),
        (Json::Object(v), Json::Object(w)) => v@.len() == w@.len() && entries_alike(
            v@,
            w@,
            v@.len(),
        ),
        _ => false,
    }
}

/// Whether the first `n` items are alike.
pub open spec fn items_alike(s: Seq<Json>, t: Seq<Json>, n: nat) -> bool
    decreases s, n,
{
    if n == 0 || n > s.len() {
        true
    } else {
        items_alike(s, t, (n - 1) as nat) && alike(s[n - 1], t[n - 1])
    }
}

/// Whether the first `n` entries have the same keys and values that are alike.
pub open spec fn entries_alike(s: Seq<(String, Json)>, t: Seq<(String, Json)>, n: nat) -> bool
    decreases s, n,
{
    if n == 0 || n > s.len() {
        true
    } else {
        &&& entries_alike(s, t, (n - 1) as nat)
        &&& s[n - 1].0@ == t[n - 1].0@
        &&& alike(s[n - 1].1, t[n - 1].1)
    }
}

/// Whether reading bytes gives back a value that they are the spelling of.
pub open spec fn reads_back(bytes: Seq<u8>) -> bool {
    forall|j: Json|
        spellable(j, DEEPEST as nat) && bytes == encode_utf8(#[trigger] printed(j)) ==> (
        json_of(bytes) is Some && alike(j, json_of(bytes)->0))
}

proof fn lemma_entries_alike(s: Seq<(String, Json)>, t: Seq<(String, Json)>, n: nat, i: int)
    requires
        entries_alike(s, t, n),
        0 <= i < n <= s.len(),
    ensures
        s[i].0@ == t[i].0@,
        alike(s[i].1, t[i].1),
    decreases n,
{
    if i < n - 1 {
        lemma_entries_alike(s, t, (n - 1) as nat, i);
    }
}

proof fn lemma_same_place(s: Seq<(String, Json)>, t: Seq<(String, Json)>, key: Seq<char>)
    requires
        s.len() == t.len(),
        forall|i: int| 0 <= i < s.len() ==> (#[trigger] s[i]).0@ == t[i].0@,
    ensures
        key_place(s, key) == key_place(t, key),
        0 <= key_place(s, key) <= s.len(),
    decreases s.len(),
{
    if s.len() > 0 {
        assert(s[0].0@ == t[0].0@);
        let s1 = s.skip(1);
        let t1 = t.skip(1);
        assert forall|i: int| 0 <= i < s1.len() implies (#[trigger] s1[i]).0@ == t1[i].0@ by {
            assert(s1[i] == s[i + 1]);
            assert(t1[i] == t[i + 1]);
        }
        lemma_same_place(s1, t1, key);
    }
}

/// Values that are alike have the same fields: the same texts, counts and
/// flags, and values that are alike.
pub proof fn alike_values_have_the_same_fields(a: Json, b: Json, key: Seq<char>)
    requires
        alike(a, b),
    ensures
        field(a, key) is Some == field(b, key) is Some,
        field(a, key) is Some ==> alike(field(a, key)->0, field(b, key)->0),
        text_of(field(a, key)) == text_of(field(b, key)),
        count_of(field(a, key)) == count_of(field(b, key)),
        flag_of(field(a, key)) == flag_of(field(b, key)),
{
    match (a, b) {
        (Json::Object(v), Json::Object(w)) => {
            assert forall|i: int| 0 <= i < v@.len() implies (#[trigger] v@[i]).0@ == w@[i].0@ by {
                lemma_entries_alike(v@, w@, v@.len(), i);
            }
            lemma_same_place(v@, w@, key);
            let k = key_place(v@, key);
            if k < v@.len() {
                lemma_entries_alike(v@, w@, v@.len(), k);
            }
        },
        _ => {},
    }
}

/// Entries whose values can all be spelled.
pub proof fn lemma_entries_by_field(s: Seq<(String, Json)>, n: nat, depth: nat)
    requires
        increasing(keys_of(s)),
        forall|k: Seq<char>| #[trigger]
            field_in(s, k) is Some ==> spellable(field_in(s, k)->0, depth),
        n <= s.len(),
    ensures
        entries_spellable(s, n, depth),
    decreases n,
{
    if n > 0 {
        lemma_entries_by_field(s, (n - 1) as nat, depth);
        let k = n - 1;
        let key = s[k].0@;
        assert forall|i: int| 0 <= i < k implies (#[trigger] s[i]).0@ != key by {
            assert(keys_of(s)[i] == s[i].0@);
            assert(keys_of(s)[k] == key);
            assert(text_before(keys_of(s)[i], keys_of(s)[k]));
            lemma_before_total(key, key);
        }
        lemma_key_place(s, key, k);
        assert(field_in(s, key) == Some(s[k].1));
    }
}

/// The fields of entries that can be spelled.
pub proof fn lemma_field_of_entries(s: Seq<(String, Json)>, n: nat, depth: nat, i: int)
    requires
        entries_spellable(s, n, depth),
        0 <= i < n <= s.len(),
    ensures
        spellable(s[i].1, depth),
    decreases n,
{
    if i < n - 1 {
        lemma_field_of_entries(s, (n - 1) as nat, depth, i);
    }
}

/// Decimal numerals are printable.
pub proof fn lemma_numerals_are_printable(n: nat)
    ensures
        printable(dec_text(n)),
    decreases n,
{
    assert forall|d: int| 0 <= d < 10 implies #[trigger] digit_char(d) as u32 >= 32 by {}
    if n >= 10 {
        lemma_numerals_are_printable(n / 10);
        assert(digit_char((n % 10) as int) as u32 >= 32);
    } else {
        assert(digit_char(n as int) as u32 >= 32);
    }
}

/// The bytes of two texts one after the other.
pub proof fn lemma_encode_concat(a: Seq<char>, b: Seq<char>)
    ensures
        encode_utf8(a + b) == encode_utf8(a) + encode_utf8(b),
    decreases a.len(),
{
    if a.len() == 0 {
        assert(a + b =~= b);
        assert(encode_utf8(a) + encode_utf8(b) =~= encode_utf8(b));
    } else {
        assert((a + b).drop_first() =~= a.drop_first() + b);
        lemma_encode_concat(a.drop_first(), b);
        let head = encode_scalar(a[0] as u32);
        assert(head + (encode_utf8(a.drop_first()) + encode_utf8(b)) =~= (head + encode_utf8(
            a.drop_first(),
        )) + encode_utf8(b));
    }
}

proof fn lemma_scalar_bytes(c: u32)
    requires
        c >= 32,
    ensures
        forall|i: int|
            0 <= i < encode_scalar(c).len() ==> #[trigger] encode_scalar(c)[i] >= 32,
{
    assert(c <= 0x7f ==> (c & 0x7f) as u8 >= 32) by (bit_vector)
        requires
            c >= 32,
    ;
    assert(0xc0 | ((c >> 6) & 0x1f) as u8 >= 0xc0) by (bit_vector);
    assert(0xe0 | ((c >> 12) & 0x0f) as u8 >= 0xe0) by (bit_vector);
    assert(0xf0 | ((c >> 18) & 0x7) as u8 >= 0xf0) by (bit_vector);
    assert(0x80 | (c & 0x3f) as u8 >= 0x80) by (bit_vector);
    assert(0x80 | ((c >> 6) & 0x3f) as u8 >= 0x80) by (bit_vector);
    assert(0x80 | ((c >> 12) & 0x3f) as u8 >= 0x80) by (bit_vector);
}

/// The bytes of a printable text are free of control characters too.
pub proof fn lemma_printable_bytes(s: Seq<char>)
    requires
        printable(s),
    ensures
        forall|i: int| 0 <= i < encode_utf8(s).len() ==> #[trigger] encode_utf8(s)[i] >= 32,
    decreases s.len(),
{
    if s.len() > 0 {
        let t = s.drop_first();
        assert forall|i: int| 0 <= i < t.len() implies #[trigger] t[i] as u32 >= 32 by {
            assert(t[i] == s[i + 1]);
        }
        lemma_printable_bytes(t);
        assert(s[0] as u32 >= 32);
        lemma_scalar_bytes(s[0] as u32);
        let head = encode_scalar(s[0] as u32);
        assert forall|i: int| 0 <= i < encode_utf8(s).len() implies #[trigger] encode_utf8(s)[i]
            >= 32 by {
            if i < head.len() {
                assert(encode_utf8(s)[i] == head[i]);
            } else {
                assert(encode_utf8(s)[i] == encode_utf8(t)[i - head.len()]);
            }
        }
    }
}

} // verus!
