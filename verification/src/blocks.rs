//! Identity of the stored Blocks that mission data comes from: content
//! hashes, their hex form and the citations that artifacts embed.

use vstd::prelude::*;
use vstd::utf8::encode_utf8;

use crate::sorting::{distinct_by, lemma_place_at, place_in, rising, strict_order};
use crate::text::{cat, dec, dec_text, same, trim, trimmed};
use crate::text_map::{is_before, lemma_before_total, lemma_before_transitive, text_before};

verus! {

/// 32-byte content hash (SHA-256 over the signed Block packet).
pub type Hash32 = [u8; 32];

/// The lowercase hex digit of `d`.
pub open spec fn hex_char(d: int) -> char {
    if d < 10 {
        (48 + d) as char
    } else {
        (87 + d) as char
    }
}

/// Lowercase hex of bytes, two digits each.
pub open spec fn hex_text(bytes: Seq<u8>) -> Seq<char>
    decreases bytes.len(),
{
    if bytes.len() == 0 {
        Seq::empty()
    } else {
        hex_text(bytes.drop_last()).push(hex_char((bytes.last() / 16) as int)).push(
            hex_char((bytes.last() % 16) as int),
        )
    }
}

/// The value of one hex digit, of either case.
pub open spec fn hex_value(b: u8) -> Option<u8> {
    if 48 <= b <= 57 {
        Some((b - 48) as u8)
    } else if 97 <= b <= 102 {
        Some((b - 87) as u8)
    } else if 65 <= b <= 70 {
        Some((b - 55) as u8)
    } else {
        None
    }
}

/// Every byte is a hex digit.
pub open spec fn all_hex(digits: Seq<u8>) -> bool {
    forall|i: int| 0 <= i < digits.len() ==> hex_value(#[trigger] digits[i]) is Some
}

/// The bytes that pairs of hex digits stand for.
pub open spec fn hex_bytes(digits: Seq<u8>) -> Seq<u8> {
    Seq::new(
        digits.len() / 2,
        |i: int| (hex_value(digits[2 * i])->0 * 16 + hex_value(digits[2 * i + 1])->0) as u8,
    )
}

pub(crate) fn hex_digit(d: u8) -> (r: char)
    requires
        d < 16,
    ensures
        r == hex_char(d as int),
{
    if d < 10 {
        (48u8 + d) as char
    } else {
        (87u8 + d) as char
    }
}

fn digit_value(b: u8) -> (r: Option<u8>)
    ensures
        r == hex_value(b),
        r matches Some(v) ==> v < 16,
{
    if 48 <= b && b <= 57 {
        Some(b - 48)
    } else if 97 <= b && b <= 102 {
        Some(b - 87)
    } else if 65 <= b && b <= 70 {
        Some(b - 55)
    } else {
        None
    }
}

/// Lowercase hex of a content hash.
pub fn hex(hash: &Hash32) -> (r: String)
    ensures
        r@ == hex_text(hash@),
{
    let mut s = String::new();
    let mut i: usize = 0;
    assert(hash@.take(0) =~= Seq::empty());
    while i < 32
        invariant
            i <= 32,
            s@ == hex_text(hash@.take(i as int)),
        decreases 32 - i,
    {
        let b: u8 = hash[i];
        s.push(hex_digit(b / 16));
        s.push(hex_digit(b % 16));
        assert(hash@.take(i + 1).drop_last() =~= hash@.take(i as int));
        i = i + 1;
    }
    assert(hash@.take(32) =~= hash@);
    s
}

/// The refusal of a text that does not have the right number of hex digits.
pub open spec fn wrong_length_text(expected: nat, got: nat) -> Seq<char> {
    "expected "@ + dec_text(expected) + " hex chars, got "@ + dec_text(got)
}

/// Decode a lowercase or uppercase hex string into `N` bytes.
pub fn from_hex<const N: usize>(s: &str) -> (r: Result<[u8; N], String>)
    requires
        2 * N <= usize::MAX,
    ensures
        ({
            let digits = encode_utf8(trimmed(s@));
            match r {
                Ok(bytes) => digits.len() == 2 * N && all_hex(digits) && bytes@ == hex_bytes(
                    digits,
                ),
                Err(e) => if digits.len() != 2 * N {
                    e@ == wrong_length_text((2 * N) as nat, digits.len())
                } else {
                    !all_hex(digits) && e@ == "bad hex digit"@
                },
            }
        }),
{
    let digits = trim(s).as_bytes();
    let ghost d = digits@;
    if digits.len() != N * 2 {
        let head = cat("expected ", &dec((N * 2) as u64));
        let mid = cat(&head, " hex chars, got ");
        return Err(cat(&mid, &dec(digits.len() as u64)));
    }
    let mut out: [u8; N] = [0u8; N];
    let mut i: usize = 0;
    while i < N
        invariant
            i <= N,
            2 * N <= usize::MAX,
            digits@ == d,
            d == encode_utf8(trimmed(s@)),
            d.len() == 2 * N,
            forall|j: int| 0 <= j < 2 * i ==> hex_value(#[trigger] d[j]) is Some,
            forall|j: int| 0 <= j < i ==> #[trigger] out@[j] == hex_bytes(d)[j],
        decreases N - i,
    {
        let hi: u8 = match digit_value(digits[2 * i]) {
            Some(v) => v,
            None => {
                return Err("bad hex digit".to_owned());
            },
        };
        let lo: u8 = match digit_value(digits[2 * i + 1]) {
            Some(v) => v,
            None => {
                return Err("bad hex digit".to_owned());
            },
        };
        out[i] = hi * 16 + lo;
        i = i + 1;
    }
    assert(out@ =~= hex_bytes(d));
    Ok(out)
}

proof fn lemma_hex_digit(d: int)
    requires
        0 <= d < 16,
    ensures
        hex_value(hex_char(d) as u8) == Some(d as u8),
        '\0' <= hex_char(d) <= '\u{7f}',
        !crate::text::white_space(hex_char(d)),
{
}

proof fn lemma_hex_text_index(bytes: Seq<u8>, i: int)
    requires
        0 <= i < bytes.len(),
    ensures
        hex_text(bytes).len() == 2 * bytes.len(),
        hex_text(bytes)[2 * i] == hex_char((bytes[i] / 16) as int),
        hex_text(bytes)[2 * i + 1] == hex_char((bytes[i] % 16) as int),
    decreases bytes.len(),
{
    lemma_hex_text_len(bytes);
    lemma_hex_text_len(bytes.drop_last());
    if i < bytes.len() - 1 {
        lemma_hex_text_index(bytes.drop_last(), i);
    }
}

pub proof fn lemma_hex_text_len(bytes: Seq<u8>)
    ensures
        hex_text(bytes).len() == 2 * bytes.len(),
    decreases bytes.len(),
{
    if bytes.len() > 0 {
        lemma_hex_text_len(bytes.drop_last());
    }
}

/// Every character of a hex text is a digit of it.
proof fn lemma_hex_text_chars(bytes: Seq<u8>, k: int)
    requires
        0 <= k < 2 * bytes.len(),
    ensures
        k < hex_text(bytes).len(),
        hex_value(hex_text(bytes)[k] as u8) is Some,
        '\0' <= hex_text(bytes)[k] <= '\u{7f}',
        !crate::text::white_space(hex_text(bytes)[k]),
{
    let i = k / 2;
    lemma_hex_text_index(bytes, i);
    lemma_hex_digit((bytes[i] / 16) as int);
    lemma_hex_digit((bytes[i] % 16) as int);
    assert(k == 2 * i || k == 2 * i + 1);
}

/// Decoding the hex form of bytes gives the bytes back: what [`from_hex`]
/// answers on the text that [`hex`] writes.
pub proof fn hex_round_trips(bytes: Seq<u8>)
    ensures
        ({
            let digits = encode_utf8(trimmed(hex_text(bytes)));
            digits.len() == 2 * bytes.len() && all_hex(digits) && hex_bytes(digits) == bytes
        }),
{
    let t = hex_text(bytes);
    lemma_hex_text_len(bytes);
    assert(trimmed(t) == t) by {
        if t.len() > 0 {
            lemma_hex_text_chars(bytes, 0);
            lemma_hex_text_chars(bytes, t.len() - 1);
        }
    }
    assert(vstd::utf8::is_ascii_chars(t)) by {
        assert forall|k: int| 0 <= k < t.len() implies '\0' <= #[trigger] t[k] <= '\u{7f}' by {
            lemma_hex_text_chars(bytes, k);
        }
    }
    vstd::utf8::is_ascii_chars_encode_utf8(t);
    let digits = encode_utf8(t);
    assert(digits =~= Seq::new(t.len(), |i: int| t[i] as u8));
    assert forall|k: int| 0 <= k < digits.len() implies hex_value(#[trigger] digits[k]) is Some by {
        lemma_hex_text_chars(bytes, k);
    }
    assert forall|i: int| 0 <= i < bytes.len() implies hex_bytes(digits)[i] == bytes[i] by {
        lemma_hex_text_index(bytes, i);
        lemma_hex_digit((bytes[i] / 16) as int);
        lemma_hex_digit((bytes[i] % 16) as int);
    }
    assert(hex_bytes(digits) =~= bytes);
}

/// Equal hex forms are forms of the same bytes.
pub proof fn hex_is_injective(a: Seq<u8>, b: Seq<u8>)
    requires
        hex_text(a) == hex_text(b),
    ensures
        a == b,
{
    hex_round_trips(a);
    hex_round_trips(b);
}

/// One resolved Block's identity: what an artifact cites.
#[derive(Debug)]
pub struct BlockRef {
    /// SHA-256 over the signed packet.
    pub hash: Hash32,
    /// The chain root the Block lives on.
    pub chain: String,
    /// Position on that chain.
    pub seq: u64,
}

/// A provenance citation in printable form.
#[derive(Debug)]
pub struct Citation {
    /// Lowercase hex content hash.
    pub hash: String,
    /// Chain root name.
    pub chain: String,
    /// Chain sequence.
    pub seq: u64,
}

/// A citation by its values.
#[verifier::ext_equal]
pub struct CitationView {
    pub hash: Seq<char>,
    pub chain: Seq<char>,
    pub seq: u64,
}

impl View for Citation {
    type V = CitationView;

    open spec fn view(&self) -> CitationView {
        CitationView { hash: self.hash@, chain: self.chain@, seq: self.seq }
    }
}

impl Clone for BlockRef {
    fn clone(&self) -> (r: Self)
        ensures
            r == *self,
    {
        BlockRef { hash: self.hash, chain: self.chain.clone(), seq: self.seq }
    }
}

impl BlockRef {
    /// The citation of this Block.
    pub open spec fn cited(self) -> CitationView {
        CitationView { hash: hex_text(self.hash@), chain: self.chain@, seq: self.seq }
    }

    /// The citation form (hex hash) that artifacts embed.
    pub fn citation(&self) -> (r: Citation)
        ensures
            r@ == self.cited(),
    {
        Citation { hash: hex(&self.hash), chain: self.chain.clone(), seq: self.seq }
    }
}

impl Clone for Citation {
    fn clone(&self) -> (r: Self)
        ensures
            r == *self,
    {
        Citation { hash: self.hash.clone(), chain: self.chain.clone(), seq: self.seq }
    }
}

/// Whether a citation comes before another: by hash, chain and position.
pub open spec fn citation_before(a: CitationView, b: CitationView) -> bool {
    text_before(a.hash, b.hash) || (a.hash == b.hash && (text_before(a.chain, b.chain) || (a.chain
        == b.chain && a.seq < b.seq)))
}

/// The order of citations.
pub open spec fn citation_order() -> spec_fn(CitationView, CitationView) -> bool {
    |a: CitationView, b: CitationView| citation_before(a, b)
}

/// The different citations, in order.
pub open spec fn sorted_citations(s: Seq<CitationView>) -> Seq<CitationView> {
    distinct_by(s, citation_order())
}

/// Citations by their views.
pub open spec fn citation_views(v: Seq<Citation>) -> Seq<CitationView> {
    v.map_values(|c: Citation| c@)
}

/// The order of citations is a strict one.
pub proof fn lemma_citation_order()
    ensures
        strict_order(citation_order()),
{
    let before = citation_order();
    assert forall|a: CitationView| !#[trigger] before(a, a) by {
        lemma_before_total(a.hash, a.hash);
        lemma_before_total(a.chain, a.chain);
    }
    assert forall|a: CitationView, b: CitationView|
        a == b || #[trigger] before(a, b) || before(b, a) by {
        lemma_before_total(a.hash, b.hash);
        lemma_before_total(a.chain, b.chain);
    }
    assert forall|a: CitationView, b: CitationView, c: CitationView| #[trigger]
        before(a, b) && #[trigger] before(b, c) implies before(a, c) by {
        if text_before(a.hash, b.hash) && text_before(b.hash, c.hash) {
            lemma_before_transitive(a.hash, b.hash, c.hash);
        }
        if text_before(a.chain, b.chain) && text_before(b.chain, c.chain) {
            lemma_before_transitive(a.chain, b.chain, c.chain);
        }
    }
}

/// Whether `a` comes before `b`.
fn cited_before(a: &Citation, b: &Citation) -> (r: bool)
    ensures
        r == citation_before(a@, b@),
{
    is_before(a.hash.as_str(), b.hash.as_str()) || (same(a.hash.as_str(), b.hash.as_str()) && (
    is_before(a.chain.as_str(), b.chain.as_str()) || (same(a.chain.as_str(), b.chain.as_str())
        && a.seq < b.seq)))
}

/// Whether `a` and `b` cite the same Block.
pub fn same_citation(a: &Citation, b: &Citation) -> (r: bool)
    ensures
        r == (a@ == b@),
{
    same(a.hash.as_str(), b.hash.as_str()) && same(a.chain.as_str(), b.chain.as_str()) && a.seq
        == b.seq
}

/// Put a citation in its place, unless it is there.
pub fn place_citation(v: &mut Vec<Citation>, c: Citation)
    requires
        rising(citation_views(old(v)@), citation_order()),
    ensures
        citation_views(final(v)@) == place_in(citation_views(old(v)@), c@, citation_order()),
{
    let mut p: usize = 0;
    while p < v.len() && cited_before(&v[p], &c)
        invariant
            p <= v@.len(),
            forall|i: int| 0 <= i < p ==> citation_order()(#[trigger] citation_views(v@)[i], c@),
        decreases v@.len() - p,
    {
        p = p + 1;
    }
    proof {
        lemma_citation_order();
        lemma_place_at(citation_views(v@), c@, citation_order(), p as int);
    }
    if p < v.len() && same_citation(&v[p], &c) {
        return;
    }
    let ghost before = v@;
    v.insert(p, c);
    assert(citation_views(v@) =~= citation_views(before).insert(p as int, c@));
}

/// What kind of datum a line decoded into (classification, not schema).
#[derive(Clone, Copy, Debug, PartialEq, Eq, Structural)]
pub enum DatumKind {
    /// A vehicle state sample (from the dashboard recording stream).
    Telemetry,
    /// A coordination event (`coord.*` journal events, `coord` broadcasts).
    Coord,
    /// A service or flight event (`service.*`, `flight.*` journal events).
    Service,
    /// A smart return-to-launch event (`rtl.*`).
    Rtl,
    /// Link and network health (`video_stats`, `telemetry_stale`, `spark.*`).
    Link,
    /// Everything else (mission events, agent lifecycle, run configuration).
    Event,
}

} // verus!
