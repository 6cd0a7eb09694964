//! Socket addresses: which texts name one. An IPv4 address and a port, or an
//! IPv6 address in brackets, with an optional scope, and a port.

use vstd::prelude::*;

use crate::magnitude::{capped, decimal};
use crate::numerals::{digits, is_digit};
use crate::text::{chars_of, first_index, lemma_first_index_unique};

verus! {

/// What stands between the separators of a text.
pub open spec fn fields(s: Seq<char>, sep: char) -> Seq<Seq<char>>
    decreases s.len(),
{
    let k = first_index(s, sep);
    if 0 <= k < s.len() {
        seq![s.take(k)] + fields(s.skip(k + 1), sep)
    } else {
        seq![s]
    }
}

/// A decimal number up to `most`; leading zeros are allowed.
pub open spec fn number_upto(s: Seq<char>, most: int) -> bool {
    s.len() > 0 && digits(s) && decimal(s) <= most
}

/// One number of an IPv4 address: at most 255, without leading zeros.
pub open spec fn octet(s: Seq<char>) -> bool {
    &&& s.len() <= 3
    &&& number_upto(s, 255)
    &&& s.len() > 1 ==> s[0] != '0'
}

/// An IPv4 address: four numbers with points between them.
pub open spec fn ipv4(s: Seq<char>) -> bool {
    let f = fields(s, '.');
    f.len() == 4 && forall|i: int| 0 <= i < 4 ==> octet(#[trigger] f[i])
}

/// A hexadecimal digit of either case.
pub open spec fn is_hex(c: char) -> bool {
    '0' <= c <= '9' || 'a' <= c <= 'f' || 'A' <= c <= 'F'
}

/// One group of an IPv6 address: one to four hexadecimal digits.
pub open spec fn group(s: Seq<char>) -> bool {
    1 <= s.len() <= 4 && forall|i: int| 0 <= i < s.len() ==> is_hex(#[trigger] s[i])
}

/// Whether the first `n` fields are groups.
pub open spec fn all_groups(f: Seq<Seq<char>>, n: int) -> bool {
    forall|i: int| 0 <= i < n ==> group(#[trigger] f[i])
}

/// How many groups a run of an IPv6 address holds. It may be empty, and where
/// it ends the address, an IPv4 address may stand for its last two.
pub open spec fn groups_in(s: Seq<char>, ends: bool) -> Option<nat> {
    let f = fields(s, ':');
    if s.len() == 0 {
        Some(0)
    } else if all_groups(f, f.len() as int) {
        Some(f.len())
    } else if ends && all_groups(f, f.len() - 1) && ipv4(f.last()) {
        Some(f.len() + 1)
    } else {
        None
    }
}

/// Whether a double colon stands at a position.
pub open spec fn double_colon(s: Seq<char>, i: int) -> bool {
    0 <= i && i + 1 < s.len() && s[i] == ':' && s[i + 1] == ':'
}

/// Position of the first double colon, or the length.
pub open spec fn gap(s: Seq<char>) -> int
    decreases s.len(),
{
    if s.len() == 0 {
        0
    } else if double_colon(s, 0) {
        0
    } else {
        1 + gap(s.skip(1))
    }
}

/// An IPv6 address: eight groups with colons between them, or a double colon
/// that stands for those that are missing.
pub open spec fn ipv6(s: Seq<char>) -> bool {
    let k = gap(s);
    if k < s.len() {
        match (groups_in(s.take(k), false), groups_in(s.skip(k + 2), true)) {
            (Some(head), Some(tail)) => head + tail <= 7,
            _ => false,
        }
    } else {
        groups_in(s, true) == Some(8nat)
    }
}

/// An IPv6 address with an optional scope number.
pub open spec fn scoped(s: Seq<char>) -> bool {
    let k = first_index(s, '%');
    if k < s.len() {
        ipv6(s.take(k)) && number_upto(s.skip(k + 1), u32::MAX as int)
    } else {
        ipv6(s)
    }
}

/// A port number.
pub open spec fn port(s: Seq<char>) -> bool {
    number_upto(s, u16::MAX as int)
}

/// A socket address.
pub open spec fn socket_address(s: Seq<char>) -> bool {
    if s.len() > 0 && s[0] == '[' {
        let k = first_index(s, ']');
        let behind = s.skip(k + 1);
        &&& k < s.len()
        &&& scoped(s.subrange(1, k))
        &&& behind.len() > 0 && behind[0] == ':' && port(behind.skip(1))
    } else {
        let f = fields(s, ':');
        f.len() == 2 && ipv4(f[0]) && port(f[1])
    }
}

/// Texts by their characters.
pub open spec fn char_views(v: Seq<Vec<char>>) -> Seq<Seq<char>> {
    v.map_values(|t: Vec<char>| t@)
}

/// The characters `from..to`.
fn part(chars: &Vec<char>, from: usize, to: usize) -> (r: Vec<char>)
    requires
        from <= to <= chars@.len(),
    ensures
        r@ == chars@.subrange(from as int, to as int),
{
    let mut out: Vec<char> = Vec::new();
    let mut i: usize = from;
    while i < to
        invariant
            from <= i <= to <= chars@.len(),
            out@ == chars@.subrange(from as int, i as int),
        decreases to - i,
    {
        out.push(chars[i]);
        assert(out@ =~= chars@.subrange(from as int, i + 1));
        i = i + 1;
    }
    out
}

/// Position of the first `c`, or the length.
fn find(chars: &Vec<char>, c: char) -> (r: usize)
    ensures
        r == first_index(chars@, c),
        r <= chars@.len(),
        r < chars@.len() ==> chars@[r as int] == c,
{
    let mut i: usize = 0;
    while i < chars.len() && chars[i] != c
        invariant
            i <= chars@.len(),
            forall|j: int| 0 <= j < i ==> chars@[j] != c,
        decreases chars@.len() - i,
    {
        i = i + 1;
    }
    proof {
        lemma_first_index_unique(chars@, c, i as int);
    }
    i
}

fn split_fields(chars: &Vec<char>, sep: char) -> (r: Vec<Vec<char>>)
    ensures
        char_views(r@) == fields(chars@, sep),
        r@.len() > 0,
{
    let mut out: Vec<Vec<char>> = Vec::new();
    let mut from: usize = 0;
    let mut i: usize = 0;
    assert(chars@.skip(0) =~= chars@);
    assert(char_views(out@) + fields(chars@, sep) =~= fields(chars@, sep));
    while i < chars.len()
        invariant
            from <= i <= chars@.len(),
            forall|j: int| from <= j < i ==> chars@[j] != sep,
            char_views(out@) + fields(chars@.skip(from as int), sep) == fields(chars@, sep),
        decreases chars@.len() - i,
    {
        if chars[i] == sep {
            let ghost before = char_views(out@);
            let ghost rest = chars@.skip(from as int);
            let piece = part(chars, from, i);
            out.push(piece);
            proof {
                lemma_first_index_unique(rest, sep, i - from);
                assert(rest.take(i - from) =~= piece@);
                assert(rest.skip(i - from + 1) =~= chars@.skip(i + 1));
                assert(char_views(out@) =~= before.push(piece@));
                let more = fields(chars@.skip(i + 1), sep);
                assert(before.push(piece@) + more =~= before + (seq![piece@] + more));
            }
            from = i + 1;
        }
        i = i + 1;
    }
    let ghost before = char_views(out@);
    let ghost rest = chars@.skip(from as int);
    let piece = part(chars, from, i);
    out.push(piece);
    proof {
        lemma_first_index_unique(rest, sep, rest.len() as int);
        assert(piece@ =~= rest);
        assert(char_views(out@) =~= before + seq![piece@]);
    }
    out
}

fn is_number_upto(chars: &Vec<char>, most: u32) -> (r: bool)
    ensures
        r == number_upto(chars@, most as int),
{
    let mut i: usize = 0;
    while i < chars.len()
        invariant
            i <= chars@.len(),
            forall|j: int| 0 <= j < i ==> is_digit(#[trigger] chars@[j]),
        decreases chars@.len() - i,
    {
        let c: char = chars[i];
        if !('0' <= c && c <= '9') {
            assert(!is_digit(chars@[i as int]));
            return false;
        }
        i = i + 1;
    }
    assert forall|j: int| 0 <= j < chars@.len() implies '0' <= #[trigger] chars@[j] <= '9' by {
        assert(is_digit(chars@[j]));
    }
    assert(chars@.subrange(0, chars@.len() as int) =~= chars@);
    chars.len() > 0 && capped(chars, 0, chars.len()) <= most as u128
}

fn is_octet(chars: &Vec<char>) -> (r: bool)
    ensures
        r == octet(chars@),
{
    chars.len() <= 3 && is_number_upto(chars, 255) && (chars.len() <= 1 || chars[0] != '0')
}

fn is_ipv4(chars: &Vec<char>) -> (r: bool)
    ensures
        r == ipv4(chars@),
{
    let f = split_fields(chars, '.');
    let ghost want = fields(chars@, '.');
    assert(want.len() == f@.len());
    if f.len() != 4 {
        return false;
    }
    let mut i: usize = 0;
    while i < 4
        invariant
            i <= 4,
            f@.len() == 4,
            want == char_views(f@),
            want == fields(chars@, '.'),
            forall|j: int| 0 <= j < i ==> octet(#[trigger] want[j]),
        decreases 4 - i,
    {
        assert(want[i as int] == f@[i as int]@);
        if !is_octet(&f[i]) {
            return false;
        }
        i = i + 1;
    }
    true
}

fn is_group(chars: &Vec<char>) -> (r: bool)
    ensures
        r == group(chars@),
{
    if chars.len() < 1 || chars.len() > 4 {
        return false;
    }
    let mut i: usize = 0;
    while i < chars.len()
        invariant
            i <= chars@.len(),
            forall|j: int| 0 <= j < i ==> is_hex(#[trigger] chars@[j]),
        decreases chars@.len() - i,
    {
        let c: char = chars[i];
        if !(('0' <= c && c <= '9') || ('a' <= c && c <= 'f') || ('A' <= c && c <= 'F')) {
            assert(!is_hex(chars@[i as int]));
            return false;
        }
        i = i + 1;
    }
    true
}

/// How many groups a run holds; more than eight count as nine.
fn count_groups(chars: &Vec<char>, ends: bool) -> (r: Option<u8>)
    ensures
        match groups_in(chars@, ends) {
            Some(n) => r == Some(
                if n <= 8 {
                    n as u8
                } else {
                    9
                },
            ),
            None => r is None,
        },
{
    if chars.len() == 0 {
        return Some(0);
    }
    let f = split_fields(chars, ':');
    let ghost want = fields(chars@, ':');
    assert(want.len() == f@.len());
    let n: usize = f.len();
    let small: u8 = if n <= 8 {
        n as u8
    } else {
        9
    };
    let mut i: usize = 0;
    while i + 1 < n
        invariant
            i < n == f@.len(),
            want == char_views(f@),
            want == fields(chars@, ':'),
            chars@.len() > 0,
            all_groups(want, i as int),
        decreases n - i,
    {
        assert(want[i as int] == f@[i as int]@);
        if !is_group(&f[i]) {
            assert(!group(want[i as int]));
            return None;
        }
        i = i + 1;
    }
    assert(want[i as int] == f@[i as int]@);
    assert(want.last() == f@[i as int]@);
    if is_group(&f[i]) {
        return Some(small);
    }
    assert(!group(want[i as int]));
    if ends && is_ipv4(&f[i]) {
        Some(
            if small < 8 {
                small + 1
            } else {
                9
            },
        )
    } else {
        None
    }
}

proof fn lemma_gap(s: Seq<char>, from: int, k: int)
    requires
        0 <= from <= k <= s.len(),
        forall|i: int| from <= i < k ==> !#[trigger] double_colon(s, i),
        k < s.len() ==> double_colon(s, k),
    ensures
        gap(s.skip(from)) == k - from,
    decreases k - from,
{
    if from < k {
        assert(s.skip(from).skip(1) =~= s.skip(from + 1));
        lemma_gap(s, from + 1, k);
        assert(!double_colon(s, from));
    }
}

fn find_gap(chars: &Vec<char>) -> (r: usize)
    ensures
        r == gap(chars@),
        r <= chars@.len(),
        r < chars@.len() ==> r + 1 < chars@.len(),
{
    let n: usize = chars.len();
    let mut i: usize = 0;
    assert(chars@.skip(0) =~= chars@);
    while i < n
        invariant
            i <= n == chars@.len(),
            chars@.skip(0) == chars@,
            forall|j: int| 0 <= j < i ==> !#[trigger] double_colon(chars@, j),
        decreases n - i,
    {
        if chars[i] == ':' && n - i > 1 && chars[i + 1] == ':' {
            proof {
                lemma_gap(chars@, 0, i as int);
            }
            return i;
        }
        i = i + 1;
    }
    proof {
        lemma_gap(chars@, 0, n as int);
    }
    n
}

fn is_ipv6(chars: &Vec<char>) -> (r: bool)
    ensures
        r == ipv6(chars@),
{
    let k: usize = find_gap(chars);
    let n: usize = chars.len();
    if k < n {
        let head = part(chars, 0, k);
        let tail = part(chars, k + 2, n);
        assert(head@ =~= chars@.take(k as int));
        assert(tail@ =~= chars@.skip(k + 2));
        match (count_groups(&head, false), count_groups(&tail, true)) {
            (Some(a), Some(b)) => a <= 7 && b <= 7 - a,
            _ => false,
        }
    } else {
        match count_groups(chars, true) {
            Some(a) => a == 8,
            None => false,
        }
    }
}

fn is_scoped(chars: &Vec<char>) -> (r: bool)
    ensures
        r == scoped(chars@),
{
    let k: usize = find(chars, '%');
    let n: usize = chars.len();
    if k < n {
        let host = part(chars, 0, k);
        let scope = part(chars, k + 1, n);
        assert(host@ =~= chars@.take(k as int));
        assert(scope@ =~= chars@.skip(k + 1));
        is_ipv6(&host) && is_number_upto(&scope, u32::MAX)
    } else {
        is_ipv6(chars)
    }
}

/// Whether a text names a socket address.
pub fn is_socket_address(s: &str) -> (r: bool)
    ensures
        r == socket_address(s@),
{
    let chars = chars_of(s);
    let n: usize = chars.len();
    if n > 0 && chars[0] == '[' {
        let k: usize = find(&chars, ']');
        if k >= n {
            return false;
        }
        let host = part(&chars, 1, k);
        let ghost behind = chars@.skip(k + 1);
        if n - k < 2 || chars[k + 1] != ':' {
            assert(behind.len() == 0 || behind[0] != ':');
            return false;
        }
        let digits = part(&chars, k + 2, n);
        assert(digits@ =~= behind.skip(1));
        is_scoped(&host) && is_number_upto(&digits, 65_535)
    } else {
        let f = split_fields(&chars, ':');
        let ghost want = fields(s@, ':');
        assert(want.len() == f@.len());
        if f.len() != 2 {
            return false;
        }
        assert(want[0] == f@[0]@ && want[1] == f@[1]@);
        is_ipv4(&f[0]) && is_number_upto(&f[1], 65_535)
    }
}

} // verus!
