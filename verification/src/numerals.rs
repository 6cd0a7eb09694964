//! Decimal numerals: which texts denote a number, and which a positive one.

use vstd::prelude::*;

use crate::magnitude::{above_zero, decimal, is_above_zero};
use crate::text::{
    chars_of, first_index, lemma_first_index, lemma_first_index_unique, same, slice_text,
};

verus! {

/// The lowercase of an ASCII letter; other characters stay.
pub open spec fn lower(c: char) -> char {
    if 'A' <= c <= 'Z' {
        ((c as u32) + 32) as char
    } else {
        c
    }
}

/// The text in lowercase.
pub open spec fn lowered(s: Seq<char>) -> Seq<char> {
    s.map_values(|c: char| lower(c))
}

/// A decimal digit.
pub open spec fn is_digit(c: char) -> bool {
    '0' <= c <= '9'
}

/// Digits only; the empty text is allowed.
pub open spec fn digits(s: Seq<char>) -> bool {
    forall|i: int| 0 <= i < s.len() ==> is_digit(#[trigger] s[i])
}

/// The text behind an optional sign.
pub open spec fn unsigned(s: Seq<char>) -> Seq<char> {
    if s.len() > 0 && (s[0] == '+' || s[0] == '-') {
        s.skip(1)
    } else {
        s
    }
}

/// Digits with at most one point among them, and at least one digit.
pub open spec fn mantissa(s: Seq<char>) -> bool {
    let k = first_index(s, '.');
    if k < s.len() {
        digits(s.take(k)) && digits(s.skip(k + 1)) && s.len() > 1
    } else {
        digits(s) && s.len() > 0
    }
}

/// The part of a lowercase numeral before its exponent.
pub open spec fn before_exponent(s: Seq<char>) -> Seq<char> {
    s.take(first_index(s, 'e'))
}

/// A mantissa with an optional exponent.
pub open spec fn numeral(s: Seq<char>) -> bool {
    let k = first_index(s, 'e');
    &&& mantissa(before_exponent(s))
    &&& k < s.len() ==> {
        let x = unsigned(s.skip(k + 1));
        x.len() > 0 && digits(x)
    }
}

/// The text denotes a double: an optional sign, then `inf`, `infinity`, `nan`
/// or a decimal numeral, letters of either case.
pub open spec fn number_text(s: Seq<char>) -> bool {
    let u = unsigned(lowered(s));
    u == "inf"@ || u == "infinity"@ || u == "nan"@ || numeral(u)
}

/// The digits before the point of a mantissa.
pub open spec fn whole_part(s: Seq<char>) -> Seq<char> {
    s.take(first_index(s, '.'))
}

/// The digits behind the point of a mantissa.
pub open spec fn fraction(s: Seq<char>) -> Seq<char> {
    let k = first_index(s, '.');
    if k < s.len() {
        s.skip(k + 1)
    } else {
        Seq::empty()
    }
}

/// The exponent of a lowercase numeral.
pub open spec fn exponent(s: Seq<char>) -> int {
    let k = first_index(s, 'e');
    if k < s.len() {
        let x = s.skip(k + 1);
        if x.len() > 0 && x[0] == '-' {
            -decimal(unsigned(x))
        } else {
            decimal(unsigned(x))
        }
    } else {
        0
    }
}

/// Whether the nearest double to a lowercase numeral is above zero.
pub open spec fn tells_from_zero(s: Seq<char>) -> bool {
    let mant = before_exponent(s);
    above_zero(
        decimal(whole_part(mant) + fraction(mant)),
        exponent(s) - fraction(mant).len(),
    )
}

/// The text denotes a double above zero. Numerals that round to zero do not.
pub open spec fn positive_text(s: Seq<char>) -> bool {
    let t = lowered(s);
    let u = unsigned(t);
    &&& !(t.len() > 0 && t[0] == '-')
    &&& u == "inf"@ || u == "infinity"@ || (numeral(u) && tells_from_zero(u))
}

/// Why a text is not a number.
pub open spec fn number_error(s: Seq<char>) -> Option<Seq<char>> {
    if s.len() == 0 {
        Some("cannot parse float from empty string"@)
    } else if number_text(s) {
        None
    } else {
        Some("invalid float literal"@)
    }
}

/// The lowercase characters of a text.
fn lower_chars(s: &str) -> (r: Vec<char>)
    ensures
        r@ == lowered(s@),
{
    let chars = chars_of(s);
    let mut out: Vec<char> = Vec::new();
    let mut i: usize = 0;
    while i < chars.len()
        invariant
            i <= chars@.len(),
            chars@ == s@,
            out@ == lowered(s@).take(i as int),
        decreases chars@.len() - i,
    {
        let c: char = chars[i];
        let l: char = if 'A' <= c && c <= 'Z' {
            let n: u32 = c as u32;
            ((n + 32) as u8) as char
        } else {
            c
        };
        out.push(l);
        assert(out@ =~= lowered(s@).take(i + 1));
        i = i + 1;
    }
    assert(out@ =~= lowered(s@));
    out
}

/// Whether the characters `from..to` are digits.
fn all_digits(chars: &Vec<char>, from: usize, to: usize) -> (r: bool)
    requires
        from <= to <= chars@.len(),
    ensures
        r == digits(chars@.subrange(from as int, to as int)),
{
    let mut i: usize = from;
    let ghost part = chars@.subrange(from as int, to as int);
    while i < to
        invariant
            from <= i <= to <= chars@.len(),
            part == chars@.subrange(from as int, to as int),
            forall|j: int| from <= j < i ==> is_digit(#[trigger] chars@[j]),
        decreases to - i,
    {
        let c: char = chars[i];
        if !('0' <= c && c <= '9') {
            assert(!is_digit(part[i - from]));
            return false;
        }
        i = i + 1;
    }
    assert forall|j: int| 0 <= j < part.len() implies is_digit(#[trigger] part[j]) by {
        assert(is_digit(chars@[from + j]));
    }
    true
}

/// Position of the first `c` from `from` on, or `to`.
fn find_from(chars: &Vec<char>, c: char, from: usize, to: usize) -> (r: usize)
    requires
        from <= to <= chars@.len(),
    ensures
        from <= r <= to,
        r - from == first_index(chars@.subrange(from as int, to as int), c),
{
    let ghost part = chars@.subrange(from as int, to as int);
    let mut i: usize = from;
    while i < to && chars[i] != c
        invariant
            from <= i <= to <= chars@.len(),
            part == chars@.subrange(from as int, to as int),
            forall|j: int| 0 <= j < i - from ==> part[j] != c,
        decreases to - i,
    {
        i = i + 1;
    }
    proof {
        lemma_first_index_unique(part, c, i - from);
    }
    i
}

/// Where the text behind an optional sign starts.
fn after_sign(chars: &Vec<char>, from: usize) -> (r: usize)
    requires
        from <= chars@.len(),
    ensures
        from <= r <= chars@.len(),
        chars@.skip(r as int) == unsigned(chars@.skip(from as int)),
{
    if from < chars.len() && (chars[from] == '+' || chars[from] == '-') {
        assert(chars@.skip(from as int).skip(1) =~= chars@.skip(from + 1));
        from + 1
    } else {
        from
    }
}

/// Whether the characters from `from` on are a numeral.
fn is_numeral(chars: &Vec<char>, from: usize) -> (r: bool)
    requires
        from <= chars@.len(),
    ensures
        r == numeral(chars@.skip(from as int)),
{
    let n: usize = chars.len();
    let ghost u = chars@.skip(from as int);
    assert(chars@.subrange(from as int, n as int) =~= u);
    let e: usize = find_from(chars, 'e', from, n);
    let ghost mant = before_exponent(u);
    assert(mant =~= chars@.subrange(from as int, e as int));
    let p: usize = find_from(chars, '.', from, e);
    let good = if p < e {
        assert(mant.take(p - from) =~= chars@.subrange(from as int, p as int));
        assert(mant.skip(p - from + 1) =~= chars@.subrange(p + 1, e as int));
        all_digits(chars, from, p) && all_digits(chars, p + 1, e) && e - from > 1
    } else {
        all_digits(chars, from, e) && e > from
    };
    assert(good == mantissa(mant));
    if !good {
        return false;
    }
    if e < n {
        let x: usize = after_sign(chars, e + 1);
        assert(u.skip(e - from + 1) =~= chars@.skip(e + 1));
        assert(chars@.subrange(x as int, n as int) =~= chars@.skip(x as int));
        x < n && all_digits(chars, x, n)
    } else {
        true
    }
}

/// Whether the text denotes a double.
pub fn is_number(s: &str) -> (r: bool)
    ensures
        r == number_text(s@),
{
    let chars = lower_chars(s);
    let from: usize = after_sign(&chars, 0);
    assert(chars@.skip(0) =~= chars@);
    let rest = slice_text(&chars, from, chars.len());
    assert(rest@ =~= chars@.skip(from as int));
    same(rest.as_str(), "inf") || same(rest.as_str(), "infinity") || same(rest.as_str(), "nan")
        || is_numeral(&chars, from)
}

/// Whether the nearest double to the numeral from `from` on is above zero.
fn rounds_above_zero(chars: &Vec<char>, from: usize) -> (r: bool)
    requires
        from <= chars@.len(),
        numeral(chars@.skip(from as int)),
    ensures
        r == tells_from_zero(chars@.skip(from as int)),
{
    let n: usize = chars.len();
    let ghost u = chars@.skip(from as int);
    assert(chars@.subrange(from as int, n as int) =~= u);
    let e: usize = find_from(chars, 'e', from, n);
    let ghost mant = before_exponent(u);
    assert(mant =~= chars@.subrange(from as int, e as int));
    let point: usize = find_from(chars, '.', from, e);
    let negative = e < n && e + 1 < n && chars[e + 1] == '-';
    let x: usize = if e < n {
        after_sign(chars, e + 1)
    } else {
        n
    };
    proof {
        let k = point - from;
        assert(whole_part(mant) =~= chars@.subrange(from as int, point as int));
        assert(fraction(mant) =~= if point < e {
            chars@.subrange(point + 1, e as int)
        } else {
            Seq::empty()
        });
        assert forall|i: int| from <= i < e && i != point implies '0' <= #[trigger] chars@[i]
            <= '9' by {
            assert(chars@[i] == mant[i - from]);
            if k < mant.len() {
                if i < point {
                    assert(is_digit(mant.take(k)[i - from]));
                } else {
                    assert(is_digit(mant.skip(k + 1)[i - point - 1]));
                }
            } else {
                assert(is_digit(mant[i - from]));
            }
        }
        let power = chars@.subrange(x as int, n as int);
        assert(power =~= chars@.skip(x as int));
        if e < n {
            assert(u.skip(e - from + 1) =~= chars@.skip(e + 1));
            assert forall|i: int| x <= i < n implies '0' <= #[trigger] chars@[i] <= '9' by {
                assert(is_digit(power[i - x]));
            }
        } else {
            assert(power =~= Seq::empty());
        }
    }
    is_above_zero(chars, from, point, e, negative, x, n)
}

/// Whether the text denotes a double above zero.
pub fn is_positive(s: &str) -> (r: bool)
    ensures
        r == positive_text(s@),
{
    let chars = lower_chars(s);
    assert(chars@.skip(0) =~= chars@);
    if chars.len() > 0 && chars[0] == '-' {
        return false;
    }
    let from: usize = after_sign(&chars, 0);
    let rest = slice_text(&chars, from, chars.len());
    assert(rest@ =~= chars@.skip(from as int));
    if same(rest.as_str(), "inf") || same(rest.as_str(), "infinity") {
        return true;
    }
    if !is_numeral(&chars, from) {
        return false;
    }
    rounds_above_zero(&chars, from)
}

/// A positive numeral is a number.
pub proof fn positive_texts_are_numbers(s: Seq<char>)
    requires
        positive_text(s),
    ensures
        number_text(s),
        number_error(s) is None,
{
    let u = unsigned(lowered(s));
    if s.len() == 0 {
        assert(u =~= Seq::empty());
        reveal_strlit("inf");
        reveal_strlit("infinity");
        lemma_first_index(u, 'e');
    }
}

} // verus!
