//! How large a decimal numeral is: whether a double can tell it from zero.

use vstd::arithmetic::power::{
    lemma_pow1, lemma_pow_adds, lemma_pow_increases, lemma_pow_positive, lemma_pow_strictly_increases,
    pow,
};
use vstd::prelude::*;

verus! {

/// The digit of a character.
pub open spec fn digit_of(c: char) -> int {
    c as int - '0' as int
}

/// The number that digits spell.
pub open spec fn decimal(s: Seq<char>) -> int
    decreases s.len(),
{
    if s.len() == 0 {
        0
    } else {
        10 * decimal(s.drop_last()) + digit_of(s.last())
    }
}

/// Half the distance of doubles next to zero is two to the minus this; what is
/// no larger rounds to zero.
pub const HALF_STEP: u64 = 1075;

/// Whether the nearest double to `m` times ten to the `scale` is above zero.
pub open spec fn above_zero(m: int, scale: int) -> bool {
    &&& m > 0
    &&& scale < 0 ==> m * pow(2, HALF_STEP as nat) > pow(10, (-scale) as nat)
}

/// The number of digits, least significant first.
pub open spec fn le_value(v: Seq<u8>) -> int
    decreases v.len(),
{
    if v.len() == 0 {
        0
    } else {
        le_value(v.drop_last()) + v.last() * pow(10, (v.len() - 1) as nat)
    }
}

/// Digits below ten.
pub open spec fn le_digits(v: Seq<u8>) -> bool {
    forall|i: int| 0 <= i < v.len() ==> #[trigger] v[i] < 10
}

proof fn lemma_le_push(v: Seq<u8>, d: u8)
    ensures
        le_value(v.push(d)) == le_value(v) + d * pow(10, v.len()),
{
    assert(v.push(d).drop_last() =~= v);
}

proof fn lemma_ten(n: nat)
    ensures
        pow(10, n + 1) == 10 * pow(10, n),
        pow(10, n) > 0,
{
    lemma_pow_adds(10, 1, n);
    lemma_pow1(10);
    lemma_pow_positive(10, n);
}

/// Digits stay below the next power of ten.
proof fn lemma_le_bounds(v: Seq<u8>)
    requires
        le_digits(v),
    ensures
        0 <= le_value(v) < pow(10, v.len()),
    decreases v.len(),
{
    if v.len() == 0 {
        lemma_pow_positive(10, 0);
    } else {
        let w = v.drop_last();
        assert forall|i: int| 0 <= i < w.len() implies #[trigger] w[i] < 10 by {
            assert(w[i] == v[i]);
        }
        lemma_le_bounds(w);
        lemma_ten(w.len());
        let p = pow(10, w.len());
        let d = v[v.len() - 1];
        assert(0 <= d * p <= 9 * p) by (nonlinear_arith)
            requires
                0 <= d < 10,
                p > 0,
        ;
    }
}

/// A first digit counts by the digits behind it.
proof fn lemma_decimal_front(s: Seq<char>)
    requires
        s.len() > 0,
    ensures
        decimal(s) == digit_of(s[0]) * pow(10, (s.len() - 1) as nat) + decimal(s.skip(1)),
    decreases s.len(),
{
    if s.len() == 1 {
        assert(s.drop_last() =~= Seq::empty());
        assert(s.skip(1) =~= Seq::empty());
        vstd::arithmetic::power::lemma_pow0(10);
    } else {
        let d = s.drop_last();
        lemma_decimal_front(d);
        assert(d.skip(1) =~= s.skip(1).drop_last());
        assert(s.skip(1).last() == s.last());
        lemma_ten((s.len() - 2) as nat);
        let p = pow(10, (s.len() - 2) as nat);
        let a = digit_of(s[0]);
        assert(10 * (a * p) == a * (10 * p)) by (nonlinear_arith);
    }
}

/// The digits `from..to` of a text behind those of `low`, least significant
/// first.
fn take_digits(chars: &Vec<char>, from: usize, to: usize, low: Vec<u8>) -> (r: Vec<u8>)
    requires
        from <= to <= chars@.len(),
        forall|i: int| from <= i < to ==> '0' <= #[trigger] chars@[i] <= '9',
        le_digits(low@),
    ensures
        le_digits(r@),
        r@.len() == low@.len() + (to - from),
        le_value(r@) == le_value(low@) + decimal(chars@.subrange(from as int, to as int)) * pow(
            10,
            low@.len(),
        ),
{
    let mut out = low;
    let ghost n = low@.len();
    let ghost base = le_value(low@);
    let mut i: usize = to;
    assert(chars@.subrange(to as int, to as int) =~= Seq::empty());
    assert(0 * pow(10, n) == 0);
    while i > from
        invariant
            from <= i <= to <= chars@.len(),
            forall|k: int| from <= k < to ==> '0' <= #[trigger] chars@[k] <= '9',
            le_digits(out@),
            out@.len() == n + (to - i),
            le_value(out@) == base + decimal(chars@.subrange(i as int, to as int)) * pow(10, n),
        decreases i,
    {
        let c: char = chars[i - 1];
        let d: u8 = (c as u32 - '0' as u32) as u8;
        proof {
            let rest = chars@.subrange(i as int, to as int);
            let more = chars@.subrange(i - 1, to as int);
            lemma_decimal_front(more);
            assert(more.skip(1) =~= rest);
            assert(more[0] == c);
            lemma_le_push(out@, d);
            let k = (to - i) as nat;
            lemma_pow_adds(10, k, n);
            let p = pow(10, k);
            let q = pow(10, n);
            assert(d * (p * q) + decimal(rest) * q == (d * p + decimal(rest)) * q)
                by (nonlinear_arith);
        }
        out.push(d);
        i = i - 1;
    }
    out
}

/// Twice a number.
fn doubled(v: &Vec<u8>) -> (r: Vec<u8>)
    requires
        le_digits(v@),
    ensures
        le_digits(r@),
        le_value(r@) == 2 * le_value(v@),
{
    let mut out: Vec<u8> = Vec::new();
    let mut carry: u8 = 0;
    let mut i: usize = 0;
    assert(v@.take(0) =~= Seq::empty());
    while i < v.len()
        invariant
            i <= v@.len(),
            le_digits(v@),
            le_digits(out@),
            out@.len() == i,
            carry <= 1,
            le_value(out@) + carry * pow(10, i as nat) == 2 * le_value(v@.take(i as int)),
        decreases v@.len() - i,
    {
        let a: u8 = v[i];
        let t: u8 = 2 * a + carry;
        let d: u8 = t % 10;
        let next: u8 = t / 10;
        proof {
            lemma_le_push(out@, d);
            assert(v@.take(i + 1) =~= v@.take(i as int).push(a));
            lemma_le_push(v@.take(i as int), a);
            lemma_ten(i as nat);
            let p = pow(10, i as nat);
            assert(d * p + next * (10 * p) == 2 * (a * p) + carry * p) by (nonlinear_arith)
                requires
                    d + 10 * next == 2 * a + carry,
            ;
        }
        out.push(d);
        carry = next;
        i = i + 1;
    }
    assert(v@.take(i as int) =~= v@);
    if carry > 0 {
        proof {
            lemma_le_push(out@, carry);
        }
        out.push(carry);
    }
    out
}

/// Whether a number is more than ten to the `b`.
fn exceeds_power(v: &Vec<u8>, b: u128) -> (r: bool)
    requires
        le_digits(v@),
    ensures
        r == (le_value(v@) > pow(10, b as nat)),
{
    let mut top: usize = v.len();
    assert(v@.take(top as int) =~= v@);
    while top > 0 && v[top - 1] == 0
        invariant
            top <= v@.len(),
            le_value(v@.take(top as int)) == le_value(v@),
        decreases top,
    {
        proof {
            assert(v@.take(top as int).drop_last() =~= v@.take(top - 1));
            let p = pow(10, (top - 1) as nat);
            assert(0 * p == 0);
        }
        top = top - 1;
    }
    let ghost w = v@.take(top as int);
    proof {
        assert forall|i: int| 0 <= i < w.len() implies #[trigger] w[i] < 10 by {
            assert(w[i] == v@[i]);
        }
        lemma_le_bounds(w);
        lemma_pow_positive(10, b as nat);
    }
    if top as u128 <= b {
        proof {
            lemma_pow_increases(10, top as nat, b as nat);
        }
        return false;
    }
    let t: usize = top - 1;
    let first: u8 = v[t];
    let ghost low = v@.take(t as int);
    proof {
        assert(w.drop_last() =~= low);
        assert forall|i: int| 0 <= i < low.len() implies #[trigger] low[i] < 10 by {
            assert(low[i] == v@[i]);
        }
        lemma_le_bounds(low);
        lemma_pow_positive(10, t as nat);
        let p = pow(10, t as nat);
        assert(first * p >= p) by (nonlinear_arith)
            requires
                first >= 1,
                p > 0,
        ;
        if first > 1 {
            assert(first * p >= 2 * p) by (nonlinear_arith)
                requires
                    first >= 2,
                    p > 0,
            ;
        }
    }
    if t as u128 > b {
        proof {
            lemma_pow_strictly_increases(10, b as nat, t as nat);
        }
        return true;
    }
    if first > 1 {
        return true;
    }
    assert(1 * pow(10, t as nat) == pow(10, t as nat));
    has_more(v, t)
}

/// Whether a digit below `t` is not zero.
fn has_more(v: &Vec<u8>, t: usize) -> (r: bool)
    requires
        le_digits(v@),
        t <= v@.len(),
    ensures
        r == (le_value(v@.take(t as int)) > 0),
{
    let mut i: usize = 0;
    assert(v@.take(0) =~= Seq::empty());
    let mut found = false;
    while i < t
        invariant
            i <= t <= v@.len(),
            le_digits(v@),
            found == (le_value(v@.take(i as int)) > 0),
        decreases t - i,
    {
        proof {
            let low = v@.take(i as int);
            assert(v@.take(i + 1) =~= low.push(v@[i as int]));
            lemma_le_push(low, v@[i as int]);
            assert forall|k: int| 0 <= k < low.len() implies #[trigger] low[k] < 10 by {
                assert(low[k] == v@[k]);
            }
            lemma_le_bounds(low);
            lemma_pow_positive(10, i as nat);
            let p = pow(10, i as nat);
            let d = v@[i as int];
            assert(if d > 0 { d * p > 0 } else { d * p == 0 }) by (nonlinear_arith)
                requires
                    d >= 0,
                    p > 0,
            ;
        }
        if v[i] > 0 {
            found = true;
        }
        i = i + 1;
    }
    found
}

/// Larger exponents all count as this one.
pub const HUGE: u128 = 1_000_000_000_000_000_000_000_000_000_000;

/// The number that the digits `from..to` spell, or `HUGE` if that is smaller.
pub fn capped(chars: &Vec<char>, from: usize, to: usize) -> (r: u128)
    requires
        from <= to <= chars@.len(),
        forall|i: int| from <= i < to ==> '0' <= #[trigger] chars@[i] <= '9',
    ensures
        ({
            let n = decimal(chars@.subrange(from as int, to as int));
            r == if n < HUGE {
                n
            } else {
                HUGE as int
            }
        }),
{
    let mut acc: u128 = 0;
    let mut i: usize = from;
    assert(chars@.subrange(from as int, from as int) =~= Seq::empty());
    while i < to
        invariant
            from <= i <= to <= chars@.len(),
            forall|k: int| from <= k < to ==> '0' <= #[trigger] chars@[k] <= '9',
            decimal(chars@.subrange(from as int, i as int)) >= 0,
            acc == (if decimal(chars@.subrange(from as int, i as int)) < HUGE {
                decimal(chars@.subrange(from as int, i as int))
            } else {
                HUGE as int
            }),
        decreases to - i,
    {
        let c: char = chars[i];
        let d: u128 = (c as u32 - '0' as u32) as u128;
        proof {
            let more = chars@.subrange(from as int, i + 1);
            assert(more.drop_last() =~= chars@.subrange(from as int, i as int));
            assert(more.last() == c);
        }
        let next: u128 = 10 * acc + d;
        acc = if next < HUGE {
            next
        } else {
            HUGE
        };
        i = i + 1;
    }
    acc
}

/// Whether the nearest double to a numeral is above zero. Its digits are
/// `from..point` and `point + 1..e`, or `from..e` where `point` is `e`; those of
/// its exponent are `x..to`.
pub fn is_above_zero(
    chars: &Vec<char>,
    from: usize,
    point: usize,
    e: usize,
    negative: bool,
    x: usize,
    to: usize,
) -> (r: bool)
    requires
        from <= point <= e <= chars@.len(),
        x <= to <= chars@.len(),
        forall|i: int| from <= i < e && i != point ==> '0' <= #[trigger] chars@[i] <= '9',
        forall|i: int| x <= i < to ==> '0' <= #[trigger] chars@[i] <= '9',
    ensures
        ({
            let whole = chars@.subrange(from as int, point as int);
            let part = if point < e {
                chars@.subrange(point + 1, e as int)
            } else {
                Seq::empty()
            };
            let n = decimal(chars@.subrange(x as int, to as int));
            let power = if negative {
                -n
            } else {
                n
            };
            r == above_zero(decimal(whole + part), power - part.len())
        }),
{
    let ghost whole = chars@.subrange(from as int, point as int);
    let ghost part = if point < e {
        chars@.subrange(point + 1, e as int)
    } else {
        Seq::empty()
    };
    let none: Vec<u8> = Vec::new();
    let low = if point < e {
        proof {
            vstd::arithmetic::power::lemma_pow0(10);
        }
        take_digits(chars, point + 1, e, none)
    } else {
        none
    };
    let fraction: usize = low.len();
    let v = take_digits(chars, from, point, low);
    let ghost m = decimal(whole + part);
    proof {
        lemma_decimal_concat(whole, part);
    }
    let some = has_more(&v, v.len());
    assert(v@.take(v@.len() as int) =~= v@);
    if !some {
        return false;
    }
    let power: u128 = capped(chars, x, to);
    let behind: u128 = fraction as u128;
    if !negative && power >= behind {
        return true;
    }
    let b: u128 = if negative {
        power + behind
    } else {
        behind - power
    };
    if b == 0 {
        return true;
    }
    let mut big = v;
    let mut k: u64 = 0;
    proof {
        vstd::arithmetic::power::lemma_pow0(2);
    }
    while k < HALF_STEP
        invariant
            k <= HALF_STEP,
            le_digits(big@),
            le_value(big@) == m * pow(2, k as nat),
        decreases HALF_STEP - k,
    {
        proof {
            lemma_pow_adds(2, 1, k as nat);
            lemma_pow1(2);
            let p = pow(2, k as nat);
            assert(2 * (m * p) == m * (2 * p)) by (nonlinear_arith);
        }
        big = doubled(&big);
        k = k + 1;
    }
    let size: usize = big.len();
    proof {
        let n = decimal(chars@.subrange(x as int, to as int));
        assert(size < HUGE);
        let far = n + part.len();
        if negative && n >= HUGE {
            // No number has so many digits.
            lemma_le_bounds(big@);
            lemma_pow_increases(10, big@.len(), b as nat);
            lemma_pow_increases(10, big@.len(), far as nat);
        }
    }
    exceeds_power(&big, b)
}

proof fn lemma_decimal_concat(a: Seq<char>, b: Seq<char>)
    ensures
        decimal(a + b) == decimal(a) * pow(10, b.len()) + decimal(b),
    decreases b.len(),
{
    if b.len() == 0 {
        assert(a + b =~= a);
        vstd::arithmetic::power::lemma_pow0(10);
    } else {
        let d = b.drop_last();
        assert((a + b).drop_last() =~= a + d);
        assert((a + b).last() == b.last());
        lemma_decimal_concat(a, d);
        lemma_ten(d.len());
        let p = pow(10, d.len());
        let x = decimal(a);
        assert(10 * (x * p) == x * (10 * p)) by (nonlinear_arith);
    }
}

} // verus!
