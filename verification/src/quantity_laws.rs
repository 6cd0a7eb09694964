//! How doubles are ordered by their bits.

use vstd::prelude::*;

use crate::quantity::Real;

verus! {

/// A double that is positive or zero, with no sign, by its bits.
pub open spec fn plain_bits(r: Real) -> bool {
    r.bits <= 0x7ff0_0000_0000_0000
}

/// A negative double, or zero with a sign, by its bits.
pub open spec fn signed_bits(r: Real) -> bool {
    0x8000_0000_0000_0000 <= r.bits <= 0xfff0_0000_0000_0000
}

/// Doubles without a sign are ordered as their bits, those with one the other
/// way round, and those with one come before those without; the two zeros are
/// equal. What is no number compares with nothing.
pub proof fn doubles_are_ordered_by_their_bits(a: Real, b: Real)
    ensures
        plain_bits(a) && plain_bits(b) ==> (a.below(b) <==> a.bits < b.bits) && (a.at_most(b)
            <==> a.bits <= b.bits),
        signed_bits(a) && signed_bits(b) ==> (a.below(b) <==> a.bits > b.bits) && (a.at_most(b)
            <==> a.bits >= b.bits),
        signed_bits(a) && plain_bits(b) ==> a.at_most(b) && (a.below(b) <==> !(a.bits
            == 0x8000_0000_0000_0000 && b.bits == 0)) && (b.at_most(a) <==> a.bits
            == 0x8000_0000_0000_0000 && b.bits == 0),
        !plain_bits(a) && !signed_bits(a) ==> !a.below(b) && !a.at_most(b) && !b.below(a)
            && !b.at_most(a),
        a.is_nan() <==> !plain_bits(a) && !signed_bits(a),
{
}

/// The order of doubles is one: nothing is below itself, of two numbers one is
/// at most the other, and it carries over.
pub proof fn doubles_form_an_order(a: Real, b: Real, c: Real)
    ensures
        !a.below(a),
        a.below(b) ==> a.at_most(b) && !b.at_most(a),
        !a.is_nan() && !b.is_nan() ==> a.at_most(b) || b.below(a),
        a.at_most(b) && b.at_most(c) ==> a.at_most(c),
        a.below(b) && b.at_most(c) ==> a.below(c),
{
}

/// The nearest double within a range is within it, is the double itself if
/// that is within it, and the nearer end otherwise.
pub proof fn confined_doubles_are_the_nearest(x: Real, low: Real, high: Real)
    requires
        low.at_most(high),
        !x.is_nan(),
    ensures
        low.at_most(x.confined(low, high)) && x.confined(low, high).at_most(high),
        low.at_most(x) && x.at_most(high) ==> x.confined(low, high) == x,
        x.below(low) ==> x.confined(low, high) == low,
        high.below(x) ==> x.confined(low, high) == high,
{
}

/// The total order of doubles puts them by their bits as the order of numbers
/// does, but tells the zeros apart, and places what is no number at the ends.
pub proof fn total_keys_refine_the_order(a: Real, b: Real)
    ensures
        a.below(b) ==> a.total_key() < b.total_key(),
        a.total_key() == b.total_key() ==> a == b,
        a.bits == 0x8000_0000_0000_0000 && b.bits == 0 ==> a.total_key() < b.total_key(),
        a.is_nan() && !b.is_nan() && a.bits < 0x8000_0000_0000_0000 ==> b.total_key()
            < a.total_key(),
        a.is_nan() && !b.is_nan() && a.bits >= 0x8000_0000_0000_0000 ==> a.total_key()
            < b.total_key(),
{
}

} // verus!
