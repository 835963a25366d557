//! Single-precision numbers by their IEEE 754 bit patterns: what order they are in.

use vstd::prelude::*;

verus! {

/// The bit pattern of 1.
pub const ONE_BITS: u32 = 0x3f80_0000;

/// The magnitude of a number, as a bit pattern without its sign.
pub open spec fn magnitude(bits: u32) -> int {
    if bits < 0x8000_0000 {
        bits as int
    } else {
        bits - 0x8000_0000
    }
}

/// The pattern stands for no number.
pub open spec fn is_nan(bits: u32) -> bool {
    magnitude(bits) > 0x7f80_0000
}

/// The place of a pattern in the total order of patterns: the order of the numbers, with minus
/// zero before plus zero and the patterns that are no number at the ends.
pub open spec fn total_rank(bits: u32) -> int {
    if bits < 0x8000_0000 {
        bits as int
    } else {
        -magnitude(bits) - 1
    }
}

/// The number is below the positive number `bound`.
pub open spec fn is_below(bits: u32, bound: u32) -> bool {
    !is_nan(bits) && total_rank(bits) < total_rank(bound)
}

/// The number is at least the positive number `bound`.
pub open spec fn is_at_least(bits: u32, bound: u32) -> bool {
    !is_nan(bits) && total_rank(bits) >= total_rank(bound)
}

/// The number, brought into the range from 0 to 1; minus zero, and what is no number, stay.
pub open spec fn unit_clamped(bits: u32) -> u32 {
    if is_nan(bits) {
        bits
    } else if bits > 0x8000_0000 {
        0
    } else if bits < 0x8000_0000 && bits > ONE_BITS {
        ONE_BITS
    } else {
        bits
    }
}

/// Whether the pattern stands for no number.
fn nan(bits: u32) -> (yes: bool)
    ensures
        yes == is_nan(bits),
{
    if bits < 0x8000_0000 {
        bits > 0x7f80_0000
    } else {
        bits - 0x8000_0000 > 0x7f80_0000
    }
}

/// Whether `left` comes before `right` in the total order of patterns.
pub fn ranks_below(left: u32, right: u32) -> (yes: bool)
    ensures
        yes == (total_rank(left) < total_rank(right)),
{
    if left < 0x8000_0000 {
        right < 0x8000_0000 && left < right
    } else {
        right < 0x8000_0000 || left > right
    }
}

/// Whether the number is below the positive number `bound`.
pub fn below(bits: u32, bound: u32) -> (yes: bool)
    ensures
        yes == is_below(bits, bound),
{
    !nan(bits) && ranks_below(bits, bound)
}

/// Whether the number is at least the positive number `bound`.
pub fn at_least(bits: u32, bound: u32) -> (yes: bool)
    ensures
        yes == is_at_least(bits, bound),
{
    !nan(bits) && !ranks_below(bits, bound)
}

/// Brings the number into the range from 0 to 1.
pub fn clamp_to_unit(bits: u32) -> (clamped: u32)
    ensures
        clamped == unit_clamped(bits),
{
    if nan(bits) {
        bits
    } else if bits > 0x8000_0000 {
        0
    } else if bits < 0x8000_0000 && bits > ONE_BITS {
        ONE_BITS
    } else {
        bits
    }
}

/// `best` is the last of the highest of `scores`.
pub open spec fn is_last_highest(scores: Seq<u32>, best: int) -> bool {
    &&& 0 <= best < scores.len()
    &&& forall|i: int| 0 <= i < scores.len() ==> total_rank(#[trigger] scores[i]) <= total_rank(scores[best])
    &&& forall|i: int| best < i < scores.len() ==> total_rank(#[trigger] scores[i]) < total_rank(scores[best])
}

/// The last of the highest of `scores`.
pub fn last_highest(scores: &Vec<u32>) -> (best: usize)
    requires
        scores@.len() > 0,
    ensures
        is_last_highest(scores@, best as int),
{
    let mut best: usize = 0;
    let mut i: usize = 1;
    while i < scores.len()
        invariant
            1 <= i <= scores@.len(),
            best < i,
            forall|j: int| 0 <= j < i ==> total_rank(#[trigger] scores@[j]) <= total_rank(scores@[best as int]),
            forall|j: int|
                best < j < i ==> total_rank(#[trigger] scores@[j]) < total_rank(scores@[best as int]),
        decreases scores@.len() - i,
    {
        if !ranks_below(scores[i], scores[best]) {
            best = i;
        }
        i += 1;
    }
    best
}

/// A number that was brought into the range from 0 to 1 lies there, and one that lay there stays.
pub proof fn law_clamped_numbers_lie_in_the_range(bits: u32)
    requires
        !is_nan(bits),
    ensures
        total_rank(0x8000_0000) <= total_rank(unit_clamped(bits)) <= total_rank(ONE_BITS),
        total_rank(0) <= total_rank(bits) <= total_rank(ONE_BITS) ==> unit_clamped(bits) == bits,
{
}

/// The order of the patterns is that of their numbers: without the sign bit, the larger pattern is the
/// larger number; with it, the smaller one; and what is negative lies below what is not. A number lies
/// below a bound or is at least as large, never both, and one that does so does so with every number
/// beyond it.
pub proof fn law_patterns_order_as_their_numbers(left: u32, right: u32, bound: u32)
    requires
        !is_nan(left),
        !is_nan(right),
    ensures
        left < right < 0x8000_0000 ==> total_rank(left) < total_rank(right),
        0x8000_0000 <= left < right ==> total_rank(left) > total_rank(right),
        left < 0x8000_0000 <= right ==> total_rank(left) > total_rank(right),
        is_below(left, bound) <==> !is_at_least(left, bound),
        is_at_least(left, left),
        total_rank(left) <= total_rank(right) && is_at_least(left, bound) ==> is_at_least(right, bound),
        total_rank(left) <= total_rank(right) && is_below(right, bound) ==> is_below(left, bound),
{
}

/// What lies outside the range from 0 to 1 is brought to its nearer end.
pub proof fn law_clamping_goes_to_the_nearer_end(bits: u32)
    requires
        !is_nan(bits),
    ensures
        bits > 0x8000_0000 ==> unit_clamped(bits) == 0,
        total_rank(bits) > total_rank(ONE_BITS) ==> unit_clamped(bits) == ONE_BITS,
        total_rank(0) <= total_rank(bits) <= total_rank(ONE_BITS) ==> unit_clamped(bits) == bits,
{
}

/// The last of the highest scores is one of them, and none is higher; of equal ones it is the last.
pub proof fn law_the_highest_score_is_found(scores: Seq<u32>, best: int, i: int)
    requires
        is_last_highest(scores, best),
        0 <= i < scores.len(),
    ensures
        0 <= best < scores.len(),
        total_rank(scores[i]) <= total_rank(scores[best]),
        scores[i] == scores[best] ==> i <= best,
{
}

/// The number of the positive pattern `bits`, of which `steps` steps make one, is as near as can be to
/// `numerator` by `denominator`: at most half a step away.
pub open spec fn is_nearest_to(bits: u32, numerator: int, denominator: int, steps: int) -> bool {
    let mantissa = 0x80_0000 + bits as int % 0x80_0000;
    -denominator <= 2 * (mantissa * denominator - numerator * steps) <= denominator
}

/// The pattern that is used for one stands for one.
pub proof fn law_one_is_one()
    ensures
        is_nearest_to(ONE_BITS, 1, 1, 0x80_0000),
        ONE_BITS / 0x80_0000 == 127,
{
}

/// What is no number has all bits of the exponent set and some of the mantissa, whatever its sign; both
/// zeros are numbers, and neither they nor what is no number are changed by bringing them into the range.
pub proof fn law_what_is_no_number_stays(bits: u32)
    ensures
        is_nan(bits) <==> bits as int % 0x8000_0000 / 0x80_0000 == 255 && bits as int % 0x80_0000 > 0,
        is_nan(bits) ==> unit_clamped(bits) == bits && !is_below(bits, ONE_BITS) && !is_at_least(bits, 0),
        !is_nan(0) && !is_nan(0x8000_0000),
        unit_clamped(0) == 0 && unit_clamped(0x8000_0000) == 0x8000_0000,
        total_rank(0x8000_0000) < total_rank(0),
{
}

} // verus!
