//! The share of the first weight in the sum of both, as a fixed-point fraction.
//!
//! The division itself is not done here. The two weights are brought down to eight bits, and
//! the caller's reciprocal table and fast divide turn them into the fraction.

use vstd::prelude::*;
use vstd::arithmetic::power2::{pow2, lemma_pow2_pos, lemma2_to64};
use vstd::wrapping::i16_specs::signed_crop;
use crate::bits::{
    bit_length, ilog2, lemma_bit_length_bound, lemma_floor_div_unique, lemma_shr32_is_floor_div,
    lemma_shr_is_floor_div,
};
use crate::scale::BLEND_FIXED_POINT_PRECISION;

verus! {

/// By how many bits a sum of two weights is shifted down to leave it eight significant bits.
pub open spec fn ratio_shift(total: int) -> nat {
    let bits = bit_length(total as nat);
    if bits > 8 {
        (bits - 8) as nat
    } else {
        0
    }
}

/// The numerator handed to the fast divide: the first weight, shifted down as the sum is, in
/// the upper byte of a 16-bit word.
pub open spec fn ratio_numerator(w0: int, w1: int) -> int {
    (w0 / (pow2(ratio_shift(w0 + w1)) as int)) * 256
}

/// The denominator handed to the reciprocal table: the sum of both weights, shifted down to
/// eight significant bits.
pub open spec fn ratio_denominator(w0: int, w1: int) -> int {
    (w0 + w1) / (pow2(ratio_shift(w0 + w1)) as int)
}

/// An eight-bit reciprocal at the precision of a normalized weight: multiplied by
/// `2^(BLEND_FIXED_POINT_PRECISION - 8)` within 16 bits.
pub open spec fn rescaled_reciprocal(reciprocal: i16) -> i16 {
    signed_crop(reciprocal * 128)
}

/// The fraction that the mixer keeps for a quotient: a negative one stands for a quotient
/// that left the 15 bits of a fraction, and the largest fraction takes its place.
pub open spec fn clamped_fraction(quotient: i16) -> i16 {
    if quotient < 0 {
        0x7fff
    } else {
        quotient
    }
}

/// The operands of the division for the weights `(w0, w1)`: numerator and denominator.
pub fn ratio_operands(model_weights0: i32, model_weights1: i32) -> (operands: (u16, u8))
    requires
        model_weights0 >= 0,
        model_weights1 >= 0,
    ensures
        operands.0 == ratio_numerator(model_weights0 as int, model_weights1 as int),
        operands.1 == ratio_denominator(model_weights0 as int, model_weights1 as int),
{
    let total: i64 = i64::from(model_weights0) + i64::from(model_weights1);
    let bits: u32 = ilog2(total);
    let shift: u32 = if bits > 8 { bits - 8 } else { 0 };
    proof {
        lemma_ratio_operand_bounds(model_weights0 as int, model_weights1 as int);
        lemma_shr_is_floor_div(total, shift);
        lemma_shr32_is_floor_div(model_weights0, shift);
    }
    let total_8bit: i64 = total >> shift;
    let top: u16 = (model_weights0 >> shift) as u16;
    assert(top << 8u32 == top * 256) by (bit_vector)
        requires
            top < 256,
    ;
    let a_in: u16 = top << 8;
    (a_in, total_8bit as u8)
}

/// Both operands fit their words, and the numerator's upper byte does not exceed the
/// denominator.
pub proof fn lemma_ratio_operand_bounds(w0: int, w1: int)
    requires
        0 <= w0 < 0x8000_0000,
        0 <= w1 < 0x8000_0000,
    ensures
        ratio_shift(w0 + w1) <= 24,
        0 <= ratio_numerator(w0, w1) <= 256 * ratio_denominator(w0, w1),
        0 <= ratio_denominator(w0, w1) < 256,
        ratio_numerator(w0, w1) % 256 == 0,
        w0 + w1 < 256 ==> ratio_denominator(w0, w1) == w0 + w1 && ratio_numerator(w0, w1) == 256
            * w0,
        w0 + w1 >= 128 ==> ratio_denominator(w0, w1) >= 128,
{
    let total = w0 + w1;
    let bits = bit_length(total as nat);
    let shift = ratio_shift(total);
    let d = pow2(shift) as int;
    lemma2_to64();
    lemma_pow2_pos(shift);
    lemma_bit_length_bound(total as nat, 32);
    lemma_bit_length_bound(total as nat, bits);
    if bits > 8 {
        vstd::arithmetic::power2::lemma_pow2_adds(shift, 8);
        vstd::arithmetic::power2::lemma_pow2_adds(shift, 7);
        lemma_bit_length_bound(total as nat, (bits - 1) as nat);
        assert(total >= d * 128);
        assert(total / d >= 128) by (nonlinear_arith)
            requires
                d > 0,
                total >= d * 128,
        ;
    } else {
        lemma_bit_length_bound(total as nat, 8);
        lemma_floor_div_unique(w0, d, w0);
        lemma_floor_div_unique(total, d, total);
    }
    assert(total < d * 256);
    assert(0 <= w0 / d <= total / d < 256) by (nonlinear_arith)
        requires
            d > 0,
            0 <= w0 <= total,
            total < d * 256,
    ;
}

/// Where both weights are at least one, the denominator is at least two: the reciprocal
/// table is never asked for the reciprocal of zero or one.
pub proof fn lemma_ratio_denominator_positive(w0: int, w1: int)
    requires
        1 <= w0 < 0x8000_0000,
        1 <= w1 < 0x8000_0000,
    ensures
        2 <= ratio_denominator(w0, w1) < 256,
{
    lemma_ratio_operand_bounds(w0, w1);
}

/// Whether the two primitives can be called for the share of `w0` in `w0 + w1`: `lookup` on
/// the denominator, and `fast_divide` on the numerator and whatever reciprocal `lookup` may
/// give, rescaled.
pub open spec fn can_divide<L: Fn(u8) -> i16, D: Fn(u16, i16) -> i16>(
    lookup: L,
    fast_divide: D,
    w0: int,
    w1: int,
) -> bool {
    let numerator = ratio_numerator(w0, w1) as u16;
    let denominator = ratio_denominator(w0, w1) as u8;
    &&& lookup.requires((denominator,))
    &&& forall|reciprocal: i16|
        #![trigger lookup.ensures((denominator,), reciprocal)]
        lookup.ensures((denominator,), reciprocal) ==> fast_divide.requires(
            (numerator, rescaled_reciprocal(reciprocal)),
        )
}

/// Whether `quotient` can come out of the two primitives as the share of `w0` in `w0 + w1`:
/// out of a call of `fast_divide` on the numerator and the rescaled outcome of a call of
/// `lookup` on the denominator.
pub open spec fn divides_to<L: Fn(u8) -> i16, D: Fn(u16, i16) -> i16>(
    lookup: L,
    fast_divide: D,
    w0: int,
    w1: int,
    quotient: i16,
) -> bool {
    let numerator = ratio_numerator(w0, w1) as u16;
    let denominator = ratio_denominator(w0, w1) as u8;
    exists|reciprocal: i16|
        #![trigger lookup.ensures((denominator,), reciprocal)]
        lookup.ensures((denominator,), reciprocal) && fast_divide.ensures(
            (numerator, rescaled_reciprocal(reciprocal)),
            quotient,
        )
}

/// The share of the first weight in the sum of both, at the precision of a normalized weight,
/// as the caller's primitives compute it: `lookup_divisor8` gives the reciprocal of an
/// eight-bit denominator, and `fast_divide_16bit_by_8bit` multiplies a 16-bit numerator by a
/// rescaled reciprocal.
pub fn compute_normalized_weight<L: Fn(u8) -> i16, D: Fn(u16, i16) -> i16>(
    model_weights0: i32,
    model_weights1: i32,
    lookup_divisor8: L,
    fast_divide_16bit_by_8bit: D,
) -> (quotient: i16)
    requires
        model_weights0 >= 0,
        model_weights1 >= 0,
        can_divide(
            lookup_divisor8,
            fast_divide_16bit_by_8bit,
            model_weights0 as int,
            model_weights1 as int,
        ),
    ensures
        divides_to(
            lookup_divisor8,
            fast_divide_16bit_by_8bit,
            model_weights0 as int,
            model_weights1 as int,
            quotient,
        ),
{
    let (a_in, total_8bit) = ratio_operands(model_weights0, model_weights1);
    let b_in: i16 = lookup_divisor8(total_8bit);
    let b_in_shifted: i16 = rescale_reciprocal(b_in);
    fast_divide_16bit_by_8bit(a_in, b_in_shifted)
}

/// Brings an eight-bit reciprocal to the precision of a normalized weight.
pub fn rescale_reciprocal(reciprocal: i16) -> (rescaled: i16)
    ensures
        rescaled == rescaled_reciprocal(reciprocal),
{
    assert(reciprocal << 7i8 == (if ((reciprocal * 128) % 0x1_0000) > 0x7fff {
        ((reciprocal * 128) % 0x1_0000) - 0x1_0000
    } else {
        (reciprocal * 128) % 0x1_0000
    })) by (bit_vector);
    reciprocal << (BLEND_FIXED_POINT_PRECISION - 8)
}

/// Keeps a quotient that is a fraction, and puts the largest fraction in place of one that
/// came out negative.
pub fn clamp_fraction(quotient: i16) -> (fraction: i16)
    ensures
        fraction == clamped_fraction(quotient),
        0 <= fraction < 0x8000,
{
    if quotient < 0 {
        32767
    } else {
        quotient
    }
}

} // verus!
