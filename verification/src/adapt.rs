//! The adaptation law: how one weight moves after a bit was coded.

use vstd::prelude::*;
use vstd::arithmetic::power2::{pow2, lemma_pow2_pos, lemma2_to64};
use vstd::wrapping::i32_specs::signed_crop;
use crate::bits::{bit_length, ilog2, lemma_bit_length_bound, lemma_shr_is_floor_div};
use crate::scale::{full_scale, is_prob, Prob, LOG2_SCALE};

verus! {

/// The step that the adaptation law adds to the weight of a predictor that said `prob` when the
/// blended probability was `weighted_prob`.
///
/// The error `2^L - weighted_prob` times the efficacy `2^L * prob - weighted_prob * 2^L` is
/// divided, rounding down, by the power of two next above the variance term
/// `weighted_prob * (2^L - weighted_prob)`.
pub open spec fn weight_step(prob: int, weighted_prob: int) -> int {
    let error = full_scale() - weighted_prob;
    let efficacy = full_scale() * prob - weighted_prob * full_scale();
    let variance = weighted_prob * (full_scale() - weighted_prob);
    (error * efficacy) / (pow2(bit_length(variance as nat)) as int)
}

/// The weight that follows `weight`: the sum of weight and step, reduced to 32 bits as a signed
/// integer and raised to the floor of one.
pub open spec fn adapted_weight(weight: int, prob: int, weighted_prob: int) -> int {
    let moved = signed_crop(weight + weight_step(prob, weighted_prob)) as int;
    if moved < 1 {
        1
    } else {
        moved
    }
}

/// The slot that the flag selects.
pub open spec fn slot(index_equal_1: bool) -> int {
    if index_equal_1 {
        1
    } else {
        0
    }
}

/// The new weight of one slot under the integer adaptation law.
pub fn compute_new_weight(
    probs: [Prob; 2],
    weighted_prob: Prob,
    weights: [i32; 2],
    index_equal_1: bool,
    _speed: u8,
) -> (new_weight: i32)
    requires
        weighted_prob >= 0,
    ensures
        new_weight == adapted_weight(
            weights[slot(index_equal_1)] as int,
            probs[slot(index_equal_1)] as int,
            weighted_prob as int,
        ),
{
    let index: usize = if index_equal_1 { 1 } else { 0 };
    let full_model_sum_p1: i64 = i64::from(weighted_prob);
    assert(1i64 << 15u32 == 0x8000) by (bit_vector);
    let full_model_total: i64 = 1i64 << LOG2_SCALE;
    let full_model_sum_p0: i64 = full_model_total.wrapping_sub(i64::from(weighted_prob));
    let n1i: i64 = i64::from(probs[index]);
    let ni: i64 = 1i64 << LOG2_SCALE;
    let error: i64 = full_model_total.wrapping_sub(full_model_sum_p1);
    let wi: i64 = i64::from(weights[index]);
    proof {
        lemma_step_bounds(n1i as int, full_model_sum_p1 as int);
        assert(full_model_total * n1i == 0x8000 * n1i);
        assert(full_model_sum_p1 * ni == full_model_sum_p1 * 0x8000);
    }
    let efficacy: i64 = full_model_total.wrapping_mul(n1i) - full_model_sum_p1.wrapping_mul(ni);
    let variance: i64 = full_model_sum_p1.wrapping_mul(full_model_sum_p0);
    let log_geometric_probabilities: u32 = ilog2(variance);
    let product: i64 = error.wrapping_mul(efficacy);
    proof {
        lemma_shr_is_floor_div(product, log_geometric_probabilities);
    }
    let new_weight_adj: i64 = product >> log_geometric_probabilities;
    let sum: i64 = wi.wrapping_add(new_weight_adj);
    let moved: i32 = #[verifier::truncate] (sum as i32);
    proof {
        lemma_truncate_is_crop(sum);
    }
    if moved < 1 { 1 } else { moved }
}

/// Narrowing a 64-bit integer to 32 bits keeps its residue modulo `2^32`, read as signed.
proof fn lemma_truncate_is_crop(x: i64)
    ensures
        x as i32 == signed_crop(x as int),
{
    let r = x as i32;
    assert(r == (if (x % 0x1_0000_0000) > 0x7fff_ffff {
        (x % 0x1_0000_0000) - 0x1_0000_0000
    } else {
        (x % 0x1_0000_0000) as int
    })) by (bit_vector)
        requires
            r == x as i32,
    ;
}

/// The sizes of the terms of the adaptation law, for a predictor's word `prob` and a blended
/// probability `weighted_prob` that is not negative: none of them leaves 64 bits, and the
/// variance term has at most 30 significant bits.
pub proof fn lemma_step_bounds(prob: int, weighted_prob: int)
    requires
        -0x8000 <= prob < 0x8000,
        0 <= weighted_prob < 0x8000,
    ensures
        0 <= weighted_prob * (full_scale() - weighted_prob) < 0x4000_0000,
        bit_length((weighted_prob * (full_scale() - weighted_prob)) as nat) <= 30,
        -0x8000_0000_0000 <= (full_scale() - weighted_prob) * (full_scale() * prob
            - weighted_prob * full_scale()) <= 0x8000_0000_0000,
        -0x8000_0000_0000 <= weight_step(prob, weighted_prob) <= 0x8000_0000_0000,
{
    let error = full_scale() - weighted_prob;
    let efficacy = full_scale() * prob - weighted_prob * full_scale();
    let variance = weighted_prob * error;
    assert(0 <= variance < 0x4000_0000) by (nonlinear_arith)
        requires
            0 <= weighted_prob < 0x8000,
            0 < error <= 0x8000,
            variance == weighted_prob * error,
    ;
    lemma2_to64();
    lemma_bit_length_bound(variance as nat, 30);
    assert(-0x8000_0000_0000 <= error * efficacy <= 0x8000_0000_0000) by (nonlinear_arith)
        requires
            0 < error <= 0x8000,
            -0x1_0000_0000 <= efficacy <= 0x1_0000_0000,
    ;
    let d = pow2(bit_length(variance as nat)) as int;
    lemma_pow2_pos(bit_length(variance as nat));
    lemma_floor_div_within(error * efficacy, d, 0x8000_0000_0000);
}

/// Which way a weight moves. For a blended probability of at least one, the step has the sign
/// of the difference between the predictor's word and the blended probability, and is no
/// larger than that difference at full scale: a predictor that said what was coded keeps its
/// weight, one that said less loses, and one that said more gains.
pub proof fn lemma_step_direction(prob: int, weighted_prob: int)
    requires
        is_prob(prob),
        is_prob(weighted_prob),
        weighted_prob >= 1,
    ensures
        prob == weighted_prob ==> weight_step(prob, weighted_prob) == 0,
        prob < weighted_prob ==> full_scale() * (prob - weighted_prob) <= weight_step(
            prob,
            weighted_prob,
        ) < 0,
        prob > weighted_prob ==> 0 <= weight_step(prob, weighted_prob) <= full_scale() * (prob
            - weighted_prob),
{
    let error = full_scale() - weighted_prob;
    let efficacy = full_scale() * prob - weighted_prob * full_scale();
    let variance = weighted_prob * error;
    let bits = bit_length(variance as nat);
    let d = pow2(bits) as int;
    assert(variance >= error) by (nonlinear_arith)
        requires
            variance == weighted_prob * error,
            weighted_prob >= 1,
            error > 0,
    ;
    lemma_bit_length_bound(variance as nat, bits);
    assert(d > error);
    lemma_floor_div_between(error, efficacy, d);
}

/// The floor of `a * b / d` lies between zero and `b`, where `0 < a < d`; and it is zero only
/// where `b` is not negative.
proof fn lemma_floor_div_between(a: int, b: int, d: int)
    by (nonlinear_arith)
    requires
        0 < a < d,
    ensures
        b == 0 ==> (a * b) / d == 0,
        b < 0 ==> b <= (a * b) / d < 0,
        b > 0 ==> 0 <= (a * b) / d <= b,
{
    if b < 0 {
        assert(a * b < 0);
        assert(a * b >= d * b);
    } else if b > 0 {
        assert(a * b >= 0);
        assert(a * b <= d * b);
    }
}

/// For a blended probability of at least one and a weight as the guard leaves it, the sum of
/// weight and step fits in 32 bits: the new weight is that sum, raised to the floor of one.
/// So it has at most 24 significant bits exactly where the sum is below `2^24`, which it is
/// wherever the predictor said no more than the blended probability.
pub proof fn lemma_adapted_weight_exact(weight: int, prob: int, weighted_prob: int)
    requires
        0 <= weight < 0x100_0000,
        is_prob(prob),
        is_prob(weighted_prob),
        weighted_prob >= 1,
    ensures
        adapted_weight(weight, prob, weighted_prob) == (if weight + weight_step(
            prob,
            weighted_prob,
        ) < 1 {
            1
        } else {
            weight + weight_step(prob, weighted_prob)
        }),
        adapted_weight(weight, prob, weighted_prob) < 0x100_0000 <==> weight + weight_step(
            prob,
            weighted_prob,
        ) < 0x100_0000,
        prob <= weighted_prob ==> adapted_weight(weight, prob, weighted_prob) < 0x100_0000,
{
    lemma_step_direction(prob, weighted_prob);
}

/// A floor division by a positive number keeps a value within the bounds it had.
proof fn lemma_floor_div_within(x: int, d: int, bound: int)
    by (nonlinear_arith)
    requires
        d > 0,
        -bound <= x <= bound,
    ensures
        -bound <= x / d <= bound,
{
}

} // verus!
