//! The overflow guard: both weights are scaled down together until the larger fits in 24 bits.

use vstd::prelude::*;
use vstd::arithmetic::power2::{pow2, lemma_pow2_pos, lemma2_to64};
use crate::bits::{
    bit_length, ilog2, lemma_bit_length_bound, lemma_bit_length_monotonic, lemma_floor_div_unique,
    lemma_shr32_is_floor_div,
};

verus! {

/// The number of significant bits that the guard leaves to the larger weight.
pub const MAX_WEIGHT_BITS: u32 = 24;

/// The bound that the guard puts on both weights, `2^MAX_WEIGHT_BITS`.
pub open spec fn weight_limit() -> int {
    0x100_0000
}

/// By how many bits the guard shifts the pair `(w0, w1)`: the excess of the larger weight's bit
/// length over 24, and nothing where it has none.
pub open spec fn guard_shift(w0: int, w1: int) -> nat {
    let top = bit_length((if w0 < w1 { w1 } else { w0 }) as nat);
    if top > 24 {
        (top - 24) as nat
    } else {
        0
    }
}

/// The weight `w` after a guard shift by `shift` bits.
pub open spec fn guarded(w: int, shift: nat) -> int {
    w / (pow2(shift) as int)
}

/// Scales both weights down by the guard shift of the pair.
pub fn fix_weights(weights: &mut [i32; 2])
    requires
        old(weights)[0] >= 0,
        old(weights)[1] >= 0,
    ensures
        final(weights)[0] == guarded(
            old(weights)[0] as int,
            guard_shift(old(weights)[0] as int, old(weights)[1] as int),
        ),
        final(weights)[1] == guarded(
            old(weights)[1] as int,
            guard_shift(old(weights)[0] as int, old(weights)[1] as int),
        ),
{
    let bits0: u32 = ilog2(weights[0] as i64);
    let bits1: u32 = ilog2(weights[1] as i64);
    let ilog: u32 = if bits0 < bits1 { bits1 } else { bits0 };
    let max_log: u32 = MAX_WEIGHT_BITS;
    proof {
        let w0 = weights[0] as nat;
        let w1 = weights[1] as nat;
        lemma2_to64();
        lemma_bit_length_bound(w0, 31);
        lemma_bit_length_bound(w1, 31);
        if w0 < w1 {
            lemma_bit_length_monotonic(w0, w1);
        } else {
            lemma_bit_length_monotonic(w1, w0);
        }
    }
    if ilog >= max_log {
        let shift: u32 = ilog - max_log;
        proof {
            lemma_shr32_is_floor_div(weights[0], shift);
            lemma_shr32_is_floor_div(weights[1], shift);
        }
        weights[0] >>= shift;
        weights[1] >>= shift;
    } else {
        proof {
            lemma_floor_div_unique(weights[0] as int, pow2(0) as int, weights[0] as int);
            lemma_floor_div_unique(weights[1] as int, pow2(0) as int, weights[1] as int);
        }
    }
}

/// The overflow guard. Where either weight has a bit set above the 24th, both are scaled down
/// by the guard shift of the pair; otherwise that shift is zero and they stay as they are.
pub fn normalize_weights(weights: &mut [i32; 2])
    requires
        old(weights)[0] >= 0,
        old(weights)[1] >= 0,
    ensures
        final(weights)[0] == guarded(
            old(weights)[0] as int,
            guard_shift(old(weights)[0] as int, old(weights)[1] as int),
        ),
        final(weights)[1] == guarded(
            old(weights)[1] as int,
            guard_shift(old(weights)[0] as int, old(weights)[1] as int),
        ),
{
    if ((weights[0] | weights[1]) & 0x7f000000) != 0 {
        fix_weights(weights);
    } else {
        proof {
            let w0: i32 = weights[0];
            let w1: i32 = weights[1];
            assert(w0 < 0x100_0000 && w1 < 0x100_0000) by (bit_vector)
                requires
                    w0 >= 0,
                    w1 >= 0,
                    ((w0 | w1) & 0x7f000000) == 0,
            ;
            lemma2_to64();
            lemma_bit_length_bound(w0 as nat, 24);
            lemma_bit_length_bound(w1 as nat, 24);
            lemma_floor_div_unique(w0 as int, pow2(0) as int, w0 as int);
            lemma_floor_div_unique(w1 as int, pow2(0) as int, w1 as int);
        }
    }
}

/// What the guard leaves of a pair of weights that are not negative.
///
/// Both weights are below `2^24` and neither has grown. Both were divided by the same power of
/// two, so that each guarded weight is the old one at that scale, rounded down. Where the
/// guard had to shift, the larger weight keeps all of its 24 bits. A second guard changes
/// nothing: its shift is zero.
pub proof fn lemma_guard_bounds(w0: int, w1: int)
    requires
        0 <= w0,
        0 <= w1,
    ensures
        ({
            let shift = guard_shift(w0, w1);
            let scale = pow2(shift) as int;
            let g0 = guarded(w0, shift);
            let g1 = guarded(w1, shift);
            &&& 0 <= g0 <= w0 && g0 < weight_limit()
            &&& 0 <= g1 <= w1 && g1 < weight_limit()
            &&& scale * g0 <= w0 < scale * (g0 + 1)
            &&& scale * g1 <= w1 < scale * (g1 + 1)
            &&& shift > 0 ==> g0 >= weight_limit() / 2 || g1 >= weight_limit() / 2
            &&& guard_shift(g0, g1) == 0
        }),
{
    let larger = if w0 < w1 { w1 } else { w0 };
    let top = bit_length(larger as nat);
    let shift = guard_shift(w0, w1);
    let scale = pow2(shift) as int;
    let g0 = guarded(w0, shift);
    let g1 = guarded(w1, shift);
    lemma2_to64();
    lemma_pow2_pos(shift);
    lemma_bit_length_bound(larger as nat, top);
    if top > 24 {
        vstd::arithmetic::power2::lemma_pow2_adds(shift, 24);
        vstd::arithmetic::power2::lemma_pow2_adds(shift, 23);
        lemma_bit_length_bound(larger as nat, (top - 1) as nat);
        assert(larger >= scale * 0x80_0000);
        assert(larger / scale >= 0x80_0000) by (nonlinear_arith)
            requires
                scale > 0,
                larger >= scale * 0x80_0000,
        ;
    } else {
        lemma_bit_length_bound(larger as nat, 24);
    }
    assert(larger < scale * 0x100_0000);
    lemma_floor_div_bounds(w0, scale, 0x100_0000);
    lemma_floor_div_bounds(w1, scale, 0x100_0000);
    let after = if g0 < g1 { g1 } else { g0 };
    lemma_bit_length_bound(after as nat, 24);
}

/// The floor of a division of a number that is not negative: where it lies, and that it is
/// below `limit` where the number is below the divisor's multiple of it.
proof fn lemma_floor_div_bounds(x: int, d: int, limit: int)
    by (nonlinear_arith)
    requires
        d > 0,
        0 <= x < d * limit,
    ensures
        0 <= x / d <= x,
        x / d < limit,
        d * (x / d) <= x < d * (x / d + 1),
{
}

} // verus!
