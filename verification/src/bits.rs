//! Bit lengths of integers and their arithmetic meaning.

use vstd::prelude::*;
use vstd::arithmetic::power2::{pow2, lemma_pow2_pos, lemma_pow2_unfold, lemma2_to64, lemma2_to64_rest};
use vstd::std_specs::bits::{u64_leading_zeros, axiom_u64_leading_zeros};

verus! {

/// The number of significant bits of `n`: the least `k` with `n < 2^k`.
pub open spec fn bit_length(n: nat) -> nat
    decreases n,
{
    if n == 0 {
        0
    } else {
        1 + bit_length(n / 2)
    }
}

/// `n` has at most `k` significant bits exactly when it is below `2^k`.
pub proof fn lemma_bit_length_bound(n: nat, k: nat)
    ensures
        bit_length(n) <= k <==> n < pow2(k),
    decreases n,
{
    lemma_pow2_pos(k);
    if n != 0 {
        if k == 0 {
            lemma2_to64();
        } else {
            lemma_pow2_unfold(k);
            lemma_bit_length_bound(n / 2, (k - 1) as nat);
        }
    }
}

/// A larger number has at least as many significant bits.
pub proof fn lemma_bit_length_monotonic(a: nat, b: nat)
    requires
        a <= b,
    ensures
        bit_length(a) <= bit_length(b),
    decreases b,
{
    if a != 0 {
        lemma_bit_length_monotonic(a / 2, b / 2);
    }
}

/// Counting the leading zeros of a 64-bit word counts its significant bits from the other end.
pub proof fn lemma_leading_zeros_bit_length(i: u64)
    ensures
        64 - u64_leading_zeros(i) == bit_length(i as nat),
    decreases i,
{
    reveal(u64_leading_zeros);
    if i != 0 {
        lemma_leading_zeros_bit_length(i / 2);
    }
}

/// The number of significant bits of a 64-bit integer; a negative one has all 64.
pub fn ilog2(item: i64) -> (r: u32)
    ensures
        item >= 0 ==> r == bit_length(item as nat),
        item < 0 ==> r == 64,
{
    let word: u64 = #[verifier::truncate] (item as u64);
    proof {
        lemma_leading_zeros_bit_length(word);
        axiom_u64_leading_zeros(word);
        assert(item >= 0 ==> word == item) by (bit_vector)
            requires
                word == item as u64,
        ;
        assert(item < 0 ==> word >= 0x8000_0000_0000_0000u64) by (bit_vector)
            requires
                word == item as u64,
        ;
        if item < 0 {
            lemma2_to64_rest();
            lemma_bit_length_bound(word as nat, 63);
        }
    }
    64 - word.leading_zeros()
}

/// Halving by a one-bit arithmetic shift rounds towards minus infinity.
proof fn lemma_shr_one(y: i64)
    ensures
        2 * (y >> 1u32) <= y <= 2 * (y >> 1u32) + 1,
{
    assert(2 * (y >> 1u32) <= y <= 2 * (y >> 1u32) + 1) by (bit_vector);
}

/// Shifting by `s` is shifting by `s - 1` and then by one more.
proof fn lemma_shr_step(x: i64, s: u32)
    requires
        0 < s < 64,
    ensures
        x >> s == (x >> ((s - 1) as u32)) >> 1u32,
{
    assert(0 < s < 64 ==> x >> s == (x >> ((s - 1) as u32)) >> 1u32) by (bit_vector);
}

/// An arithmetic right shift of a signed integer is the floor of a division by a power of two.
pub proof fn lemma_shr_is_floor_div(x: i64, s: u32)
    requires
        s < 64,
    ensures
        (x >> s) as int == (x as int) / (pow2(s as nat) as int),
    decreases s,
{
    let d = pow2(s as nat) as int;
    let q = (x >> s) as int;
    lemma_pow2_pos(s as nat);
    if s == 0 {
        assert(x >> 0u32 == x) by (bit_vector);
        lemma2_to64();
    } else {
        let t = (s - 1) as u32;
        lemma_shr_is_floor_div(x, t);
        lemma_shr_step(x, s);
        lemma_shr_one(x >> t);
        lemma_pow2_unfold(s as nat);
        lemma_pow2_pos(t as nat);
        let h = pow2(t as nat) as int;
        let m = (x >> t) as int;
        assert(h * m <= x < h * (m + 1)) by (nonlinear_arith)
            requires
                h > 0,
                m == (x as int) / h,
        ;
        assert(d * q <= x < d * (q + 1)) by (nonlinear_arith)
            requires
                h > 0,
                d == 2 * h,
                2 * q <= m <= 2 * q + 1,
                h * m <= x < h * (m + 1),
        ;
        lemma_floor_div_unique(x as int, d, q);
    }
}

/// The quotient of a floor division is the one integer `q` with `d * q <= x < d * (q + 1)`.
pub proof fn lemma_floor_div_unique(x: int, d: int, q: int)
    by (nonlinear_arith)
    requires
        d > 0,
        d * q <= x < d * (q + 1),
    ensures
        x / d == q,
{
}

/// The same for a 32-bit integer.
pub proof fn lemma_shr32_is_floor_div(x: i32, s: u32)
    requires
        s < 32,
    ensures
        (x >> s) as int == (x as int) / (pow2(s as nat) as int),
{
    let wide: i64 = x as i64;
    assert(s < 32 ==> (x >> s) as i64 == (x as i64) >> s) by (bit_vector);
    lemma_shr_is_floor_div(wide, s);
}

} // verus!
