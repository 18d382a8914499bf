//! The fixed-point scales that the mixer shares with everything that hands it a probability.

use vstd::prelude::*;

verus! {

/// A probability that the next bit is one, as a fraction of `2^LOG2_SCALE`.
pub type Prob = i16;

/// The binary logarithm of the scale of a [`Prob`].
pub const LOG2_SCALE: u32 = 15;

/// The binary logarithm of the scale of a normalized weight.
pub const BLEND_FIXED_POINT_PRECISION: i8 = 15;

/// The scale of a [`Prob`], `2^LOG2_SCALE`: the value that stands for certainty.
pub open spec fn full_scale() -> int {
    0x8000
}

/// The scale of a normalized weight, `2^BLEND_FIXED_POINT_PRECISION`.
pub open spec fn blend_scale() -> int {
    0x8000
}

/// Whether `p` is a probability: a value in `[0, 2^LOG2_SCALE)`.
pub open spec fn is_prob(p: int) -> bool {
    0 <= p < full_scale()
}

} // verus!
