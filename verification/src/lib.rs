//! Adaptive weight mixing for a pair of probability predictors.
//!
//! A context-mixing coder blends the words of two predictors into one probability for each
//! bit. [`Weights`] keeps one weight for each predictor, moves both after every coded bit
//! towards the predictor that did better, and keeps the share of the first weight in their
//! sum as the fraction by which the coder blends.
//!
//! All of it is integer arithmetic at fixed scales (see [`scale`]). The division behind the
//! fraction is left to the coder's own pair of primitives, a reciprocal table over eight-bit
//! divisors and a fast divide of 16 bits by 8, which [`Weights::update`] takes as functions.

pub mod adapt;
pub mod bits;
pub mod guard;
pub mod laws;
pub mod ratio;
pub mod scale;
pub mod weights;

pub use scale::{Prob, BLEND_FIXED_POINT_PRECISION, LOG2_SCALE};
pub use weights::Weights;
