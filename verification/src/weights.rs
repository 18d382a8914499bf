//! The mixer: the weights of a pair of predictors and the fraction kept for blending them.

use vstd::prelude::*;
use crate::adapt::{adapted_weight, compute_new_weight};
use crate::guard::{guard_shift, guarded, normalize_weights};
use crate::ratio::{
    can_divide, clamp_fraction, clamped_fraction, compute_normalized_weight, divides_to,
};
use crate::scale::{blend_scale, Prob, BLEND_FIXED_POINT_PRECISION};

verus! {

/// The adaptive weights of a pair of predictors.
pub struct Weights {
    model_weights: [i32; 2],
    mixing_param: u8,
    normalized_weight: i16,
}

/// What a mixer holds, as mathematical integers.
pub struct MixerState {
    /// The weight of the first predictor.
    pub weight0: int,
    /// The weight of the second predictor.
    pub weight1: int,
    /// The control value: mixing is on above one, and adaptation is allowed above zero.
    pub mixing_param: int,
    /// The share of the first predictor, as a fraction of `2^BLEND_FIXED_POINT_PRECISION`.
    pub fraction: int,
}

impl View for Weights {
    type V = MixerState;

    closed spec fn view(&self) -> MixerState {
        MixerState {
            weight0: self.model_weights[0] as int,
            weight1: self.model_weights[1] as int,
            mixing_param: self.mixing_param as int,
            fraction: self.normalized_weight as int,
        }
    }
}

/// The state of a new mixer: equal weights of one, mixing off, and a fraction of one half.
pub open spec fn initial_state() -> MixerState {
    MixerState { weight0: 1, weight1: 1, mixing_param: 1, fraction: blend_scale() / 2 }
}

/// Whether `state` is one that a mixer can be in: both weights are positive 32-bit integers,
/// and the fraction is not negative and below the scale.
pub open spec fn valid_state(state: MixerState) -> bool {
    &&& 1 <= state.weight0 <= i32::MAX
    &&& 1 <= state.weight1 <= i32::MAX
    &&& 0 <= state.mixing_param <= u8::MAX
    &&& 0 <= state.fraction < blend_scale()
}

/// The state `state` with the control value `param`.
pub open spec fn with_mixing_param(state: MixerState, param: int) -> MixerState {
    MixerState { mixing_param: param, ..state }
}

/// Whether mixing is on in `state`: whether the control value is above one.
pub open spec fn mixing_enabled(state: MixerState) -> bool {
    state.mixing_param > 1
}

/// The weight of the slot `index` after an update of `state`, when the predictor of that slot
/// said `prob` and the blended probability was `weighted_prob`: the overflow guard is applied
/// to the pair of weights, and the adaptation law to the guarded weight of the slot.
pub open spec fn updated_weight(
    state: MixerState,
    index: int,
    prob: int,
    weighted_prob: int,
) -> int {
    let shift = guard_shift(state.weight0, state.weight1);
    let weight = if index == 0 {
        state.weight0
    } else {
        state.weight1
    };
    adapted_weight(guarded(weight, shift), prob, weighted_prob)
}

/// The pair of weights after [`Weights::update`], where the predictors said `probs`.
pub open spec fn update_weights(state: MixerState, probs: (int, int), weighted_prob: int) -> (
    int,
    int,
) {
    (
        updated_weight(state, 0, probs.0, weighted_prob),
        updated_weight(state, 1, probs.1, weighted_prob),
    )
}

/// The pair of weights after [`Weights::xupdate`], where the predictors said `probs`.
pub open spec fn xupdate_weights(state: MixerState, probs: (int, int), weighted_prob: int) -> (
    int,
    int,
) {
    (
        updated_weight(state, 0, probs.1, weighted_prob),
        updated_weight(state, 1, probs.0, weighted_prob),
    )
}

impl Weights {
    /// Whether the mixer is in a valid state. Every mixer that this module hands out is.
    pub open spec fn wf(&self) -> bool {
        valid_state(self@)
    }

    /// A mixer in its initial state.
    pub fn new() -> (mixer: Self)
        ensures
            mixer@ == initial_state(),
            mixer.wf(),
    {
        assert(1i16 << 14i8 == 0x4000) by (bit_vector);
        Weights {
            model_weights: [1, 1],
            mixing_param: 1,
            normalized_weight: 1 << (BLEND_FIXED_POINT_PRECISION - 1),
        }
    }

    /// Adapts the weights as [`Weights::update`] does, with the words of the two predictors
    /// in the other order.
    pub fn xupdate<L: Fn(u8) -> i16, D: Fn(u16, i16) -> i16>(
        &mut self,
        model_probs: [Prob; 2],
        weighted_prob: Prob,
        lookup_divisor8: L,
        fast_divide_16bit_by_8bit: D,
    )
        requires
            old(self).wf(),
            old(self)@.mixing_param != 0,
            weighted_prob >= 0,
            can_divide(
                lookup_divisor8,
                fast_divide_16bit_by_8bit,
                xupdate_weights(
                    old(self)@,
                    (model_probs[0] as int, model_probs[1] as int),
                    weighted_prob as int,
                ).0,
                xupdate_weights(
                    old(self)@,
                    (model_probs[0] as int, model_probs[1] as int),
                    weighted_prob as int,
                ).1,
            ),
        ensures
            final(self).wf(),
            (final(self)@.weight0, final(self)@.weight1) == xupdate_weights(
                old(self)@,
                (model_probs[0] as int, model_probs[1] as int),
                weighted_prob as int,
            ),
            final(self)@.mixing_param == old(self)@.mixing_param,
            exists|quotient: i16|
                #![trigger clamped_fraction(quotient)]
                final(self)@.fraction == clamped_fraction(quotient) && divides_to(
                    lookup_divisor8,
                    fast_divide_16bit_by_8bit,
                    final(self)@.weight0,
                    final(self)@.weight1,
                    quotient,
                ),
    {
        self.update(
            [model_probs[1], model_probs[0]],
            weighted_prob,
            lookup_divisor8,
            fast_divide_16bit_by_8bit,
        )
    }

    /// Adapts the weights to a coded bit, and computes the fraction anew.
    ///
    /// `model_probs` holds what the two predictors said, and `weighted_prob` the blended
    /// probability that the coder used. The overflow guard is applied to the pair of weights,
    /// then the adaptation law to each of them. The share of the first new weight in the sum
    /// of both is computed by the caller's two primitives, and kept as the fraction, with the
    /// largest fraction in place of a negative quotient.
    pub fn update<L: Fn(u8) -> i16, D: Fn(u16, i16) -> i16>(
        &mut self,
        model_probs: [Prob; 2],
        weighted_prob: Prob,
        lookup_divisor8: L,
        fast_divide_16bit_by_8bit: D,
    )
        requires
            old(self).wf(),
            old(self)@.mixing_param != 0,
            weighted_prob >= 0,
            can_divide(
                lookup_divisor8,
                fast_divide_16bit_by_8bit,
                update_weights(
                    old(self)@,
                    (model_probs[0] as int, model_probs[1] as int),
                    weighted_prob as int,
                ).0,
                update_weights(
                    old(self)@,
                    (model_probs[0] as int, model_probs[1] as int),
                    weighted_prob as int,
                ).1,
            ),
        ensures
            final(self).wf(),
            (final(self)@.weight0, final(self)@.weight1) == update_weights(
                old(self)@,
                (model_probs[0] as int, model_probs[1] as int),
                weighted_prob as int,
            ),
            final(self)@.mixing_param == old(self)@.mixing_param,
            exists|quotient: i16|
                #![trigger clamped_fraction(quotient)]
                final(self)@.fraction == clamped_fraction(quotient) && divides_to(
                    lookup_divisor8,
                    fast_divide_16bit_by_8bit,
                    final(self)@.weight0,
                    final(self)@.weight1,
                    quotient,
                ),
    {
        normalize_weights(&mut self.model_weights);
        let w0new = compute_new_weight(
            model_probs,
            weighted_prob,
            self.model_weights,
            false,
            self.mixing_param - 1,
        );
        let w1new = compute_new_weight(
            model_probs,
            weighted_prob,
            self.model_weights,
            true,
            self.mixing_param - 1,
        );
        self.model_weights = [w0new, w1new];
        let quotient = compute_normalized_weight(
            self.model_weights[0],
            self.model_weights[1],
            lookup_divisor8,
            fast_divide_16bit_by_8bit,
        );
        self.normalized_weight = clamp_fraction(quotient);
    }

    /// Sets the control value, and nothing else.
    pub fn set_mixing_param(&mut self, param: u8)
        ensures
            final(self)@ == with_mixing_param(old(self)@, param as int),
    {
        self.mixing_param = param;
    }

    /// Whether the two predictors are to be blended.
    pub fn should_mix(&self) -> (mix: bool)
        ensures
            mix == mixing_enabled(self@),
    {
        self.mixing_param > 1
    }

    /// The share of the first predictor, as a fraction of `2^BLEND_FIXED_POINT_PRECISION`.
    pub fn norm_weight(&self) -> (fraction: i16)
        ensures
            fraction == self@.fraction,
    {
        self.normalized_weight
    }

    /// The control value.
    pub fn mixing_param(&self) -> (param: u8)
        ensures
            param == self@.mixing_param,
    {
        self.mixing_param
    }

    /// The weights of the two predictors.
    pub fn model_weights(&self) -> (weights: [i32; 2])
        ensures
            weights[0] == self@.weight0,
            weights[1] == self@.weight1,
    {
        self.model_weights
    }
}

impl Default for Weights {
    fn default() -> (mixer: Self)
        ensures
            mixer@ == initial_state(),
            mixer.wf(),
    {
        Self::new()
    }
}

} // verus!
