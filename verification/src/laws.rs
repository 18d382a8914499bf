//! What holds of a mixer in every state and for every word it is fed.

use vstd::prelude::*;
use vstd::arithmetic::power2::{lemma2_to64, pow2};
use crate::adapt::{lemma_adapted_weight_exact, lemma_step_direction, weight_step};
use crate::bits::{lemma_bit_length_bound, lemma_floor_div_unique};
use crate::guard::{guard_shift, guarded, lemma_guard_bounds, weight_limit};
use crate::ratio::clamped_fraction;
use crate::scale::{blend_scale, full_scale, is_prob};
use crate::weights::{
    initial_state, mixing_enabled, update_weights, updated_weight, valid_state,
    with_mixing_param, xupdate_weights, MixerState,
};

verus! {

/// A new mixer is in a valid state, with weights of one, a fraction of exactly one half of
/// the scale, and mixing off.
pub proof fn lemma_initial_state()
    ensures
        valid_state(initial_state()),
        initial_state().weight0 == 1,
        initial_state().weight1 == 1,
        2 * initial_state().fraction == blend_scale(),
        !mixing_enabled(initial_state()),
{
}

/// Mixing is on exactly for a control value above one, and setting the control value
/// touches neither the weights nor the fraction.
pub proof fn lemma_mixing_switch(state: MixerState, param: int)
    ensures
        mixing_enabled(with_mixing_param(state, param)) <==> param > 1,
        with_mixing_param(state, param).weight0 == state.weight0,
        with_mixing_param(state, param).weight1 == state.weight1,
        with_mixing_param(state, param).fraction == state.fraction,
        valid_state(state) && 0 <= param <= u8::MAX ==> valid_state(
            with_mixing_param(state, param),
        ),
{
}

/// After an update both weights are at least one and fit in 32 bits, whatever the state and
/// the words were.
pub proof fn lemma_weights_stay_positive(state: MixerState, probs: (int, int), weighted_prob: int)
    ensures
        1 <= update_weights(state, probs, weighted_prob).0 <= i32::MAX,
        1 <= update_weights(state, probs, weighted_prob).1 <= i32::MAX,
        1 <= xupdate_weights(state, probs, weighted_prob).0 <= i32::MAX,
        1 <= xupdate_weights(state, probs, weighted_prob).1 <= i32::MAX,
{
}

/// How large a weight can be after an update with a blended probability of at least one.
///
/// The weight of a slot is the guarded weight plus the step, raised to the floor of one. It
/// has at most 24 significant bits exactly where that sum is below `2^24`: always where the
/// predictor said no more than the blended probability, and not always where it said more.
/// It is never as large as `2^24 + 2^30`.
pub proof fn lemma_weight_bound(state: MixerState, index: int, prob: int, weighted_prob: int)
    requires
        valid_state(state),
        is_prob(prob),
        is_prob(weighted_prob),
        weighted_prob >= 1,
    ensures
        ({
            let shift = guard_shift(state.weight0, state.weight1);
            let before = guarded(if index == 0 { state.weight0 } else { state.weight1 }, shift);
            let after = updated_weight(state, index, prob, weighted_prob);
            &&& 0 <= before < weight_limit()
            &&& after == (if before + weight_step(prob, weighted_prob) < 1 {
                1
            } else {
                before + weight_step(prob, weighted_prob)
            })
            &&& after < weight_limit() <==> before + weight_step(prob, weighted_prob)
                < weight_limit()
            &&& prob <= weighted_prob ==> after < weight_limit()
            &&& after < weight_limit() + full_scale() * full_scale()
        }),
{
    let shift = guard_shift(state.weight0, state.weight1);
    let before = guarded(if index == 0 { state.weight0 } else { state.weight1 }, shift);
    lemma_guard_bounds(state.weight0, state.weight1);
    lemma_adapted_weight_exact(before, prob, weighted_prob);
    lemma_step_direction(prob, weighted_prob);
}

/// The fraction kept for a quotient is not negative and below the scale. It is above zero
/// unless the quotient was zero, and it is the quotient itself unless that was negative.
pub proof fn lemma_fraction_range(quotient: i16)
    ensures
        0 <= clamped_fraction(quotient) < blend_scale(),
        clamped_fraction(quotient) > 0 <==> quotient != 0,
        quotient >= 0 ==> clamped_fraction(quotient) == quotient,
        quotient < 0 ==> clamped_fraction(quotient) == blend_scale() - 1,
{
}

/// The cross update of a pair of words leaves the weights that the update of the swapped
/// pair leaves.
pub proof fn lemma_swap_symmetry(state: MixerState, probs: (int, int), weighted_prob: int)
    ensures
        xupdate_weights(state, probs, weighted_prob) == update_weights(
            state,
            (probs.1, probs.0),
            weighted_prob,
        ),
        update_weights(state, probs, weighted_prob) == xupdate_weights(
            state,
            (probs.1, probs.0),
            weighted_prob,
        ),
{
}

/// Trust moves to the predictor that matches. Where the first predictor said exactly the
/// blended probability, which is at least one, and the second said less, the first weight is
/// what the guard left of it and the second is no more than that: so the share of the first
/// in the sum does not fall, as long as the guard left the second weight above zero.
pub proof fn lemma_trust_shift(state: MixerState, second_prob: int, weighted_prob: int)
    requires
        valid_state(state),
        is_prob(second_prob),
        is_prob(weighted_prob),
        weighted_prob >= 1,
        second_prob < weighted_prob,
    ensures
        ({
            let shift = guard_shift(state.weight0, state.weight1);
            let g0 = guarded(state.weight0, shift);
            let g1 = guarded(state.weight1, shift);
            let after = update_weights(state, (weighted_prob, second_prob), weighted_prob);
            &&& after.0 == (if g0 < 1 { 1 } else { g0 })
            &&& after.1 <= (if g1 < 1 { 1 } else { g1 })
            &&& g1 > 1 ==> after.1 < g1
            &&& g1 >= 1 ==> after.0 * (g0 + g1) >= g0 * (after.0 + after.1)
        }),
{
    let shift = guard_shift(state.weight0, state.weight1);
    let g0 = guarded(state.weight0, shift);
    let g1 = guarded(state.weight1, shift);
    let after = update_weights(state, (weighted_prob, second_prob), weighted_prob);
    lemma_weight_bound(state, 0, weighted_prob, weighted_prob);
    lemma_weight_bound(state, 1, second_prob, weighted_prob);
    lemma_step_direction(weighted_prob, weighted_prob);
    lemma_step_direction(second_prob, weighted_prob);
    if g1 >= 1 {
        assert(after.0 * (g0 + g1) >= g0 * (after.0 + after.1)) by (nonlinear_arith)
            requires
                after.0 >= g0,
                g0 >= 0,
                1 <= after.1 <= g1,
        ;
    }
}

/// An update in which both predictors said exactly the blended probability, which is at
/// least one, only guards: it leaves what the guard leaves of each weight, raised to the
/// floor of one and below `2^24`, and a second such update changes nothing.
pub proof fn lemma_agreeing_update_only_guards(state: MixerState, weighted_prob: int)
    requires
        valid_state(state),
        is_prob(weighted_prob),
        weighted_prob >= 1,
    ensures
        ({
            let shift = guard_shift(state.weight0, state.weight1);
            let g0 = guarded(state.weight0, shift);
            let g1 = guarded(state.weight1, shift);
            let after = update_weights(state, (weighted_prob, weighted_prob), weighted_prob);
            let next = MixerState { weight0: after.0, weight1: after.1, ..state };
            &&& after.0 == (if g0 < 1 { 1 } else { g0 })
            &&& after.1 == (if g1 < 1 { 1 } else { g1 })
            &&& after.0 < weight_limit() && after.1 < weight_limit()
            &&& valid_state(next)
            &&& update_weights(next, (weighted_prob, weighted_prob), weighted_prob) == after
        }),
{
    let after = update_weights(state, (weighted_prob, weighted_prob), weighted_prob);
    let next = MixerState { weight0: after.0, weight1: after.1, ..state };
    lemma_weight_bound(state, 0, weighted_prob, weighted_prob);
    lemma_weight_bound(state, 1, weighted_prob, weighted_prob);
    lemma_step_direction(weighted_prob, weighted_prob);
    lemma_guard_bounds(state.weight0, state.weight1);
    lemma_guard_bounds(after.0, after.1);
    lemma2_to64();
    lemma_bit_length_bound((if after.0 < after.1 { after.1 } else { after.0 }) as nat, 24);
    lemma_floor_div_unique(after.0, pow2(0) as int, after.0);
    lemma_floor_div_unique(after.1, pow2(0) as int, after.1);
    lemma_weight_bound(next, 0, weighted_prob, weighted_prob);
    lemma_weight_bound(next, 1, weighted_prob, weighted_prob);
}

} // verus!
