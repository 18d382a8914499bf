use weight_mixer::{Prob, Weights, BLEND_FIXED_POINT_PRECISION, LOG2_SCALE};

// Stand-ins for the coder's division primitives. The table hands the divisor through as its
// own reciprocal, and the divide undoes the rescaling and divides exactly.
fn lookup(divisor: u8) -> i16 {
    i16::from(divisor)
}

fn divide(numerator: u16, reciprocal: i16) -> i16 {
    let divisor = i32::from(reciprocal >> 7);
    if divisor == 0 {
        0
    } else {
        ((i32::from(numerator >> 8) << 15) / divisor) as i16
    }
}

fn pumped() -> Weights {
    let mut mixer = Weights::new();
    mixer.set_mixing_param(2);
    mixer.update([32767, 32767], 1, lookup, divide);
    mixer
}

#[test]
fn the_scales_are_fifteen_bits() {
    assert_eq!(LOG2_SCALE, 15);
    assert_eq!(BLEND_FIXED_POINT_PRECISION, 15);
    let certain: Prob = 32767;
    assert_eq!(i32::from(certain) + 1, 1 << LOG2_SCALE);
}

#[test]
fn a_new_mixer_is_in_the_initial_state() {
    let mixer = Weights::new();
    assert_eq!(mixer.norm_weight(), 1 << (BLEND_FIXED_POINT_PRECISION - 1));
    assert_eq!(mixer.norm_weight(), 16384);
    assert!(!mixer.should_mix());
    assert_eq!(mixer.mixing_param(), 1);
    assert_eq!(mixer.model_weights(), [1, 1]);
}

#[test]
fn default_is_new() {
    let mixer = Weights::default();
    assert_eq!(mixer.norm_weight(), 16384);
    assert!(!mixer.should_mix());
    assert_eq!(mixer.mixing_param(), 1);
    assert_eq!(mixer.model_weights(), [1, 1]);
}

#[test]
fn mixing_is_on_above_one() {
    let mut mixer = Weights::new();
    for param in [0u8, 1] {
        mixer.set_mixing_param(param);
        assert!(!mixer.should_mix());
        assert_eq!(mixer.mixing_param(), param);
    }
    for param in [2u8, 3, 14, 255] {
        mixer.set_mixing_param(param);
        assert!(mixer.should_mix());
        assert_eq!(mixer.mixing_param(), param);
    }
}

#[test]
fn set_mixing_param_changes_nothing_else() {
    let mut mixer = pumped();
    let weights = mixer.model_weights();
    let fraction = mixer.norm_weight();
    mixer.set_mixing_param(9);
    assert_eq!(mixer.model_weights(), weights);
    assert_eq!(mixer.norm_weight(), fraction);
}

#[test]
fn update_applies_the_law_to_both_slots() {
    let mut mixer = Weights::new();
    mixer.set_mixing_param(2);
    mixer.update([32767, 16384], 1, lookup, divide);
    assert_eq!(mixer.model_weights(), [1_073_643_523, 536_821_762]);
    assert_eq!(mixer.norm_weight(), 21788);
    assert_eq!(mixer.mixing_param(), 2);
}

#[test]
fn update_guards_before_it_adapts() {
    let mut mixer = Weights::new();
    mixer.set_mixing_param(2);
    mixer.update([32767, 16384], 1, lookup, divide);
    mixer.update([100, 50], 100, lookup, divide);
    assert_eq!(mixer.model_weights(), [16_775_680, 8_375_079]);
    assert_eq!(mixer.norm_weight(), 21788);
}

#[test]
fn update_works_with_mixing_off() {
    let mut mixer = Weights::new();
    assert_eq!(mixer.mixing_param(), 1);
    mixer.update([10000, 30000], 20000, lookup, divide);
    assert_eq!(mixer.model_weights(), [1, 15_586]);
    assert_eq!(mixer.norm_weight(), 0);
}

#[test]
fn weights_stay_positive() {
    let steps: [([Prob; 2], Prob); 8] = [
        ([0, 0], 32767),
        ([32767, 0], 1),
        ([0, 32767], 16384),
        ([5, 5], 0),
        ([2, 3], 0),
        ([100, 20000], 30000),
        ([0, 0], 1),
        ([32767, 32767], 32767),
    ];
    let mut mixer = Weights::new();
    mixer.set_mixing_param(2);
    for round in 0..40 {
        let (probs, weighted) = steps[round % steps.len()];
        mixer.update(probs, weighted, lookup, divide);
        let weights = mixer.model_weights();
        assert!(weights[0] >= 1 && weights[1] >= 1);
        assert!(mixer.norm_weight() >= 0);
    }
}

#[test]
fn the_fraction_is_never_negative() {
    let mut mixer = Weights::new();
    mixer.set_mixing_param(2);
    mixer.update([0, 0], 100, |_| -3, |_, _| -1);
    assert_eq!(mixer.norm_weight(), 32767);
    mixer.update([0, 0], 100, |_| 5, |_, _| i16::MIN);
    assert_eq!(mixer.norm_weight(), 32767);
    mixer.update([0, 0], 100, |_| 5, |_, _| 4711);
    assert_eq!(mixer.norm_weight(), 4711);
}

#[test]
fn a_quotient_of_the_full_scale_is_clamped() {
    let mut mixer = Weights::new();
    mixer.set_mixing_param(2);
    mixer.update([32767, 0], 1, lookup, divide);
    assert_eq!(mixer.model_weights(), [1_073_643_523, 1]);
    assert_eq!(mixer.norm_weight(), 32767);
}

#[test]
fn a_vanishing_share_gives_a_fraction_of_zero() {
    let mut mixer = Weights::new();
    mixer.set_mixing_param(2);
    mixer.update([0, 32767], 1, lookup, divide);
    assert_eq!(mixer.model_weights(), [1, 1_073_643_523]);
    assert_eq!(mixer.norm_weight(), 0);
}

#[test]
fn xupdate_is_update_with_the_words_swapped() {
    let steps: [([Prob; 2], Prob); 4] =
        [([32767, 12000], 1), ([5000, 9000], 7000), ([100, 32000], 16384), ([20000, 3], 31000)];
    let expected: [([i32; 2], i16); 4] = [
        ([393_171_234, 1_073_643_523], 8662),
        ([6_149_591, 16_769_388], 8662),
        ([6_165_207, 16_753_104], 8851),
        ([6_138_447, 16_743_607], 8662),
    ];
    let mut crossed = Weights::new();
    let mut straight = Weights::new();
    crossed.set_mixing_param(2);
    straight.set_mixing_param(2);
    for (step, want) in steps.iter().zip(expected.iter()) {
        let (probs, weighted) = *step;
        crossed.xupdate(probs, weighted, lookup, divide);
        straight.update([probs[1], probs[0]], weighted, lookup, divide);
        assert_eq!(crossed.model_weights(), straight.model_weights());
        assert_eq!(crossed.norm_weight(), straight.norm_weight());
        assert_eq!(crossed.model_weights(), want.0);
        assert_eq!(crossed.norm_weight(), want.1);
    }
}

#[test]
fn xupdate_differs_from_update_on_unequal_words() {
    let mut crossed = Weights::new();
    let mut straight = Weights::new();
    crossed.xupdate([32767, 12000], 1, lookup, divide);
    straight.update([32767, 12000], 1, lookup, divide);
    assert_eq!(straight.model_weights(), [1_073_643_523, 393_171_234]);
    assert_eq!(crossed.model_weights(), [393_171_234, 1_073_643_523]);
}

#[test]
fn trust_shifts_to_the_predictor_that_matches() {
    let mut mixer = pumped();
    assert_eq!(mixer.model_weights(), [1_073_643_523, 1_073_643_523]);
    assert_eq!(mixer.norm_weight(), 16319);
    let mut fractions = Vec::new();
    let mut seconds = Vec::new();
    for _ in 0..12 {
        mixer.update([16000, 4000], 16000, lookup, divide);
        assert_eq!(mixer.model_weights()[0], 16_775_680);
        fractions.push(mixer.norm_weight());
        seconds.push(mixer.model_weights()[1]);
    }
    assert_eq!(seconds[0], 16_751_117);
    assert_eq!(seconds[11], 16_480_924);
    assert!(seconds.windows(2).all(|pair| pair[1] < pair[0]));
    assert!(fractions.windows(2).all(|pair| pair[1] >= pair[0]));
    assert_eq!(fractions[0], 16319);
    assert_eq!(fractions[5], 16384);
    assert_eq!(fractions[11], 16448);
    assert!(fractions[11] > fractions[0]);
}

#[test]
fn a_predictor_that_says_more_than_was_coded_gains_share() {
    let mut mixer = pumped();
    let mut fractions = Vec::new();
    for _ in 0..6 {
        mixer.update([4000, 16000], 4000, lookup, divide);
        fractions.push(mixer.norm_weight());
    }
    assert_eq!(mixer.model_weights(), [8_387_840, 8_851_385]);
    assert_eq!(fractions, vec![16128, 16128, 16002, 15879, 15879, 15758]);
}

#[test]
fn large_weights_come_back_into_twenty_four_bits() {
    let mut mixer = Weights::new();
    mixer.set_mixing_param(2);
    mixer.update([32767, 16384], 1, lookup, divide);
    let before = mixer.model_weights();
    assert!(before[0] >= 1 << 24 && before[1] >= 1 << 24);
    mixer.update([100, 100], 100, lookup, divide);
    let after = mixer.model_weights();
    assert_eq!(after, [16_775_680, 8_387_840]);
    assert!(after[0] < 1 << 24 && after[1] < 1 << 24);
    let ratio_before = f64::from(before[0]) / f64::from(before[1]);
    let ratio_after = f64::from(after[0]) / f64::from(after[1]);
    assert!((ratio_after - ratio_before).abs() / ratio_before < 0.01);
    let share = f64::from(after[0]) / (f64::from(after[0]) + f64::from(after[1]));
    let fraction = f64::from(mixer.norm_weight()) / 32768f64;
    assert!((fraction - share).abs() / share < 0.01);
    mixer.update([100, 100], 100, lookup, divide);
    assert_eq!(mixer.model_weights(), after);
}

#[test]
fn a_word_that_exceeds_the_blended_probability_can_leave_twenty_four_bits() {
    let mut mixer = Weights::new();
    mixer.set_mixing_param(2);
    mixer.update([32767, 0], 1, lookup, divide);
    assert_eq!(mixer.model_weights()[0], 1 + 32767 * 32766);
    assert!(mixer.model_weights()[0] >= 1 << 24);
}
