use weight_mixer::bits::ilog2;

#[test]
fn ilog2_of_zero_is_zero() {
    assert_eq!(ilog2(0), 0);
}

#[test]
fn ilog2_counts_significant_bits() {
    assert_eq!(ilog2(1), 1);
    assert_eq!(ilog2(2), 2);
    assert_eq!(ilog2(3), 2);
    assert_eq!(ilog2(255), 8);
    assert_eq!(ilog2(256), 9);
    assert_eq!(ilog2(255_360_000), 28);
    assert_eq!(ilog2(1 << 62), 63);
    assert_eq!(ilog2(i64::MAX), 63);
}

#[test]
fn ilog2_of_a_negative_number_is_the_full_width() {
    assert_eq!(ilog2(-1), 64);
    assert_eq!(ilog2(i64::MIN), 64);
}

#[test]
fn ilog2_is_sixty_four_minus_leading_zeros() {
    let samples: [i64; 8] = [0, 1, 7, 4096, 65_535, 1 << 40, i64::MAX, -12345];
    for item in samples {
        assert_eq!(ilog2(item), 64 - item.leading_zeros());
    }
}
