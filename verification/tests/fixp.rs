//! Tests for the fixed-point arithmetic under the trajectory model.

use arena_core::fixp::{div_toward_zero_wide, isqrt64, wave_milli};

#[test]
fn integer_square_roots_are_exact() {
    assert_eq!(isqrt64(0), 0);
    assert_eq!(isqrt64(1), 1);
    assert_eq!(isqrt64(3), 1);
    assert_eq!(isqrt64(4), 2);
    assert_eq!(isqrt64(99), 9);
    assert_eq!(isqrt64(100_000_000), 10_000);
    assert_eq!(isqrt64(u64::MAX), u32::MAX as u64);
}

#[test]
fn wave_hits_its_zeroes_and_peaks() {
    assert_eq!(wave_milli(0), 0);
    assert_eq!(wave_milli(3141), 0);
    assert_eq!(wave_milli(6282), 0);
    // A quarter period reaches the positive peak, three quarters the negative.
    assert_eq!(wave_milli(1570), 999);
    assert_eq!(wave_milli(4711), -999);
    // Full periods repeat.
    assert_eq!(wave_milli(6282 + 1570), 999);
}

#[test]
fn wave_stays_within_unit_amplitude() {
    for d in 0..7000u128 {
        let w = wave_milli(d);
        assert!((-1000..=1000).contains(&w), "wave({d}) = {w}");
    }
}

#[test]
fn division_rounds_toward_zero() {
    assert_eq!(div_toward_zero_wide(7, 2), 3);
    assert_eq!(div_toward_zero_wide(-7, 2), -3);
    assert_eq!(div_toward_zero_wide(0, 5), 0);
    assert_eq!(div_toward_zero_wide(i64::MIN as i128, 1), i64::MIN as i128);
}
