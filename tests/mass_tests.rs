use falling_sand::mass::{stable_state, MASS_UNIT};

#[test]
fn stable_state_boundary_values() {
    for c in [0u64, 10_000, 50_000, 1_000_000] {
        assert_eq!(stable_state(MASS_UNIT / 2, c), MASS_UNIT / 2);
        assert_eq!(stable_state(MASS_UNIT, c), MASS_UNIT);
    }
    assert_eq!(stable_state(2 * MASS_UNIT, 0), MASS_UNIT);
    // past two cells plus the compressibility: half of the total plus half of it
    assert_eq!(stable_state(3_000_000, 50_000), 1_525_000);
    assert_eq!(stable_state(2_050_001, 50_000), 1_050_000);
}

#[test]
fn stable_state_middle_piece() {
    // (1 + 1.5 * 0.05) / 1.05 of a cell
    assert_eq!(stable_state(1_500_000, 50_000), 1_023_809);
    // at the upper end of the middle piece: one cell plus the compressibility
    assert_eq!(stable_state(2_050_000, 50_000), 1_050_000);
}

#[test]
fn stable_state_below_total_and_monotonic() {
    for c in [0u64, 10_000, 50_000, 300_000] {
        let mut prev = 0u64;
        let mut m = 0u64;
        while m <= 5_000_000 {
            let s = stable_state(m, c);
            assert!(s <= m, "m={} c={}", m, c);
            assert!(s >= prev, "m={} c={}", m, c);
            prev = s;
            m += 7_919;
        }
    }
}

#[test]
fn stable_state_extreme_inputs() {
    assert!(stable_state(u64::MAX, u64::MAX) <= u64::MAX);
    assert_eq!(stable_state(0, u64::MAX), 0);
}
