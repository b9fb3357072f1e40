use opinions::reputation::{tier_for, update_rep, HalfLife, RepError, UNIT};

#[test]
fn coefficients_are_exactly_pinned() {
    assert_eq!(HalfLife::H10.k_ppm(), 933_033);
    assert_eq!(HalfLife::H20.k_ppm(), 965_936);
    assert_eq!(HalfLife::H40.k_ppm(), 982_821);
}

fn repeated(mut rep: i64, score: i64, h: HalfLife, count: usize) -> i64 {
    for _ in 0..count {
        rep = update_rep(rep, score, h).unwrap();
    }
    rep
}

#[test]
fn integer_recurrence_golden_vectors_are_exact() {
    assert_eq!(repeated(0, UNIT, HalfLife::H10, 10), 500_000);
    assert_eq!(repeated(UNIT, 0, HalfLife::H10, 10), 500_000);
    assert_eq!(repeated(0, UNIT, HalfLife::H20, 20), 500_004);
    assert_eq!(repeated(UNIT, 0, HalfLife::H20, 20), 499_996);
    assert_eq!(repeated(0, UNIT, HalfLife::H40, 40), 499_993);
    assert_eq!(repeated(UNIT, 0, HalfLife::H40, 40), 500_007);
}

#[test]
fn bounds_are_fixed_points_and_inputs_are_closed() {
    assert_eq!(update_rep(0, 0, HalfLife::H20).unwrap(), 0);
    assert_eq!(update_rep(UNIT, UNIT, HalfLife::H20).unwrap(), UNIT);
    for (rep, score) in [(-1, 0), (0, -1), (UNIT + 1, 0), (0, UNIT + 1)] {
        assert_eq!(
            update_rep(rep, score, HalfLife::H20),
            Err(RepError::OperandOutOfRange)
        );
    }
}

#[test]
fn movement_is_monotonic_toward_the_score() {
    assert!(update_rep(100_000, 900_000, HalfLife::H20).unwrap() > 100_000);
    assert!(update_rep(900_000, 100_000, HalfLife::H20).unwrap() < 900_000);
}

#[test]
fn tier_thresholds_are_inclusive_lower_bounds() {
    let thresholds = [100_000, 300_000, 600_000, 900_000];
    assert_eq!(tier_for(99_999, &thresholds), 0);
    assert_eq!(tier_for(100_000, &thresholds), 1);
    assert_eq!(tier_for(599_999, &thresholds), 2);
    assert_eq!(tier_for(600_000, &thresholds), 3);
    assert_eq!(tier_for(1_000_000, &thresholds), 4);
}
