use opinions::money::{apply_fee, BasisPoints, MicroUsd, MoneyError};

#[test]
fn fee_rounds_up_against_user() {
    // 1% of 101 micro = 1.01 -> fee must be 2 (ceil), net 99
    let s = apply_fee(MicroUsd(101), BasisPoints(100)).unwrap();
    assert_eq!(s.fee, MicroUsd(2));
    assert_eq!(s.net, MicroUsd(99));
}

#[test]
fn zero_fee_passes_through() {
    let s = apply_fee(MicroUsd(500), BasisPoints(0)).unwrap();
    assert_eq!((s.net, s.fee), (MicroUsd(500), MicroUsd(0)));
}

#[test]
fn negative_and_overfee_rejected() {
    assert!(matches!(
        apply_fee(MicroUsd(-1), BasisPoints(100)),
        Err(MoneyError::NegativeAmount)
    ));
    assert!(matches!(
        apply_fee(MicroUsd(1), BasisPoints(10_001)),
        Err(MoneyError::FeeTooHigh)
    ));
}

#[test]
fn checked_arithmetic_reports_bounds() {
    assert_eq!(MicroUsd(7).checked_add(MicroUsd(5)), Some(MicroUsd(12)));
    assert_eq!(MicroUsd(i64::MAX).checked_add(MicroUsd(1)), None);
    assert_eq!(MicroUsd(7).checked_sub(MicroUsd(5)), Some(MicroUsd(2)));
    assert_eq!(MicroUsd(i64::MIN).checked_sub(MicroUsd(1)), None);
}
