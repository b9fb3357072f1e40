use opinions::fee_policy::{effective_fee, FeeContext};
use opinions::money::BasisPoints;

fn context() -> FeeContext {
    FeeContext {
        base_bps: 100,
        tier: 2,
        discount_bp_by_tier: [0, 5, 20, 50, 100],
        min_fee_bps: 10,
        is_flip_within_window: false,
    }
}

#[test]
fn discount_and_floor_have_one_authority() {
    assert_eq!(effective_fee(&context()), BasisPoints(80));
    let high_tier = FeeContext {
        tier: 4,
        ..context()
    };
    assert_eq!(effective_fee(&high_tier), BasisPoints(10));
}

#[test]
fn flip_uses_base_and_defensive_tier_saturates() {
    let flip = FeeContext {
        is_flip_within_window: true,
        ..context()
    };
    assert_eq!(effective_fee(&flip), BasisPoints(100));
    let corrupt_tier = FeeContext {
        tier: u8::MAX,
        ..context()
    };
    assert_eq!(effective_fee(&corrupt_tier), BasisPoints(10));
}
