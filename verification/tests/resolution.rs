use opinions::amm::Side;
use opinions::ledger::AccountId;
use opinions::money::{MicroShares, MicroUsd};
use opinions::resolution::{position_payout, redemptions, settle_market, ResolutionError};
use uuid::Uuid;

fn account() -> AccountId {
    AccountId(Uuid::new_v4().as_u128())
}

#[test]
fn redemption_extremes_and_midpoint_sum_to_one_dollar() {
    for (actual, expected) in [
        (0, (MicroUsd(0), MicroUsd(1_000_000))),
        (5_000, (MicroUsd(500_000), MicroUsd(500_000))),
        (10_000, (MicroUsd(1_000_000), MicroUsd(0))),
    ] {
        let redemption = redemptions(actual).unwrap();
        assert_eq!(redemption, expected);
        assert_eq!(redemption.0 .0 + redemption.1 .0, 1_000_000);
    }
}

#[test]
fn redemption_rejects_out_of_range_actual() {
    assert_eq!(redemptions(10_001), Err(ResolutionError::ActualOutOfRange));
}

#[test]
fn one_whole_yes_share_at_seventy_three_point_five_percent() {
    assert_eq!(
        position_payout(MicroShares(1_000_000), MicroUsd(735_000)).unwrap(),
        MicroUsd(735_000)
    );
}

#[test]
fn payout_overflow_is_rejected() {
    assert_eq!(
        position_payout(MicroShares(i64::MAX), MicroUsd(i64::MAX)),
        Err(ResolutionError::Overflow)
    );
    assert_eq!(
        position_payout(MicroShares(-1), MicroUsd(500_000)),
        Err(ResolutionError::Overflow)
    );
    assert_eq!(
        position_payout(MicroShares(1), MicroUsd(-1)),
        Err(ResolutionError::Overflow)
    );
}

#[test]
fn settlement_includes_pool_inventory_and_conserves_escrow() {
    let user = account();
    let pool = account();
    let minted = 1_000_003;
    let holdings = [
        (user, Side::Yes, MicroShares(600_001)),
        (pool, Side::Yes, MicroShares(400_002)),
        (user, Side::No, MicroShares(100_001)),
        (pool, Side::No, MicroShares(900_002)),
    ];

    let settlement = settle_market(&holdings, 7_350, MicroUsd(minted)).unwrap();
    let payout_sum: i64 = settlement.payouts.iter().map(|(_, payout)| payout.0).sum();

    assert_eq!(settlement.payouts.len(), holdings.len());
    assert_eq!(payout_sum + settlement.dust.0, minted);
    assert!(settlement.dust.0 >= 0);
    assert!(settlement.dust.0 < i64::try_from(holdings.len()).unwrap());
    assert_eq!(
        settlement
            .payouts
            .iter()
            .filter(|(account, _)| *account == pool)
            .count(),
        2
    );
}

#[test]
fn missing_pool_inventory_is_a_hard_error() {
    let user = account();
    let pool = account();
    let minted = 1_000_003;
    let incomplete = [
        (user, Side::Yes, MicroShares(600_001)),
        (user, Side::No, MicroShares(100_001)),
        (pool, Side::No, MicroShares(900_002)),
    ];

    assert_eq!(
        settle_market(&incomplete, 7_350, MicroUsd(minted)),
        Err(ResolutionError::HoldingsIncomplete {
            minted: MicroShares(minted),
            presented: MicroShares(600_001),
        })
    );
}

#[test]
fn one_holding_cannot_represent_a_positive_complete_set() {
    let minted = 1_000_000;
    assert_eq!(
        settle_market(
            &[(account(), Side::Yes, MicroShares(minted))],
            5_000,
            MicroUsd(minted),
        ),
        Err(ResolutionError::HoldingsIncomplete {
            minted: MicroShares(minted),
            presented: MicroShares(0),
        })
    );
}

#[test]
fn invalid_settlement_quantities_are_rejected() {
    assert_eq!(
        settle_market(&[], 10_001, MicroUsd(0)),
        Err(ResolutionError::ActualOutOfRange)
    );
    assert_eq!(
        settle_market(&[], 5_000, MicroUsd(-1)),
        Err(ResolutionError::Overflow)
    );
    assert_eq!(
        settle_market(
            &[(account(), Side::Yes, MicroShares(-1))],
            5_000,
            MicroUsd(0),
        ),
        Err(ResolutionError::Overflow)
    );
}

#[test]
fn empty_zero_market_violates_the_strict_dust_bound() {
    assert_eq!(
        settle_market(&[], 5_000, MicroUsd(0)),
        Err(ResolutionError::ConservationViolated {
            expected: MicroUsd(0),
            got: MicroUsd(0),
        })
    );
}

#[test]
fn maximal_fractional_residue_stays_below_holding_count() {
    let minted = 9_999;
    let settlement = settle_market(
        &[
            (account(), Side::Yes, MicroShares(minted)),
            (account(), Side::No, MicroShares(minted)),
        ],
        1,
        MicroUsd(minted),
    )
    .unwrap();

    assert_eq!(settlement.dust, MicroUsd(1));
    assert!(settlement.dust.0 < 2);
}
