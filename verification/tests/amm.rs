use opinions::amm::{isqrt_u128, price_micro, quote_buy, quote_sell, AmmError, Pool, Side, MAX_AMOUNT, MAX_RESERVE};
use opinions::money::{BasisPoints, MicroShares, MicroUsd, MoneyError};

fn pool(y: i64, n: i64) -> Pool {
    Pool::new(MicroShares(y), MicroShares(n), BasisPoints(100)).unwrap()
}

#[test]
fn buy_at_even_pool_returns_close_to_double() {
    // symmetric $1000 pool, buy $10 gross: ~19.6 YES out at ~51¢ avg
    let q = quote_buy(
        &pool(1_000_000_000, 1_000_000_000),
        Side::Yes,
        MicroUsd(10_000_000),
        BasisPoints(100),
    )
    .unwrap();
    assert!(q.shares_out.0 > 19_000_000 && q.shares_out.0 < 20_000_000);
    assert_eq!(q.fee, MicroUsd(100_000)); // 1% of $10
}

#[test]
fn sell_cannot_drain_pool() {
    // absurd share amount vs tiny pool must error, not panic or go negative
    // (i64::MAX/4 > MAX_AMOUNT, so the input cap legitimately fires first)
    let r = quote_sell(
        &pool(1_000, 1_000),
        Side::Yes,
        MicroShares(i64::MAX / 4),
        BasisPoints(100),
    );
    assert!(matches!(
        r,
        Err(AmmError::DrainsPool | AmmError::InputTooLarge | AmmError::Overflow)
    ));
    // and an IN-CAP drain attempt must hit the drain guard specifically:
    let r2 = quote_sell(
        &pool(1_000, 1_000),
        Side::Yes,
        MicroShares(1_000_000_000),
        BasisPoints(100),
    );
    assert!(matches!(r2, Err(AmmError::DrainsPool)));
}

#[test]
fn sell_exact_symmetric_case() {
    // yes=no=1000, sell 1000 YES: b=3000, disc=5e6, isqrt=2236, c=382 floors
    // then the guard steps to 381 ((1619)(619)=1_002_161 ≥ 1e6).
    let q = quote_sell(
        &pool(1_000, 1_000),
        Side::Yes,
        MicroShares(1_000),
        BasisPoints(100),
    )
    .unwrap();
    assert_eq!(q.fee, MicroUsd(4)); // ceil(381 * 100 / 10_000)
    assert_eq!(q.collateral_out, MicroUsd(377));
    assert_eq!(q.pool_after.yes, MicroShares(1_619));
    assert_eq!(q.pool_after.no, MicroShares(619));
}

#[test]
fn sell_no_side_is_symmetric() {
    let no = quote_sell(
        &pool(2_000, 3_000),
        Side::No,
        MicroShares(1_000),
        BasisPoints(100),
    )
    .unwrap();
    let yes = quote_sell(
        &pool(3_000, 2_000),
        Side::Yes,
        MicroShares(1_000),
        BasisPoints(100),
    )
    .unwrap();

    assert_eq!(no.collateral_out, yes.collateral_out);
    assert_eq!(no.fee, yes.fee);
    assert_eq!(no.pool_after.yes, yes.pool_after.no);
    assert_eq!(no.pool_after.no, yes.pool_after.yes);
}

#[test]
fn pool_construction_bounds() {
    assert!(matches!(
        Pool::new(MicroShares(0), MicroShares(5), BasisPoints(0)),
        Err(AmmError::EmptyPool)
    ));
    assert!(matches!(
        Pool::new(MicroShares(5), MicroShares(-1), BasisPoints(0)),
        Err(AmmError::EmptyPool)
    ));
    assert!(Pool::new(
        MicroShares(MAX_RESERVE),
        MicroShares(MAX_RESERVE - 1),
        BasisPoints(0)
    )
    .is_ok());
    assert!(matches!(
        Pool::new(MicroShares(MAX_RESERVE + 1), MicroShares(5), BasisPoints(0)),
        Err(AmmError::InputTooLarge)
    ));
    assert!(matches!(
        Pool::new(MicroShares(5), MicroShares(5), BasisPoints(10_001)),
        Err(AmmError::InputTooLarge)
    ));
}

#[test]
fn quote_input_and_result_caps_are_closed() {
    // input above the cap
    assert!(matches!(
        quote_buy(
            &pool(1_000, 1_000),
            Side::Yes,
            MicroUsd(MAX_AMOUNT + 1),
            BasisPoints(100)
        ),
        Err(AmmError::InputTooLarge)
    ));
    assert!(matches!(
        quote_sell(
            &pool(1_000, 1_000),
            Side::Yes,
            MicroShares(MAX_AMOUNT + 1),
            BasisPoints(100)
        ),
        Err(AmmError::InputTooLarge)
    ));
    // in-cap input whose RESULTING reserve would breach the cap
    let full = Pool::new(
        MicroShares(MAX_RESERVE),
        MicroShares(MAX_RESERVE),
        BasisPoints(0),
    )
    .unwrap();
    assert!(matches!(
        quote_buy(&full, Side::Yes, MicroUsd(1_000_000), BasisPoints(0)),
        Err(AmmError::InputTooLarge)
    ));
    assert!(matches!(
        quote_sell(&full, Side::Yes, MicroShares(1_000_000), BasisPoints(0)),
        Err(AmmError::InputTooLarge)
    ));
}

#[test]
fn too_small_amounts_rejected() {
    assert!(matches!(
        quote_buy(
            &pool(1_000_000, 1_000_000),
            Side::Yes,
            MicroUsd(0),
            BasisPoints(100)
        ),
        Err(AmmError::AmountTooSmall)
    ));
    assert!(matches!(
        quote_buy(
            &pool(1_000_000, 1_000_000),
            Side::Yes,
            MicroUsd(-5),
            BasisPoints(100)
        ),
        Err(AmmError::AmountTooSmall)
    ));
    assert!(matches!(
        quote_sell(
            &pool(1_000_000, 1_000_000),
            Side::Yes,
            MicroShares(0),
            BasisPoints(100)
        ),
        Err(AmmError::AmountTooSmall)
    ));
    // a 1-micro-share sell against a deep pool rounds to zero proceeds
    assert!(matches!(
        quote_sell(
            &pool(1_000_000_000_000, 1_000_000_000_000),
            Side::Yes,
            MicroShares(1),
            BasisPoints(100),
        ),
        Err(AmmError::AmountTooSmall)
    ));
}

#[test]
fn money_error_mapping_is_total() {
    assert_eq!(
        AmmError::from(MoneyError::NegativeAmount),
        AmmError::AmountTooSmall
    );
    assert_eq!(AmmError::from(MoneyError::Overflow), AmmError::Overflow);
    assert_eq!(
        AmmError::from(MoneyError::FeeTooHigh),
        AmmError::InputTooLarge
    );
}

#[test]
fn isqrt_unit_cases() {
    assert_eq!(isqrt_u128(0), 0);
    assert_eq!(isqrt_u128(1), 1);
    assert_eq!(isqrt_u128(2), 1);
    assert_eq!(isqrt_u128(3), 1);
    assert_eq!(isqrt_u128(4), 2);
    assert_eq!(isqrt_u128(u128::MAX), (1 << 64) - 1);
}
