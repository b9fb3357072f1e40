//! The laws of the library on sweeps of concrete values.

use opinions::amm::{isqrt_u128, price_micro, quote_buy, quote_sell, Pool, Side};
use opinions::clock::{day_start, secs_between, Timestamp};
use opinions::digest::{hex_of, sha256_hex};
use opinions::drafting::{next_daily_slot, next_flash_slot};
use opinions::fee_policy::{effective_fee, FeeContext};
use opinions::json::{canonical_json, Json};
use opinions::ledger::{
    AccountId, Balances, Currency, Entry, OwnerType, Transaction, TxnKind,
};
use opinions::market::{transition, MarketEvent, MarketState};
use opinions::mentions::parse_mentions;
use opinions::model::{MarketId, RepConfig, TradeAction, UserId};
use opinions::moderation::{body_hash, normalize_body, sanitize_for_storage};
use opinions::money::{apply_fee, BasisPoints, MicroShares, MicroUsd};
use opinions::ops::fences::{
    exclusive_fences_for_patch, market_paused_key, trading_market_fence, voting_market_fence,
    voting_paused_key, TRADING_PAUSED_KEY,
};
use opinions::ops::fingerprint::{patch_hash, trade_fingerprint};
use opinions::pricing::fee_for_trade;
use opinions::ranking::hot_score;
use opinions::reputation::{tier_for, update_rep, HalfLife, UNIT};
use opinions::resolution::settle_market;
use opinions::scoring::score_vote;
use opinions::text::{decimal_text, parse_i64};
use opinions::unicode::is_blank;

/// Numbers spread over a range, the same on every run.
fn spread(seed: u64, low: i64, high: i64, count: usize) -> Vec<i64> {
    let width = (high - low) as u64;
    let mut state = seed;
    (0..count)
        .map(|_| {
            state = state.wrapping_mul(6_364_136_223_846_793_005).wrapping_add(1_442_695_040_888_963_407);
            low + ((state >> 11) % width) as i64
        })
        .collect()
}

fn pool(y: i64, n: i64, fee: u16) -> Pool {
    Pool::new(MicroShares(y), MicroShares(n), BasisPoints(fee)).unwrap()
}

fn product(p: &Pool) -> i128 {
    i128::from(p.yes.0) * i128::from(p.no.0)
}

#[test]
fn isqrt_square_roundtrip() {
    let mut roots: Vec<u64> = spread(3, 1, i64::MAX, 200).into_iter().map(|x| x as u64).collect();
    roots.extend([1, 2, 3, u64::MAX, u64::MAX - 1]);
    for x in roots {
        let x = u128::from(x);
        assert_eq!(isqrt_u128(x * x), x);
        assert_eq!(isqrt_u128(x * x - 1), x - 1);
    }
}

#[test]
fn buy_never_decreases_k() {
    let ys = spread(1, 1_000_000, 1_000_000_000_000, 60);
    let ns = spread(2, 1_000_000, 1_000_000_000_000, 60);
    let cs = spread(3, 1, 10_000_000_000, 60);
    for i in 0..60 {
        let p = pool(ys[i], ns[i], 100);
        if let Ok(q) = quote_buy(&p, Side::Yes, MicroUsd(cs[i]), p.fee) {
            assert!(product(&q.pool_after) >= product(&p));
            assert!(q.shares_out.0 > 0);
            if let Ok(s) = quote_sell(&q.pool_after, Side::Yes, q.shares_out, p.fee) {
                assert!(product(&s.pool_after) >= product(&q.pool_after));
            }
        }
    }
}

#[test]
fn round_trip_never_profits() {
    let ys = spread(4, 1_000_000, 1_000_000_000_000, 60);
    let ns = spread(5, 1_000_000, 1_000_000_000_000, 60);
    let cs = spread(6, 1, 10_000_000_000, 60);
    for i in 0..60 {
        let p = pool(ys[i], ns[i], 0);
        if let Ok(b) = quote_buy(&p, Side::Yes, MicroUsd(cs[i]), p.fee) {
            if let Ok(s) = quote_sell(&b.pool_after, Side::Yes, b.shares_out, p.fee) {
                assert!(s.collateral_out.0 <= cs[i]);
            }
        }
    }
}

#[test]
fn prices_sum_to_one() {
    let ys = spread(7, 1_000, 1_000_000_000_000, 100);
    let ns = spread(8, 1_000, 1_000_000_000_000, 100);
    for i in 0..100 {
        let p = pool(ys[i], ns[i], 100);
        let s = price_micro(&p, Side::Yes) + price_micro(&p, Side::No);
        assert!((999_999..=1_000_000).contains(&s));
    }
}

#[test]
fn no_side_is_symmetric() {
    let ys = spread(9, 1_000_000, 1_000_000_000, 60);
    let ns = spread(10, 1_000_000, 1_000_000_000, 60);
    let cs = spread(11, 1, 1_000_000_000, 60);
    for i in 0..60 {
        let a = quote_buy(&pool(ys[i], ns[i], 100), Side::No, MicroUsd(cs[i]), BasisPoints(100));
        let b = quote_buy(&pool(ns[i], ys[i], 100), Side::Yes, MicroUsd(cs[i]), BasisPoints(100));
        match (a, b) {
            (Ok(qa), Ok(qb)) => {
                assert_eq!(qa.shares_out, qb.shares_out);
                assert_eq!(qa.pool_after.yes, qb.pool_after.no);
                assert_eq!(qa.pool_after.no, qb.pool_after.yes);
            }
            (Err(da), Err(db)) => assert_eq!(da, db),
            (a, b) => panic!("asymmetry: {a:?} vs {b:?}"),
        }
    }
}

#[test]
fn split_always_reassembles() {
    for gross in spread(12, 0, i64::MAX / 20_000, 100) {
        for bps in [0u16, 1, 99, 100, 5_000, 10_000] {
            let s = apply_fee(MicroUsd(gross), BasisPoints(bps)).unwrap();
            assert_eq!(s.net.0 + s.fee.0, gross);
            assert!(s.fee.0 >= 0 && s.net.0 >= 0);
        }
    }
}

fn funded(deposit: i64) -> (Balances, AccountId, Vec<AccountId>) {
    let ext = AccountId(1);
    let accts: Vec<AccountId> = (10..14).map(AccountId).collect();
    let mut bal = Balances::default();
    bal.open(ext, OwnerType::External, Currency::Usdc).unwrap();
    for a in &accts {
        bal.open(*a, OwnerType::User, Currency::Usdc).unwrap();
    }
    bal.apply(
        &Transaction::new(
            TxnKind::Deposit,
            vec![
                Entry { account: ext, amount: MicroUsd(-deposit) },
                Entry { account: accts[0], amount: MicroUsd(deposit) },
            ],
        )
        .unwrap(),
    )
    .unwrap();
    (bal, ext, accts)
}

fn check_conserved(bal: &Balances, ext: AccountId, accts: &[AccountId], deposit: i64) {
    assert_eq!(bal.internal_total(Currency::Usdc).0, deposit);
    assert_eq!(bal.balance(ext).unwrap().0, -deposit);
    for a in accts {
        assert!(bal.balance(*a).unwrap().0 >= 0);
    }
}

#[test]
fn conservation_with_repeated_account_entries() {
    let picks = spread(13, 0, 16, 200);
    let amounts = spread(14, 1, 500_000, 400);
    let deposit = 700_000;
    let (mut bal, ext, accts) = funded(deposit);
    for i in 0..200 {
        let (from, to) = ((picks[i] / 4) as usize, (picks[i] % 4) as usize);
        if from == to {
            continue;
        }
        let (a1, a2) = (amounts[2 * i], amounts[2 * i + 1]);
        let txn = Transaction::new(
            TxnKind::Trade,
            vec![
                Entry { account: accts[from], amount: MicroUsd(-a1) },
                Entry { account: accts[from], amount: MicroUsd(-a2) },
                Entry { account: accts[to], amount: MicroUsd(a1 + a2) },
            ],
        )
        .unwrap();
        let before = bal.balance(accts[from]).unwrap();
        if bal.apply(&txn).is_err() {
            assert_eq!(bal.balance(accts[from]).unwrap(), before);
        }
        check_conserved(&bal, ext, &accts, deposit);
    }
}

#[test]
fn conservation_over_random_transfers() {
    let picks = spread(15, 0, 16, 200);
    let amounts = spread(16, 1, 1_000_000, 200);
    let deposit = 1_500_000;
    let (mut bal, ext, accts) = funded(deposit);
    for i in 0..200 {
        let (from, to) = ((picks[i] / 4) as usize, (picks[i] % 4) as usize);
        if from == to {
            continue;
        }
        let legs = vec![
            Entry { account: accts[from], amount: MicroUsd(-amounts[i]) },
            Entry { account: accts[to], amount: MicroUsd(amounts[i]) },
        ];
        let _ = bal.apply(&Transaction::new(TxnKind::Trade, legs).unwrap());
    }
    check_conserved(&bal, ext, &accts, deposit);
}

#[test]
fn opposite_entries_undo_a_transaction() {
    let (mut bal, _, accts) = funded(1_000);
    let before = format!("{bal:?}");
    let legs = |amount: i64| {
        Transaction::new(
            TxnKind::Trade,
            vec![
                Entry { account: accts[0], amount: MicroUsd(-amount) },
                Entry { account: accts[1], amount: MicroUsd(amount) },
            ],
        )
        .unwrap()
    };
    bal.apply(&legs(300)).unwrap();
    assert_ne!(before, format!("{bal:?}"));
    bal.apply(&legs(-300)).unwrap();
    assert_eq!(before, format!("{bal:?}"));
}

#[test]
fn arbitrary_complete_holdings_conserve_with_bounded_dust() {
    let (user, house) = (AccountId(1), AccountId(2));
    let minted_values = spread(17, 2, 1_000_000_000, 60);
    let yes_seeds = spread(18, 0, 1_000_000_000, 60);
    let no_seeds = spread(19, 0, 1_000_000_000, 60);
    let actuals = spread(20, 0, 10_001, 60);
    for i in 0..60 {
        let minted = minted_values[i];
        let yes_user = 1 + yes_seeds[i] % (minted - 1);
        let no_user = 1 + no_seeds[i] % (minted - 1);
        let holdings = [
            (user, Side::Yes, MicroShares(yes_user)),
            (house, Side::Yes, MicroShares(minted - yes_user)),
            (user, Side::No, MicroShares(no_user)),
            (house, Side::No, MicroShares(minted - no_user)),
        ];
        let settlement =
            settle_market(&holdings, u16::try_from(actuals[i]).unwrap(), MicroUsd(minted)).unwrap();
        let paid: i64 = settlement.payouts.iter().map(|(_, payout)| payout.0).sum();
        assert_eq!(paid + settlement.dust.0, minted);
        assert!(settlement.dust.0 >= 0);
        assert!(settlement.dust.0 < 4);
    }
}

#[test]
fn closer_guess_never_has_lower_accuracy() {
    for actual in [0u16, 1, 37, 4_999, 5_000, 5_001, 7_350, 10_000] {
        for side in [Side::Yes, Side::No] {
            for first in 0..=100u8 {
                for second in [0u8, 13, 50, 74, 100] {
                    let off = |g: u8| (i32::from(g) * 100 - i32::from(actual)).abs();
                    let (closer, farther) =
                        if off(first) <= off(second) { (first, second) } else { (second, first) };
                    let close = score_vote(side, closer, actual).unwrap();
                    let far = score_vote(side, farther, actual).unwrap();
                    assert!(close.accuracy_bp >= far.accuracy_bp);
                    assert!(close.score_bp >= far.score_bp);
                    assert!(close.score_bp <= 10_000 && close.majority_bp <= 10_000);
                }
            }
        }
    }
}

#[test]
fn adversarial_unicode_never_panics() {
    let bodies = [
        "",
        "@",
        "@@@a",
        "`@a",
        "\u{202e}@bob\u{0} @BOB @b\u{f6}b",
        "@aaaaaaaaaaaaaaaaaaaaaaaaaaaaaaaaaaaaaaaaaaaaaaaaaaaaaaaaaaaaaaaaaaa",
        "\u{1f600}@smile\u{1f600} ``@x`` @y",
    ];
    for body in bodies {
        for max in [0u8, 1, 2, 255] {
            let found = parse_mentions(body, max);
            assert!(found.len() <= usize::from(max));
            for i in 0..found.len() {
                for k in 0..i {
                    assert_ne!(found[i], found[k]);
                }
            }
        }
    }
}

#[test]
fn slots_are_strictly_later_and_next() {
    for at in [-1i64, 0, 1, 43_199, 43_200, 86_399, 86_400, 1_700_000_000] {
        for slots in [1u16, 2, 3, 7, 24] {
            let next = next_daily_slot(at, slots).unwrap();
            assert!(next > at);
            assert_eq!(next_daily_slot(next - 1, slots).unwrap(), next);
        }
        for cadence in [1u64, 60, 3_600] {
            let next = next_flash_slot(at, cadence).unwrap();
            assert!(next > at && next - at <= cadence as i64);
            assert_eq!(next.rem_euclid(cadence as i64), 0);
        }
    }
}

#[test]
fn hotness_rises_with_the_score_and_falls_with_age() {
    for score in -50..50 {
        for age in [0i64, 1, 3_600, 86_400] {
            assert!(hot_score(score, age).unwrap() <= hot_score(score + 1, age).unwrap());
            if score >= 0 {
                assert!(hot_score(score, age).unwrap() >= hot_score(score, age + 3_600).unwrap());
            }
        }
    }
}

#[test]
fn reputation_stays_between_itself_and_the_score() {
    for rep in spread(21, 0, UNIT + 1, 40) {
        for score in spread(22, 0, UNIT + 1, 10) {
            for h in [HalfLife::H10, HalfLife::H20, HalfLife::H40] {
                let next = update_rep(rep, score, h).unwrap();
                assert!(rep.min(score) <= next && next <= rep.max(score));
            }
        }
    }
    let thresholds = [100, 200, 300, 400];
    for rep in 0..500 {
        assert!(tier_for(rep, &thresholds) <= tier_for(rep + 1, &thresholds));
    }
}

#[test]
fn fees_stay_between_the_floor_and_the_base() {
    for base in [5u16, 10, 100, 200] {
        for tier in 0..8u8 {
            let fee = effective_fee(&FeeContext {
                base_bps: base,
                tier,
                discount_bp_by_tier: [0, 10, 40, 50, 60],
                min_fee_bps: 10,
                is_flip_within_window: false,
            });
            assert!(fee.0 <= base.max(10) && fee.0 >= base.min(10));
        }
    }
}

#[test]
fn the_flip_window_ends_exactly_at_its_length() {
    let rep = RepConfig {
        fee_discount_bp_by_tier: [0, 0, 40, 40, 40],
        min_fee_bps: 10,
        discount_flip_window_secs: 60,
        ..RepConfig::default()
    };
    let bought = Timestamp::from_secs(1_000);
    let fee = |secs: i64| {
        fee_for_trade(TradeAction::Sell, &rep, 2, 100, Some(bought), bought.plus_secs(secs)).0
    };
    assert_eq!(fee(59), 100);
    assert_eq!(fee(60), 60);
    assert_eq!(
        fee_for_trade(TradeAction::Buy, &rep, 2, 100, Some(bought), bought.plus_secs(1)).0,
        60
    );
}

#[test]
fn final_states_take_no_event_and_admins_void_what_is_open() {
    let events = [
        MarketEvent::GoLive,
        MarketEvent::EnterCloseWindow,
        MarketEvent::Close,
        MarketEvent::VoidByAdmin,
    ];
    for event in events {
        assert!(transition(MarketState::Paid, event).is_err());
        assert!(transition(MarketState::Voided, event).is_err());
    }
    for state in [MarketState::Live, MarketState::Closing, MarketState::Resolving] {
        assert_eq!(transition(state, MarketEvent::VoidByAdmin), Ok(MarketState::Voided));
    }
}

#[test]
fn digests_are_sha_256_in_hexadecimal() {
    assert_eq!(
        sha256_hex(b""),
        "e3b0c44298fc1c149afbf4c8996fb92427ae41e4649b934ca495991b7852b855"
    );
    assert_eq!(
        sha256_hex(b"abc"),
        "ba7816bf8f01cfea414140de5dae2223b00361a396177a9cb410ff61f20015ad"
    );
    assert_eq!(hex_of(&[0, 1, 0xab, 0xff]), "0001abff");
}

#[test]
fn normal_forms_fold_width_case_space_and_invisible_characters() {
    assert_eq!(normalize_body("\u{ff28}ELLO   World"), "hello world");
    assert_eq!(normalize_body(" \u{200b}a\tb "), "a b");
    assert_eq!(body_hash("Hello  world"), body_hash("\u{ff48}ello world"));
    assert_ne!(body_hash("hello world"), body_hash("hello worlds"));
    assert_eq!(sanitize_for_storage("a\u{202e}b\u{7}c"), "abc");
    assert!(is_blank(" \u{2003}\t"));
    assert!(!is_blank(" x "));
}

#[test]
fn control_characters_and_white_space_are_these() {
    for c in '\0'..=char::MAX {
        let text = c.to_string();
        assert_eq!(is_blank(&text), c.is_whitespace(), "{c:?}");
        let control = c <= '\u{1f}' || ('\u{7f}'..='\u{9f}').contains(&c);
        let space = ('\u{9}'..='\u{d}').contains(&c)
            || ('\u{2000}'..='\u{200a}').contains(&c)
            || " \u{85}\u{a0}\u{1680}\u{2028}\u{2029}\u{202f}\u{205f}\u{3000}".contains(c);
        assert_eq!(is_blank(&text), space, "{c:?}");
        assert_eq!(control, c.is_control(), "{c:?}");
        if control {
            let kept = c == '\n' || c == '\t';
            assert_eq!(sanitize_for_storage(&text).is_empty(), !kept, "{c:?}");
        }
    }
    let normal = normalize_body("\u{85}A\u{1}\u{3000}\r\nB\u{9f}\u{2028}");
    assert_eq!(normal, "a b");
    assert_eq!(sanitize_for_storage(&sanitize_for_storage("a\u{7}\tb")), "a\tb");
}

#[test]
fn a_pause_key_is_one_markets_alone() {
    let (a, b) = (MarketId(1), MarketId(2));
    assert_eq!(market_paused_key(a), "market_paused:00000000-0000-0000-0000-000000000001");
    assert_eq!(voting_paused_key(a), "voting_paused:00000000-0000-0000-0000-000000000001");
    assert_ne!(market_paused_key(a), market_paused_key(b));
    assert_ne!(voting_paused_key(a), voting_paused_key(b));
    assert_eq!(TRADING_PAUSED_KEY, "trading_paused");
    assert_eq!(
        exclusive_fences_for_patch(&[market_paused_key(b)]),
        [trading_market_fence(b)]
    );
    assert_eq!(
        exclusive_fences_for_patch(&[voting_paused_key(b)]),
        [voting_market_fence(b)]
    );
}

#[test]
fn member_order_never_changes_a_hash() {
    let a = ("a".to_string(), Json::Int(1));
    let b = ("b".to_string(), Json::Array(vec![Json::Null, Json::Bool(true)]));
    let forward = Json::Object(vec![a.clone(), b.clone()]);
    let backward = Json::Object(vec![b.clone(), a]);
    assert_eq!(patch_hash(&forward), patch_hash(&backward));
    assert_eq!(canonical_json(&forward), canonical_json(&backward));
    assert_eq!(canonical_json(&forward), "{\"a\":1,\"b\":[null,true]}");
    assert_ne!(patch_hash(&forward), patch_hash(&Json::Object(vec![b])));
}

#[test]
fn numbers_are_written_as_they_read() {
    let written = |text: &str| canonical_json(&Json::Number(text.to_string()));
    assert_eq!(written("1.50"), "1.5");
    assert_eq!(written("18446744073709551615"), "18446744073709551615");
    assert_eq!(written("7"), canonical_json(&Json::Int(7)));
    assert_eq!(written("seven"), "null");
}

#[test]
fn a_fingerprint_tells_requests_apart() {
    let base = |amount: i64, market: u128| {
        trade_fingerprint(
            MarketId(market),
            UserId(2),
            Side::Yes,
            TradeAction::Buy,
            amount,
            Some(1),
        )
    };
    assert_eq!(base(5, 1), base(5, 1));
    assert_ne!(base(5, 1), base(6, 1));
    assert_ne!(base(5, 1), base(5, 3));
}

#[test]
fn fences_come_in_one_order_whatever_the_patch_says() {
    let id = uuid::Uuid::from_u128(5);
    let trading = "trading_paused".to_string();
    let market = format!("market_paused:{id}");
    let forward = vec![trading.clone(), market.clone()];
    let backward = vec![market, trading];
    let fences = exclusive_fences_for_patch(&forward);
    assert_eq!(fences, exclusive_fences_for_patch(&backward));
    for i in 1..fences.len() {
        assert!(fences[i - 1] < fences[i]);
    }
}

#[test]
fn days_start_at_midnight() {
    let t = Timestamp::from_secs(1_700_000_000);
    assert_eq!(day_start(t), Timestamp::from_secs(1_699_920_000));
    assert_eq!(day_start(day_start(t)), day_start(t));
    assert_eq!(day_start(Timestamp::from_secs(-1)), Timestamp::from_secs(-86_400));
    assert_eq!(secs_between(day_start(t), t), 80_000);
}

#[test]
fn numbers_are_read_as_they_are_written() {
    for n in [0i64, 7, -7, i64::MAX, i64::MIN, 1_000] {
        assert_eq!(decimal_text(n), n.to_string());
        assert_eq!(parse_i64(&decimal_text(n)), Some(n));
    }
    for text in ["", "-", "+", "1x", " 1", "9223372036854775808", "--1"] {
        assert_eq!(parse_i64(text), text.parse::<i64>().ok());
    }
    assert_eq!(parse_i64("+5"), Some(5));
}
