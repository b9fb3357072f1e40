//! The demo world: its settings, windows and keys.

use opinions::amm::Side;
use opinions::clock::Timestamp;
use opinions::demo::{gate_vote, goes_live, market_windows, seed_demo, DemoSettings};
use opinions::market::MarketState;
use opinions::model::{MarketId, UserId};
use opinions::money::{BasisPoints, MicroUsd};

const NOW: i64 = 1_700_000_000;

fn at(secs: i64) -> Timestamp {
    Timestamp::from_secs(secs)
}

fn no_settings() -> DemoSettings {
    DemoSettings {
        demo_phone: None,
        genesis_house_micro: None,
        min_votes_to_resolve: None,
        seed_skip_vote: None,
        demo_slug: None,
        demo_chain_sig: None,
        flash_closes_secs: None,
        flash_tally_hidden_secs: None,
    }
}

#[test]
fn windows_default_to_two_hours_with_a_ten_minute_hidden_tally() {
    assert_eq!(market_windows(at(NOW), None, None), (at(NOW + 7_200), at(NOW + 6_600)));
    assert_eq!(
        market_windows(at(NOW), None, Some(5)),
        (at(NOW + 7_200), at(NOW + 6_600))
    );
}

#[test]
fn flash_windows_hide_the_last_thirty_seconds_at_most() {
    assert_eq!(market_windows(at(NOW), Some(100), None), (at(NOW + 100), at(NOW + 70)));
    assert_eq!(market_windows(at(NOW), Some(20), None), (at(NOW + 20), at(NOW)));
    assert_eq!(market_windows(at(NOW), Some(100), Some(40)), (at(NOW + 100), at(NOW + 40)));
    assert_eq!(market_windows(at(NOW), Some(100), Some(400)), (at(NOW + 100), at(NOW + 100)));
}

#[test]
fn the_plan_without_settings_is_the_demo_market() {
    let plan = seed_demo(&no_settings(), at(NOW));
    assert_eq!(plan.phone, "+15550100");
    assert_eq!(plan.create_user_key, "create-user:demo:+15550100");
    assert_eq!(plan.genesis, MicroUsd(10_000_000_000));
    assert_eq!(plan.seed.slug, "demo-coffee");
    assert_eq!(plan.seed.min_votes_to_resolve, 1);
    assert_eq!(plan.seed.fee, BasisPoints(100));
    assert_eq!(plan.seed.seed, MicroUsd(1_000_000_000));
    assert_eq!(plan.seed.idempotency_key, "seed:demo-coffee");
    assert!(!plan.seed.force);
    assert_eq!(plan.seed.closes_at, at(NOW + 7_200));
    assert_eq!(plan.seed.tally_hidden_at, at(NOW + 6_600));
    assert_eq!(plan.go_live_key, "golive:demo-coffee");
    assert_eq!(plan.deposit, MicroUsd(50_000_000));
    assert_eq!(plan.chain_sig, "demo-chain-sig-0001");
    assert_eq!(plan.deposit_key, "deposit:demo-chain-sig-0001");
    assert!(!plan.skip_vote);
}

#[test]
fn the_market_id_is_derived_from_the_slug() {
    let plan = seed_demo(&no_settings(), at(NOW));
    let expected =
        uuid::Uuid::new_v5(&uuid::Uuid::NAMESPACE_URL, b"opinions:market:demo-coffee");
    assert_eq!(plan.seed.market_id, MarketId(expected.as_u128()));
    let again = seed_demo(&no_settings(), at(NOW + 1));
    assert_eq!(again.seed.market_id, plan.seed.market_id);
    let mut other = no_settings();
    other.demo_slug = Some("demo-tea".to_string());
    assert_ne!(seed_demo(&other, at(NOW)).seed.market_id, plan.seed.market_id);
}

#[test]
fn settings_replace_the_defaults() {
    let settings = DemoSettings {
        demo_phone: Some("+1999".to_string()),
        genesis_house_micro: Some("-5".to_string()),
        min_votes_to_resolve: Some("7".to_string()),
        seed_skip_vote: Some("TRUE".to_string()),
        demo_slug: Some("s".to_string()),
        demo_chain_sig: Some("sig".to_string()),
        flash_closes_secs: Some("100".to_string()),
        flash_tally_hidden_secs: Some("+40".to_string()),
    };
    let plan = seed_demo(&settings, at(NOW));
    assert_eq!(plan.phone, "+1999");
    assert_eq!(plan.genesis, MicroUsd(-5));
    assert_eq!(plan.seed.min_votes_to_resolve, 7);
    assert!(plan.skip_vote);
    assert_eq!(plan.seed.closes_at, at(NOW + 100));
    assert_eq!(plan.seed.tally_hidden_at, at(NOW + 40));
    assert_eq!(plan.deposit_key, "deposit:sig");
}

#[test]
fn unreadable_settings_fall_back() {
    let settings = DemoSettings {
        genesis_house_micro: Some("ten".to_string()),
        min_votes_to_resolve: Some("3000000000".to_string()),
        seed_skip_vote: Some("yes".to_string()),
        flash_closes_secs: Some("0".to_string()),
        flash_tally_hidden_secs: Some("-1".to_string()),
        ..no_settings()
    };
    let plan = seed_demo(&settings, at(NOW));
    assert_eq!(plan.genesis, MicroUsd(10_000_000_000));
    assert_eq!(plan.seed.min_votes_to_resolve, 1);
    assert!(!plan.skip_vote);
    assert_eq!(plan.seed.closes_at, at(NOW + 7_200));
    let mut one = no_settings();
    one.seed_skip_vote = Some("1".to_string());
    assert!(seed_demo(&one, at(NOW)).skip_vote);
}

#[test]
fn the_gate_vote_and_the_go_live_rule_are_fixed() {
    let (side, guess, key) = gate_vote("demo-coffee", UserId(7));
    assert_eq!(side, Side::Yes);
    assert_eq!(guess, 60);
    assert_eq!(key, "vote:demo-coffee:00000000-0000-0000-0000-000000000007");
    assert!(goes_live(MarketState::Scheduled));
    for state in [MarketState::Live, MarketState::Closing, MarketState::Resolved] {
        assert!(!goes_live(state));
    }
}
