//! The configuration catalog, patch validation, fingerprints and staleness.

use opinions::amm::Side;
use opinions::error::AppError;
use opinions::json::{canonical_json, Json};
use opinions::model::{AdminRole, ConfigChange, MarketId, RepConfig, TradeAction, UserId};
use opinions::ops::catalog::{catalog, is_sensitive, role_may_write, rule_for};
use opinions::ops::checks::{
    as_bool, as_i64, as_i64_array, bounded, check_bonus_structure, check_bool, check_cadence, check_daily_slots, check_discounts, check_dual_delay, check_faucet_cap, check_fee_override, check_flip_window, check_hidden_window, check_hold_threshold, check_integrity_ppm, check_kyc_tier, check_max_votes, check_min_fee, check_min_pot, check_min_votes_floor, check_oi_floor, check_position_caps, check_proposal_ttl, check_receivable_cap, check_region_allowset, check_region_version, check_remedial_daily_cap, check_remedial_market_cap, check_seed, check_seed_budget, check_shadow_cap, check_sweep_delay, check_tier_thresholds, check_vote_window, check_writeoff_daily_cap, check_writeoff_item_cap, max_delta, monotone_non_decreasing, mul_delta,
    within_2x,
};
use opinions::ops::config::{check_p7_cross_keys, phase7_seed_snapshot, validate_patch};
use opinions::ops::fee_override::{override_key, FeeBpsOverride};
use opinions::ops::fences::{exclusive_fences_for_patch, pause_in_force};
use opinions::ops::fingerprint::{
    patch_hash, trade_fingerprint, validate_replay_fingerprint, vote_fingerprint,
};
use opinions::ops::snapshot::Snapshot;
use opinions::ops::staleness::{preview_relevant_drift, StalenessContext};

/// The document of a text.
fn j(text: &str) -> Json {
    from_value(&serde_json::from_str(text).unwrap())
}

fn from_value(v: &serde_json::Value) -> Json {
    match v {
        serde_json::Value::Null => Json::Null,
        serde_json::Value::Bool(b) => Json::Bool(*b),
        serde_json::Value::Number(n) => match n.as_i64() {
            Some(i) => Json::Int(i),
            None => Json::Number(n.to_string()),
        },
        serde_json::Value::String(s) => Json::Text(s.clone()),
        serde_json::Value::Array(items) => Json::Array(items.iter().map(from_value).collect()),
        serde_json::Value::Object(members) => Json::Object(
            members.iter().map(|(k, v)| (k.clone(), from_value(v))).collect(),
        ),
    }
}

fn seed_snapshot() -> Snapshot {
    let mut snap = Snapshot::new();
    snap.insert("trade_fee_bps".into(), Json::Int(100));
    snap.insert("min_fee_bps".into(), Json::Int(10));
    snap.insert("discount_flip_window_secs".into(), Json::Int(3600));
    snap.insert("fee_discount_bp_by_tier".into(), j(r#"[0, 0, 10, 20, 30]"#));
    snap.insert(
        "position_cap_micro_by_tier".into(),
        j(r#"[ 25000000, 50000000, 100000000, 250000000, 500000000 ]"#),
    );
    snap.insert("trading_paused".into(), Json::Bool(false));
    snap.insert("daily_slots".into(), Json::Int(2));
    snap
}

#[test]
fn the_published_seed_discount_vector_validates_against_the_min_fee_floor() {
    // The floor applies to the COMPUTED
    // effective fee, so the published [0,0,10,20,30] seed re-validates.
    let snap = seed_snapshot();
    let changes = validate_patch(
        &snap,
        &j(r#"{"fee_discount_bp_by_tier": [0, 0, 10, 20, 30]}"#),
    )
    .unwrap();
    assert!(changes.is_empty(), "no-op patch produces no change rows");
}

#[test]
fn change_rows_come_in_order_of_keys_however_a_patch_lists_them() {
    let snap = seed_snapshot();
    let fee = ("trade_fee_bps".to_string(), Json::Int(110));
    let slots = ("daily_slots".to_string(), Json::Int(3));
    let earlier = ("daily_slots".to_string(), Json::Int(2));
    let listed = Json::Object(vec![fee.clone(), earlier, slots.clone()]);
    let changes = validate_patch(&snap, &listed).unwrap();
    let keys: Vec<&str> = changes.iter().map(|c| c.key.as_str()).collect();
    assert_eq!(keys, ["daily_slots", "trade_fee_bps"]);
    assert_eq!(changes[0].new, Json::Int(3));
    assert_eq!(changes, validate_patch(&snap, &Json::Object(vec![slots, fee])).unwrap());
}

#[test]
fn bounds_and_unknown_keys_are_typed_422s() {
    let snap = seed_snapshot();
    assert!(validate_patch(&snap, &j(r#"{"trade_fee_bps": 5}"#)).is_err());
    assert!(validate_patch(&snap, &j(r#"{"trade_fee_bps": 300}"#)).is_err());
    assert!(validate_patch(&snap, &j(r#"{"no_such_key": 1}"#)).is_err());
    assert!(validate_patch(&snap, &j(r#"{"trade_fee_bps": "not-a-number"}"#)).is_err());
    assert!(validate_patch(&snap, &j(r#"[1, 2]"#)).is_err());
    assert!(validate_patch(&snap, &j(r#"{}"#)).is_err());
}

#[test]
fn max_delta_rules_bind_per_apply() {
    let snap = seed_snapshot();
    // 100 → 120 is the exact fee limit; 121 exceeds it.
    assert!(validate_patch(&snap, &j(r#"{"trade_fee_bps": 120}"#)).is_ok());
    assert!(validate_patch(&snap, &j(r#"{"trade_fee_bps": 121}"#)).is_err());
    // Discount entries move at most 10bp each.
    assert!(validate_patch(&snap, &j(r#"{"fee_discount_bp_by_tier": [0,0,20,30,40]}"#)).is_ok());
    assert!(
        validate_patch(&snap, &j(r#"{"fee_discount_bp_by_tier": [0,0,21,30,40]}"#)).is_err()
    );
    // daily_slots moves one step.
    assert!(validate_patch(&snap, &j(r#"{"daily_slots": 3}"#)).is_ok());
    assert!(validate_patch(&snap, &j(r#"{"daily_slots": 4}"#)).is_err());
}

#[test]
fn monotonicity_and_published_floors_hold() {
    let snap = seed_snapshot();
    assert!(
        validate_patch(
            &snap,
            &j(r#"{"fee_discount_bp_by_tier": [0, 10, 5, 20, 30]}"#)
        )
        .is_err(),
        "non-monotone discounts rejected"
    );
    assert!(
        validate_patch(
            &snap,
            &j(r#"{"position_cap_micro_by_tier": [1, 50000000, 100000000, 250000000, 500000000]}"#)
        )
        .is_err(),
        "caps below the published tier table rejected"
    );
}

#[test]
fn discount_entries_bound_to_the_prospective_fee() {
    let snap = seed_snapshot();
    // Discounts may not exceed the PROSPECTIVE trade_fee_bps when the
    // same patch lowers it: entry 30 > 25 must reject.
    let err = validate_patch(
        &snap,
        &j(r#"{"trade_fee_bps": 90, "fee_discount_bp_by_tier": [0, 0, 10, 20, 95]}"#),
    );
    assert!(err.is_err());
}

#[test]
fn integrity_bands_anchor_at_shipped_defaults() {
    let snap = seed_snapshot();
    assert!(validate_patch(&snap, &j(r#"{"integrity_young_share_max_ppm": 600000}"#)).is_ok());
    assert!(validate_patch(&snap, &j(r#"{"integrity_young_share_max_ppm": 601000}"#)).is_err());
    assert!(validate_patch(&snap, &j(r#"{"integrity_young_share_max_ppm": 399000}"#)).is_err());
}

#[test]
fn sensitivity_and_roles_follow_the_catalog() {
    assert!(is_sensitive("trade_fee_bps"));
    assert!(is_sensitive(
        "voting_paused:2c1a2f3e-0000-0000-0000-000000000000"
    ));
    assert!(!is_sensitive("trading_paused"));
    assert!(!is_sensitive("sweep_delay_secs"));

    assert!(role_may_write(AdminRole::Ops, "trading_paused"));
    assert!(
        !role_may_write(AdminRole::Superadmin, "trading_paused"),
        "direct keys stay with their listed role — no hierarchy"
    );
    assert!(role_may_write(AdminRole::Finance, "trade_fee_bps"));
    assert!(role_may_write(AdminRole::Superadmin, "trade_fee_bps"));
    assert!(!role_may_write(AdminRole::Curator, "trade_fee_bps"));
    assert!(role_may_write(AdminRole::Curator, "daily_slots"));
    assert!(!role_may_write(AdminRole::Ops, "unknown_key"));
}

#[test]
fn pattern_keys_require_a_uuid_suffix() {
    assert!(rule_for("market_paused:6b8bd4c4-9a0f-4d3e-8f5a-111111111111").is_some());
    assert!(rule_for("market_paused:not-a-uuid").is_none());
    assert!(rule_for("market_paused:").is_none());
}

#[test]
fn exclusive_fences_are_canonically_ordered() {
    let a = MarketId(2);
    let b = MarketId(1);
    let keys = vec![
        format!("voting_paused:{}", uuid::Uuid::from_u128(a.0)),
        "trading_paused".to_string(),
        format!("market_paused:{}", uuid::Uuid::from_u128(b.0)),
        "trade_fee_bps".to_string(),
    ];
    let fences = exclusive_fences_for_patch(&keys);
    assert_eq!(fences[0], "trading-global");
    let mut sorted = fences[1..].to_vec();
    sorted.sort();
    assert_eq!(fences[1..], sorted[..], "scoped fences sorted by name");
    assert_eq!(fences.len(), 3, "non-pause keys take no fence");
}

#[test]
fn canonical_json_sorts_keys_at_every_depth_and_hashes_stably() {
    let a = j(r#"{"b": 1, "a": {"d": 2, "c": [3, {"f": 4, "e": 5}]}}"#);
    let b = j(r#"{"a": {"c": [3, {"e": 5, "f": 4}], "d": 2}, "b": 1}"#);
    assert_eq!(canonical_json(&a), canonical_json(&b));
    assert_eq!(patch_hash(&a), patch_hash(&b));
    assert_eq!(patch_hash(&a).len(), 64);
}

#[test]
fn fingerprints_pin_the_canonical_request_shape() {
    let market = MarketId(7);
    let user = UserId(9);
    let with_version = trade_fingerprint(
        market,
        user,
        Side::Yes,
        TradeAction::Buy,
        5_000_000,
        Some(3),
    );
    let without = trade_fingerprint(
        market,
        user,
        Side::Yes,
        TradeAction::Buy,
        5_000_000,
        None,
    );
    assert_ne!(
        with_version, without,
        "the version is part of the fingerprint"
    );
    assert_ne!(
        with_version,
        trade_fingerprint(
            market,
            user,
            Side::Yes,
            TradeAction::Buy,
            5_000_001,
            Some(3),
        ),
        "the amount is part of the fingerprint"
    );
    assert_ne!(
        vote_fingerprint(market, user, Side::Yes, 60),
        vote_fingerprint(market, user, Side::No, 60),
    );
    assert!(validate_replay_fingerprint(None, "new").is_ok());
    assert!(validate_replay_fingerprint(Some("same"), "same").is_ok());
    assert_eq!(
        validate_replay_fingerprint(Some("old"), "new"),
        Err(AppError::IdempotencyConflict)
    );
}

fn drift_ctx(action: TradeAction) -> StalenessContext {
    // The PUBLISHED economy values (`RepConfig::default()` is the
    // all-zero test scaffold, under which every effective-fee compare
    // would collapse to the base fee).
    StalenessContext {
        user_tier: 2,
        pool_fee_bps: 100,
        active_fee_override: FeeBpsOverride::Inherit,
        rep: RepConfig {
            fee_discount_bp_by_tier: [0, 0, 10, 20, 30],
            min_fee_bps: 10,
            discount_flip_window_secs: 3600,
            ..RepConfig::default()
        },
        action,
        secs_since_last_buy: None,
        market: None,
    }
}

#[test]
fn cap_change_at_this_users_tier_is_relevant_drift() {
    let changes = vec![ConfigChange {
        key: "position_cap_micro_by_tier".into(),
        old: Some(j(r#"[ 25000000, 50000000, 100000000, 250000000, 500000000 ]"#)),
        new: j(r#"[ 25000000, 50000000, 120000000, 250000000, 500000000 ]"#),
    }];
    assert!(preview_relevant_drift(
        &changes,
        &drift_ctx(TradeAction::Buy)
    ));
}

#[test]
fn cap_change_at_another_tier_is_not_relevant() {
    let changes = vec![ConfigChange {
        key: "position_cap_micro_by_tier".into(),
        old: Some(j(r#"[ 25000000, 50000000, 100000000, 250000000, 500000000 ]"#)),
        new: j(r#"[ 25000000, 50000000, 100000000, 250000000, 900000000 ]"#),
    }];
    assert!(!preview_relevant_drift(
        &changes,
        &drift_ctx(TradeAction::Buy)
    ));
}

#[test]
fn min_fee_change_is_relevant_only_when_it_moves_this_users_effective_fee() {
    // Tier 2 discount 10 → effective fee max(100-10, min_fee). A floor
    // move 10 → 20 keeps 90 ≥ 20: NOT relevant. A floor move to 95
    // binds: relevant.
    let benign = vec![ConfigChange {
        key: "min_fee_bps".into(),
        old: Some(Json::Int(10)),
        new: Json::Int(20),
    }];
    assert!(!preview_relevant_drift(
        &benign,
        &drift_ctx(TradeAction::Buy)
    ));
    let binding = vec![ConfigChange {
        key: "min_fee_bps".into(),
        old: Some(Json::Int(10)),
        new: Json::Int(95),
    }];
    assert!(preview_relevant_drift(
        &binding,
        &drift_ctx(TradeAction::Buy)
    ));
}

#[test]
fn unchanged_active_override_is_used_when_another_fee_input_drifts() {
    let changes = vec![ConfigChange {
        key: "min_fee_bps".into(),
        old: Some(Json::Int(10)),
        new: Json::Int(20),
    }];
    let mut ctx = drift_ctx(TradeAction::Buy);
    ctx.active_fee_override = FeeBpsOverride::Override(10);
    assert!(preview_relevant_drift(&changes, &ctx));
}

#[test]
fn discount_change_at_this_tier_is_relevant() {
    let changes = vec![ConfigChange {
        key: "fee_discount_bp_by_tier".into(),
        old: Some(j(r#"[0, 0, 10, 20, 30]"#)),
        new: j(r#"[0, 0, 20, 20, 30]"#),
    }];
    assert!(preview_relevant_drift(
        &changes,
        &drift_ctx(TradeAction::Buy)
    ));
}

#[test]
fn flip_window_churn_does_not_stale_a_non_flip_buy() {
    // Flip-window drift is
    // relevant only when the pending action would flip.
    let changes = vec![ConfigChange {
        key: "discount_flip_window_secs".into(),
        old: Some(Json::Int(3600)),
        new: Json::Int(7200),
    }];
    assert!(!preview_relevant_drift(
        &changes,
        &drift_ctx(TradeAction::Buy)
    ));
    // A sell whose last buy sits between the two windows flips only
    // under the new window: relevant.
    let mut sell = drift_ctx(TradeAction::Sell);
    sell.secs_since_last_buy = Some(5_000);
    assert!(preview_relevant_drift(&changes, &sell));
    // A sell far outside both windows: irrelevant.
    sell.secs_since_last_buy = Some(50_000);
    assert!(!preview_relevant_drift(&changes, &sell));
}

#[test]
fn fee_override_change_stales_that_market_only() {
    let market = MarketId(7);
    let key = override_key(market);
    let changes = vec![ConfigChange {
        key,
        old: Some(j(r#""inherit""#)),
        new: j(r#"{"override": 40}"#),
    }];
    let mut ctx = drift_ctx(TradeAction::Buy);
    ctx.market = Some(market);
    assert!(preview_relevant_drift(&changes, &ctx));
    ctx.market = Some(MarketId(8));
    assert!(!preview_relevant_drift(&changes, &ctx));
}

#[test]
fn malformed_fee_override_is_conservatively_relevant_drift() {
    let market = MarketId(7);
    let changes = vec![ConfigChange {
        key: override_key(market),
        old: Some(j(r#""inherit""#)),
        new: j(r#"{"override": "corrupt"}"#),
    }];
    let mut ctx = drift_ctx(TradeAction::Buy);
    ctx.market = Some(market);
    assert!(preview_relevant_drift(&changes, &ctx));
}

#[test]
fn unrelated_keys_are_never_relevant() {
    let changes = vec![ConfigChange {
        key: "trade_fee_bps".into(),
        old: Some(Json::Int(100)),
        new: Json::Int(120),
    }];
    assert!(
        !preview_relevant_drift(&changes, &drift_ctx(TradeAction::Buy)),
        "a global fee change is new-market-only and never 409s an existing book"
    );
}

#[test]
fn pause_values_read_falsy_when_absent_or_malformed() {
    assert!(!pause_in_force(None));
    assert!(!pause_in_force(Some(&j(r#""yes""#))));
    assert!(!pause_in_force(Some(&Json::Bool(false))));
    assert!(pause_in_force(Some(&Json::Bool(true))));
}

#[test]
fn every_catalog_row_is_reachable_and_self_consistent() {
    for rule in catalog() {
        if rule.pattern {
            assert!(rule.key.ends_with(':'), "{}", rule.key);
            let concrete = format!("{}{}", rule.key, uuid::Uuid::nil());
            assert!(rule_for(&concrete).is_some());
        } else {
            assert!(rule_for(rule.key).is_some());
        }
    }
}

#[test]
fn catalog_validators_cover_every_boundary_and_delta_rule() {
    let empty = Snapshot::new();

    for rule in catalog() {
        let key = if rule.pattern {
            format!("{}{}", rule.key, uuid::Uuid::nil())
        } else {
            rule.key.to_string()
        };
        assert!(
            rule.check.run(&key, &j(r#""wrong-type""#), &empty).is_err(),
            "{} must reject the wrong JSON type",
            rule.key
        );
    }

    assert_eq!(as_i64(&j(r#""1""#)), Err("expected an integer"));
    assert_eq!(as_bool(&Json::Int(1)), Err("expected a boolean"));
    assert_eq!(as_i64_array::<2>(&Json::Int(1)), Err("expected an array"));
    assert_eq!(as_i64_array::<2>(&j(r#"[1]"#)), Err("wrong array length"));
    assert_eq!(
        as_i64_array::<2>(&j(r#"[1, false]"#)),
        Err("expected integer entries")
    );
    assert_eq!(as_i64_array::<2>(&j(r#"[1, 2]"#)).unwrap(), vec![1, 2]);
    assert_eq!(bounded(0, 1, 2), Err("out of bounds"));
    assert_eq!(bounded(3, 1, 2), Err("out of bounds"));
    assert!(bounded(1, 1, 2).is_ok());
    assert_eq!(
        max_delta(Some(10), 13, 2),
        Err("delta exceeds the per-apply limit")
    );
    assert!(max_delta(None, 99, 0).is_ok());
    assert_eq!(
        within_2x(Some(10), 21),
        Err("change exceeds 2x of the prior value")
    );
    assert_eq!(
        within_2x(Some(10), 4),
        Err("change exceeds 2x of the prior value")
    );
    assert!(within_2x(Some(0), 999).is_ok());
    assert_eq!(
        monotone_non_decreasing(&[1, 3, 2]),
        Err("entries must be monotone non-decreasing")
    );
    assert!(monotone_non_decreasing(&[1, 2, 3]).is_ok());
    assert!(check_min_fee("", &Json::Int(10), &empty).is_ok());
    assert!(check_min_fee("", &Json::Int(51), &empty).is_err());
    assert!(check_flip_window("", &Json::Int(600), &empty).is_ok());
    assert!(check_flip_window("", &Json::Int(599), &empty).is_err());

    let mut snap = Snapshot::new();
    snap.insert("fee_discount_bp_by_tier".into(), j(r#"[0, 0, 10, 20, 30]"#));
    snap.insert(
        "rep_tier_thresholds_micro".into(),
        j(r#"[100, 200, 300, 400, 500]"#),
    );
    snap.insert("rep_score_min_pot_micro".into(), Json::Int(100));
    snap.insert("seed_micro_daily".into(), Json::Int(100));
    snap.insert("daily_seed_budget_micro".into(), Json::Int(2000000));
    snap.insert("payout_hold_threshold_micro".into(), Json::Int(2000000));
    snap.insert("sweep_delay_secs".into(), Json::Int(120));
    snap.insert("faucet_per_call_cap_micro".into(), Json::Int(100));

    assert!(check_discounts("", &j(r#"[0, 0, 20, 30, 40]"#), &snap).is_ok());
    assert!(check_discounts("", &j(r#"[0]"#), &snap).is_err());
    assert!(check_discounts("", &j(r#"[0, 0, 10, 20, false]"#), &snap).is_err());
    assert!(check_discounts("", &j(r#"[0, 0, 10, 20, 30]"#), &empty).is_ok());
    assert!(check_discounts("", &j(r#"[0, 0, 21, 30, 40]"#), &snap).is_err());
    assert!(check_discounts("", &j(r#"[0, 20, 10, 30, 40]"#), &empty).is_err());
    assert!(check_discounts("", &j(r#"[0, 0, 10, 20, 101]"#), &empty).is_err());
    assert!(check_position_caps(
        "",
        &j(r#"[ 25000000, 50000000, 100000000, 250000000, 500000000 ]"#),
        &empty,
    )
    .is_ok());
    assert!(check_position_caps(
        "",
        &j(r#"[ 25000000, 50000000, 90000000, 250000000, 500000000 ]"#),
        &empty,
    )
    .is_err());
    assert!(check_tier_thresholds("", &j(r#"[110, 220, 330, 440, 550]"#), &snap).is_ok());
    assert!(check_tier_thresholds("", &j(r#"[1, 2, 3, 4, 5]"#), &empty).is_ok());
    assert!(check_tier_thresholds("", &j(r#"[111, 220, 330, 440, 550]"#), &snap).is_err());
    assert!(check_tier_thresholds("", &j(r#"[2, 1, 3, 4, 5]"#), &empty).is_err());

    assert!(check_min_pot("", &Json::Int(200), &snap).is_ok());
    assert!(check_min_pot("", &Json::Int(201), &snap).is_err());
    assert!(check_min_pot("", &Json::Int(-1), &snap).is_err());
    assert!(check_seed("seed_micro_daily", &Json::Int(200), &snap).is_ok());
    assert!(check_seed("seed_micro_daily", &Json::Int(201), &snap).is_err());
    assert!(check_seed("seed_micro_daily", &Json::Int(0), &snap).is_err());
    assert!(check_seed_budget("", &Json::Int(4000000), &snap).is_ok());
    assert!(check_seed_budget("", &Json::Int(4000001), &snap).is_err());
    assert!(check_seed_budget("", &Json::Int(999999), &snap).is_err());
    assert!(check_hidden_window("", &Json::Int(60), &empty).is_ok());
    assert!(check_hidden_window("", &Json::Int(59), &empty).is_err());
    assert!(check_min_votes_floor("", &Json::Int(3), &empty).is_ok());
    assert!(check_min_votes_floor("", &Json::Int(2), &empty).is_err());
    assert!(check_oi_floor("", &Json::Int(0), &empty).is_ok());
    assert!(check_oi_floor("", &Json::Int(-1), &empty).is_err());
    assert!(check_hold_threshold("", &Json::Int(4000000), &snap).is_ok());
    assert!(check_hold_threshold("", &Json::Int(4000001), &snap).is_err());
    assert!(check_hold_threshold("", &Json::Int(999999), &snap).is_err());
    assert!(check_sweep_delay("", &Json::Int(240), &snap).is_ok());
    assert!(check_sweep_delay("", &Json::Int(241), &snap).is_err());
    assert!(check_max_votes("", &Json::Int(15), &empty).is_ok());
    assert!(check_max_votes("", &Json::Int(14), &empty).is_err());
    assert!(check_vote_window("", &Json::Int(5400), &empty).is_ok());
    assert!(check_vote_window("", &Json::Int(5401), &empty).is_err());
    assert!(
        check_integrity_ppm("integrity_young_share_max_ppm", &Json::Int(400000), &empty,).is_ok()
    );
    assert!(check_integrity_ppm("unknown", &Json::Int(1), &empty).is_err());
    assert!(check_cadence("", &Json::Int(900), &empty).is_ok());
    assert!(check_cadence("", &Json::Int(899), &empty).is_err());
    assert!(check_daily_slots("", &Json::Int(1), &empty).is_ok());
    assert!(check_daily_slots("", &Json::Int(5), &empty).is_err());
    assert!(check_bool("", &Json::Bool(true), &empty).is_ok());
    assert!(check_bool("", &Json::Int(1), &empty).is_err());
    assert!(check_faucet_cap("", &Json::Int(200), &snap).is_ok());
    assert!(check_faucet_cap("", &Json::Int(201), &snap).is_err());
    assert!(check_faucet_cap("", &Json::Int(-1), &snap).is_err());
    assert!(check_remedial_market_cap("", &Json::Int(500000000), &empty).is_ok());
    assert!(check_remedial_market_cap("", &Json::Int(500000001), &empty).is_err());
    assert!(check_remedial_daily_cap("", &Json::Int(2000000000), &empty).is_ok());
    assert!(check_remedial_daily_cap("", &Json::Int(2000000001), &empty).is_err());
    assert!(check_receivable_cap("", &Json::Int(1000000000000), &empty).is_ok());
    assert!(check_receivable_cap("", &Json::Int(1000000000001), &empty).is_err());
    assert!(check_writeoff_item_cap("", &Json::Int(500000000), &empty).is_ok());
    assert!(check_writeoff_item_cap("", &Json::Int(500000001), &empty).is_err());
    assert!(check_writeoff_daily_cap("", &Json::Int(2000000000), &empty).is_ok());
    assert!(check_writeoff_daily_cap("", &Json::Int(2000000001), &empty).is_err());
    assert!(check_proposal_ttl("", &Json::Int(60), &empty).is_ok());
    assert!(check_proposal_ttl("", &Json::Int(59), &empty).is_err());
    assert!(check_dual_delay("", &Json::Int(0), &empty).is_ok());
    assert!(check_dual_delay("", &Json::Int(-1), &empty).is_err());
    assert!(check_bonus_structure("", &j(r#""real_money""#), &empty).is_ok());
    assert!(check_bonus_structure("", &j(r#""nope""#), &empty).is_err());
    assert!(check_region_allowset("", &j(r#"["CA"]"#), &empty).is_ok());
    assert!(check_region_allowset("", &j(r#"[]"#), &empty).is_err());
    assert!(check_fee_override("", &j(r#""inherit""#), &empty).is_ok());
    assert!(check_fee_override("", &j(r#"{"override": 50}"#), &empty).is_ok());
    assert!(check_fee_override("", &j(r#"{"override": 1}"#), &empty).is_err());
    assert!(check_fee_override("", &j(r#"{"override": "50"}"#), &empty).is_err());
    assert!(check_fee_override("", &j(r#"{}"#), &empty).is_err());
    assert!(
        check_fee_override("", &Json::Int(50), &empty).is_err(),
        "an override is a typed inherit|override value; a bare integer is invalid"
    );
    assert!(check_fee_override("", &Json::Int(1), &empty).is_err());
    assert!(check_fee_override("", &j(r#""nope""#), &empty).is_err());
}

#[test]
fn phase7_seed_snapshot_validates_every_key() {
    let mut snap = seed_snapshot();
    snap.extend(phase7_seed_snapshot().members());
    for (key, value) in phase7_seed_snapshot().members() {
        let patch = vec![(key.clone(), value.clone())];
        assert!(
            validate_patch(&snap, &Json::Object(patch)).is_ok(),
            "{key}"
        );
    }
    assert!(
        validate_patch(&snap, &j(r#"{"withdraw_auto_approve_micro": 200000000}"#)).is_err()
    );
    assert!(
        validate_patch(&snap, &j(r#"{"aml_structuring_floor_micro": 600000000}"#)).is_err()
    );
    assert!(role_may_write(AdminRole::Finance, "feature_referrals"));
    assert!(!role_may_write(AdminRole::Ops, "feature_referrals"));
    assert!(check_p7_cross_keys(&phase7_seed_snapshot()).is_ok());
    let empty = Snapshot::new();
    assert!(check_kyc_tier("deposit_kyc_tier", &Json::Int(1), &empty).is_ok());
    assert!(check_kyc_tier("deposit_kyc_tier", &Json::Int(3), &empty).is_err());
    assert!(check_region_version("", &Json::Int(1), &empty).is_ok());
    let mut ver = Snapshot::new();
    ver.insert("region_allowset_version".into(), Json::Int(1));
    assert!(check_region_version("", &Json::Int(2), &ver).is_ok());
    assert!(check_region_version("", &Json::Int(3), &ver).is_err());
    assert!(check_region_version("", &Json::Int(0), &empty).is_err());
    assert!(mul_delta(Some(0), 5_000_000, 4, 5_000_000).is_ok());
    assert!(mul_delta(Some(0), 9_000_000, 4, 5_000_000).is_err());
    assert!(mul_delta(Some(10), 0, 4, 5).is_ok());
    assert!(mul_delta(None, 0, 4, 5).is_ok());
    assert!(check_region_allowset("", &j(r#"[1]"#), &empty).is_err());
    assert!(check_shadow_cap("shadow_trade_cap_micro", &Json::Int(-1), &empty).is_err());
    let mut disabled = phase7_seed_snapshot();
    disabled.insert("withdraw_auto_approve_micro".into(), Json::Int(0));
    assert!(check_p7_cross_keys(&disabled).is_ok());
    disabled.insert("withdraw_dual_control_micro".into(), Json::Int(1));
    assert!(check_p7_cross_keys(&disabled).is_err());
    let mut chain = phase7_seed_snapshot();
    chain.insert("withdraw_auto_approve_micro".into(), Json::Int(60000000));
    chain.insert("withdraw_dual_control_micro".into(), Json::Int(50000000));
    assert!(check_p7_cross_keys(&chain).is_err());
    let mut band = phase7_seed_snapshot();
    band.insert("aml_structuring_floor_micro".into(), Json::Int(0));
    assert!(check_p7_cross_keys(&band).is_err());
    band.insert("aml_structuring_floor_micro".into(), Json::Int(600000000));
    assert!(check_p7_cross_keys(&band).is_err());
}
