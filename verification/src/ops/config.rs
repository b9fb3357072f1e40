//! Validation of configuration patches against the whole prospective snapshot.

use crate::error;
use crate::error::{AppError, Fault};
use crate::json;
use crate::json::{Json, JsonView, Members};
use crate::model;
use crate::model::{ChangeView, ConfigChange};
use crate::ops::catalog;
use crate::ops::checks;
use crate::ops::checks::Refusal;
use crate::ops::snapshot;
use crate::ops::snapshot::{Snapshot, Values};
use vstd::prelude::*;

verus! {

/// The withdrawal limits keep their order: each step of the ladder stays within
/// the next one. An automatic approval of zero is switched off.
pub open spec fn withdrawal_ladder(values: Values) -> Refusal {
    match (
        checks::prior(values, "withdraw_min_micro"@),
        checks::prior(values, "withdraw_auto_approve_micro"@),
        checks::prior(values, "dest_warm_floor_micro"@),
        checks::prior(values, "withdraw_dual_control_micro"@),
        checks::prior(values, "withdraw_max_micro"@),
        checks::prior(values, "dest_daily_limit_micro"@),
        checks::prior(values, "withdraw_daily_limit_micro"@),
        checks::prior(values, "hot_wallet_daily_limit_micro"@),
    ) {
        (
            Some(min),
            Some(auto_limit),
            Some(floor),
            Some(dual),
            Some(max),
            Some(dest),
            Some(daily),
            Some(hot),
        ) => if auto_limit == 0 {
            if min <= dual <= max <= dest <= daily <= hot {
                None
            } else {
                Some("dual <= max <= dest_daily <= daily <= hot_wallet"@)
            }
        } else if !(min <= auto_limit < floor) {
            Some("min <= auto < dest_warm_floor"@)
        } else if !(auto_limit <= dual <= max <= dest <= daily <= hot) {
            Some("auto <= dual <= max <= dest_daily <= daily <= hot_wallet"@)
        } else {
            None
        },
        _ => None,
    }
}

/// The structuring floor is positive and below its threshold.
pub open spec fn structuring_band(values: Values) -> Refusal {
    match (
        checks::prior(values, "aml_structuring_floor_micro"@),
        checks::prior(values, "aml_structuring_threshold_micro"@),
    ) {
        (Some(floor), Some(threshold)) => if 0 < floor < threshold {
            None
        } else {
            Some("0 < aml_structuring_floor < threshold"@)
        },
        _ => None,
    }
}

/// The rules that tie several keys together.
pub open spec fn cross_keys_refusal(values: Values) -> Refusal {
    checks::first_of(withdrawal_ladder(values), structuring_band(values))
}

fn int_at(snap: &Snapshot, key: &str) -> (r: Option<i64>)
    ensures
        checks::number(r) == checks::prior(snap@, key@),
{
    match snap.get(key) {
        Some(v) => v.as_i64(),
        None => None,
    }
}

/// Holds a whole snapshot to the rules that tie several keys together.
///
/// # Errors
///
/// The rule that is broken.
pub fn check_p7_cross_keys(snap: &Snapshot) -> (r: Result<(), &'static str>)
    ensures
        checks::refusal(r) == cross_keys_refusal(snap@),
{
    match (
        int_at(snap, "withdraw_min_micro"),
        int_at(snap, "withdraw_auto_approve_micro"),
        int_at(snap, "dest_warm_floor_micro"),
        int_at(snap, "withdraw_dual_control_micro"),
        int_at(snap, "withdraw_max_micro"),
        int_at(snap, "dest_daily_limit_micro"),
        int_at(snap, "withdraw_daily_limit_micro"),
        int_at(snap, "hot_wallet_daily_limit_micro"),
    ) {
        (
            Some(min),
            Some(auto_limit),
            Some(floor),
            Some(dual),
            Some(max),
            Some(dest),
            Some(daily),
            Some(hot),
        ) => {
            if auto_limit == 0 {
                if !(min <= dual && dual <= max && max <= dest && dest <= daily && daily <= hot) {
                    return Err("dual <= max <= dest_daily <= daily <= hot_wallet");
                }
            } else if !(min <= auto_limit && auto_limit < floor) {
                return Err("min <= auto < dest_warm_floor");
            } else if !(auto_limit <= dual && dual <= max && max <= dest && dest <= daily && daily
                <= hot) {
                return Err("auto <= dual <= max <= dest_daily <= daily <= hot_wallet");
            }
        },
        _ => {},
    }
    match (
        int_at(snap, "aml_structuring_floor_micro"),
        int_at(snap, "aml_structuring_threshold_micro"),
    ) {
        (Some(floor), Some(threshold)) => {
            if !(0 < floor && floor < threshold) {
                return Err("0 < aml_structuring_floor < threshold");
            }
        },
        _ => {},
    }
    Ok(())
}

/// The published seeds of the money catalog. The region list has none.
pub open spec fn money_seeds() -> Members {
    seq![
        ("deposit_kyc_tier"@, JsonView::Int(1)),
        ("withdraw_kyc_tier"@, JsonView::Int(2)),
        ("withdraw_min_micro"@, JsonView::Int(5_000_000)),
        ("withdraw_max_micro"@, JsonView::Int(1_000_000_000)),
        ("withdraw_daily_limit_micro"@, JsonView::Int(2_000_000_000)),
        ("withdraw_auto_approve_micro"@, JsonView::Int(50_000_000)),
        ("withdraw_dual_control_micro"@, JsonView::Int(500_000_000)),
        ("dest_warm_floor_micro"@, JsonView::Int(100_000_000)),
        ("dest_warm_age_hours"@, JsonView::Int(72)),
        ("dest_daily_limit_micro"@, JsonView::Int(1_000_000_000)),
        ("hot_wallet_daily_limit_micro"@, JsonView::Int(10_000_000_000)),
        ("deposit_confirmations"@, JsonView::Int(32)),
        ("pause_deposits"@, JsonView::Bool(false)),
        ("pause_withdrawals"@, JsonView::Bool(false)),
        ("credit_signup_micro"@, JsonView::Int(5_000_000)),
        ("credit_referral_referrer_micro"@, JsonView::Int(5_000_000)),
        ("credit_referral_referee_micro"@, JsonView::Int(5_000_000)),
        ("referral_min_notional_micro"@, JsonView::Int(10_000_000)),
        ("bonus_mint_daily_cap_micro"@, JsonView::Int(500_000_000)),
        ("bonus_structure"@, JsonView::Text("real_money"@)),
        ("aml_deposit_velocity_micro_24h"@, JsonView::Int(5_000_000_000)),
        ("aml_withdraw_velocity_micro_24h"@, JsonView::Int(5_000_000_000)),
        ("aml_structuring_n"@, JsonView::Int(4)),
        ("aml_structuring_window_hours"@, JsonView::Int(24)),
        ("aml_structuring_threshold_micro"@, JsonView::Int(500_000_000)),
        ("aml_structuring_floor_micro"@, JsonView::Int(100_000_000)),
        ("shadow_trade_cap_micro"@, JsonView::Int(25_000_000)),
        ("shadow_deposit_cap_micro"@, JsonView::Int(25_000_000)),
        ("stuck_send_sla_secs"@, JsonView::Int(900)),
        ("stuck_screening_sla_secs"@, JsonView::Int(3_600)),
        ("region_allowset_version"@, JsonView::Int(1)),
        ("withdraw_approve_daily_cap_micro"@, JsonView::Int(5_000_000_000)),
        ("bonus_reserve_topup_daily_cap_micro"@, JsonView::Int(1_000_000_000)),
    ]
}

proof fn lemma_overlay_on_nothing(members: Members)
    ensures
        snapshot::overlay(Map::empty(), members) == json::to_map(members),
    decreases members.len(),
{
    if members.len() > 0 {
        lemma_overlay_on_nothing(members.drop_last());
    }
}

/// Published seed of the money catalog. `region_allowset` is absent.
#[must_use]
pub fn phase7_seed_snapshot() -> (r: Snapshot)
    ensures
        r@ == json::to_map(money_seeds()),
{
    let members: Vec<(String, Json)> = vec![
        json::member("deposit_kyc_tier", Json::Int(1)),
        json::member("withdraw_kyc_tier", Json::Int(2)),
        json::member("withdraw_min_micro", Json::Int(5_000_000)),
        json::member("withdraw_max_micro", Json::Int(1_000_000_000)),
        json::member("withdraw_daily_limit_micro", Json::Int(2_000_000_000)),
        json::member("withdraw_auto_approve_micro", Json::Int(50_000_000)),
        json::member("withdraw_dual_control_micro", Json::Int(500_000_000)),
        json::member("dest_warm_floor_micro", Json::Int(100_000_000)),
        json::member("dest_warm_age_hours", Json::Int(72)),
        json::member("dest_daily_limit_micro", Json::Int(1_000_000_000)),
        json::member("hot_wallet_daily_limit_micro", Json::Int(10_000_000_000)),
        json::member("deposit_confirmations", Json::Int(32)),
        json::member("pause_deposits", Json::Bool(false)),
        json::member("pause_withdrawals", Json::Bool(false)),
        json::member("credit_signup_micro", Json::Int(5_000_000)),
        json::member("credit_referral_referrer_micro", Json::Int(5_000_000)),
        json::member("credit_referral_referee_micro", Json::Int(5_000_000)),
        json::member("referral_min_notional_micro", Json::Int(10_000_000)),
        json::member("bonus_mint_daily_cap_micro", Json::Int(500_000_000)),
        json::member("bonus_structure", Json::text("real_money")),
        json::member("aml_deposit_velocity_micro_24h", Json::Int(5_000_000_000)),
        json::member("aml_withdraw_velocity_micro_24h", Json::Int(5_000_000_000)),
        json::member("aml_structuring_n", Json::Int(4)),
        json::member("aml_structuring_window_hours", Json::Int(24)),
        json::member("aml_structuring_threshold_micro", Json::Int(500_000_000)),
        json::member("aml_structuring_floor_micro", Json::Int(100_000_000)),
        json::member("shadow_trade_cap_micro", Json::Int(25_000_000)),
        json::member("shadow_deposit_cap_micro", Json::Int(25_000_000)),
        json::member("stuck_send_sla_secs", Json::Int(900)),
        json::member("stuck_screening_sla_secs", Json::Int(3_600)),
        json::member("region_allowset_version", Json::Int(1)),
        json::member("withdraw_approve_daily_cap_micro", Json::Int(5_000_000_000)),
        json::member("bonus_reserve_topup_daily_cap_micro", Json::Int(1_000_000_000)),
    ];
    let mut snap = Snapshot::new();
    snap.extend(members.as_slice());
    proof {
        assert(json::members_view(members@) =~= money_seeds());
        lemma_overlay_on_nothing(money_seeds());
    }
    snap
}

/// What a rule sees of the other keys while one key is checked: the prospective
/// snapshot, with the key's own current value in place of its new one.
pub open spec fn delta_view(current: Values, prospective: Values, key: Seq<char>) -> Values {
    if current.dom().contains(key) {
        prospective.insert(key, current[key])
    } else {
        prospective.remove(key)
    }
}

/// Why one key's new value is refused, if it is.
pub open spec fn member_fault(
    current: Values,
    prospective: Values,
    key: Seq<char>,
    value: JsonView,
) -> Option<Fault> {
    match catalog::rule_of(key) {
        None => Some(Fault::ConfigInvalid { key, reason: "unknown config key"@ }),
        Some(rule) => match checks::check_refusal(
            rule.check,
            key,
            value,
            delta_view(current, prospective, key),
        ) {
            Some(reason) => Some(Fault::ConfigInvalid { key, reason }),
            None => None,
        },
    }
}

/// The fault of the first of some members that has one.
pub open spec fn first_member_fault(
    current: Values,
    prospective: Values,
    members: Members,
) -> Option<Fault>
    decreases members.len(),
{
    if members.len() == 0 {
        None
    } else {
        match first_member_fault(current, prospective, members.drop_last()) {
            Some(f) => Some(f),
            None => member_fault(current, prospective, members.last().0, members.last().1),
        }
    }
}

/// Why a patch is refused, if it is. Every key is checked against the whole
/// snapshot as the patch would leave it.
pub open spec fn patch_fault(current: Values, patch: JsonView) -> Option<Fault> {
    match json::canon(patch) {
        JsonView::Object(members) => if members.len() == 0 {
            Some(Fault::ConfigInvalid { key: "patch"@, reason: "patch must not be empty"@ })
        } else {
            let prospective = snapshot::overlay(current, members);
            match first_member_fault(current, prospective, members) {
                Some(f) => Some(f),
                None => match cross_keys_refusal(prospective) {
                    Some(reason) => Some(Fault::ConfigInvalid { key: "cross_key"@, reason }),
                    None => None,
                },
            }
        },
        _ => Some(Fault::ConfigInvalid { key: "patch"@, reason: "patch must be a JSON object"@ }),
    }
}

/// The key already has this value.
pub open spec fn already_set(current: Values, key: Seq<char>, value: JsonView) -> bool {
    match snapshot::value_at(current, key) {
        Some(was) => json::same_content(was, value),
        None => false,
    }
}

/// The change rows of a patch: one for each key that it changes, in order.
pub open spec fn patch_changes(current: Values, members: Members) -> Seq<ChangeView>
    decreases members.len(),
{
    if members.len() == 0 {
        Seq::empty()
    } else {
        let before = patch_changes(current, members.drop_last());
        let key = members.last().0;
        let value = members.last().1;
        if already_set(current, key, value) {
            before
        } else {
            before.push(
                ChangeView { key, old: snapshot::value_at(current, key), new: value },
            )
        }
    }
}

/// The members of a patch in its canonical form: in ascending order of keys,
/// each key once.
pub open spec fn patch_members(patch: JsonView) -> Members {
    match json::canon(patch) {
        JsonView::Object(members) => members,
        _ => Seq::empty(),
    }
}

/// A patch that sets only what is already set changes nothing.
pub proof fn law_noop_patch_changes_nothing(current: Values, members: Members)
    requires
        forall|i: int|
            0 <= i < members.len() ==> already_set(
                current,
                (#[trigger] members[i]).0,
                members[i].1,
            ),
    ensures
        patch_changes(current, members) == Seq::<ChangeView>::empty(),
    decreases members.len(),
{
    if members.len() > 0 {
        let head = members.drop_last();
        assert(members.last() == members[members.len() - 1]);
        assert forall|i: int| 0 <= i < head.len() implies already_set(
            current,
            (#[trigger] head[i]).0,
            head[i].1,
        ) by {
            assert(head[i] == members[i]);
        }
        law_noop_patch_changes_nothing(current, head);
    }
}

/// Patches that say the same are refused alike and change the same, whatever
/// order their members are listed in.
pub proof fn law_same_patch_same_changes(current: Values, a: JsonView, b: JsonView)
    requires
        json::same_content(a, b),
    ensures
        patch_fault(current, a) == patch_fault(current, b),
        patch_changes(current, patch_members(a)) == patch_changes(current, patch_members(b)),
{
}

/// An accepted patch names known keys only, each value obeys the rule of its
/// key, and the snapshot that it leaves obeys the rules across keys.
pub proof fn law_accepted_patch_obeys_every_rule(current: Values, patch: JsonView, i: int)
    requires
        patch_fault(current, patch) is None,
        0 <= i < patch_members(patch).len(),
    ensures
        ({
            let members = patch_members(patch);
            let left = snapshot::overlay(current, members);
            &&& catalog::rule_of(members[i].0) matches Some(rule) && checks::check_refusal(
                rule.check,
                members[i].0,
                members[i].1,
                delta_view(current, left, members[i].0),
            ) is None
            &&& cross_keys_refusal(left) is None
        }),
{
    let members = patch_members(patch);
    lemma_no_member_fault(current, snapshot::overlay(current, members), members, i);
}

proof fn lemma_no_member_fault(current: Values, prospective: Values, members: Members, i: int)
    requires
        first_member_fault(current, prospective, members) is None,
        0 <= i < members.len(),
    ensures
        member_fault(current, prospective, members[i].0, members[i].1) is None,
    decreases members.len(),
{
    if i < members.len() - 1 {
        lemma_no_member_fault(current, prospective, members.drop_last(), i);
    }
}

proof fn lemma_fault_persists(current: Values, prospective: Values, members: Members, n: int)
    requires
        0 <= n <= members.len(),
        first_member_fault(current, prospective, members.take(n)) is Some,
    ensures
        first_member_fault(current, prospective, members) == first_member_fault(
            current,
            prospective,
            members.take(n),
        ),
    decreases members.len(),
{
    if n == members.len() {
        assert(members.take(n) =~= members);
    } else {
        let head = members.drop_last();
        assert(head.take(n) =~= members.take(n));
        lemma_fault_persists(current, prospective, head, n);
    }
}

/// Validates a patch against the prospective whole snapshot: unknown keys, type
/// errors, bounds, monotonicity and per-apply limits are all refusals that name
/// the key. Returns the per-key change rows, in ascending order of keys; values
/// that are already set make none.
///
/// # Errors
///
/// [`AppError::ConfigInvalid`] naming the offending key.
pub fn validate_patch(current: &Snapshot, patch: &Json) -> (r: Result<Vec<ConfigChange>, AppError>)
    ensures
        match patch_fault(current@, patch@) {
            Some(f) => error::failed(r, f),
            None => r matches Ok(changes) && model::changes_view(changes@) == patch_changes(
                current@,
                patch_members(patch@),
            ),
        },
{
    let sorted = json::canonical(patch);
    let members = match sorted.as_object() {
        Some(members) => members,
        None => return Err(
            AppError::ConfigInvalid {
                key: "patch".to_owned(),
                reason: "patch must be a JSON object",
            },
        ),
    };
    if members.len() == 0 {
        return Err(
            AppError::ConfigInvalid { key: "patch".to_owned(), reason: "patch must not be empty" },
        );
    }
    let ghost all = json::members_view(members@);
    let mut prospective = current.clone();
    prospective.extend(members.as_slice());
    let mut changes: Vec<ConfigChange> = Vec::new();
    let mut i: usize = 0;
    assert(model::changes_view(changes@) =~= patch_changes(current@, all.take(0)));
    while i < members.len()
        invariant
            i <= members@.len(),
            0 < members@.len(),
            all == json::members_view(members@),
            json::canon(patch@) == JsonView::Object(all),
            prospective@ == snapshot::overlay(current@, all),
            first_member_fault(current@, prospective@, all.take(i as int)) is None,
            model::changes_view(changes@) == patch_changes(current@, all.take(i as int)),
        decreases members.len() - i,
    {
        let key = &members[i].0;
        let value = &members[i].1;
        proof {
            assert(all.take(i + 1).drop_last() =~= all.take(i as int));
            assert(all.take(i + 1).last() == all[i as int]);
        }
        let rule = match catalog::rule_for(key.as_str()) {
            Some(rule) => rule,
            None => {
                proof {
                    lemma_fault_persists(current@, prospective@, all, i + 1);
                }
                return Err(
                    AppError::ConfigInvalid { key: key.clone(), reason: "unknown config key" },
                );
            },
        };
        let mut seen = prospective.clone();
        match current.get(key.as_str()) {
            Some(was) => {
                seen.insert(key.clone(), was.clone());
            },
            None => {
                seen.remove(key.as_str());
            },
        }
        assert(seen@ == delta_view(current@, prospective@, key@));
        match rule.check.run(key.as_str(), value, &seen) {
            Ok(()) => {},
            Err(reason) => {
                proof {
                    lemma_fault_persists(current@, prospective@, all, i + 1);
                }
                return Err(AppError::ConfigInvalid { key: key.clone(), reason });
            },
        }
        let ghost rows = model::changes_view(changes@);
        match current.get(key.as_str()) {
            Some(was) => {
                if !json::same_json(was, value) {
                    let change = ConfigChange {
                        key: key.clone(),
                        old: Some(was.clone()),
                        new: value.clone(),
                    };
                    let ghost said = change@;
                    changes.push(change);
                    assert(model::changes_view(changes@) =~= rows.push(said));
                }
            },
            None => {
                let change = ConfigChange { key: key.clone(), old: None, new: value.clone() };
                let ghost said = change@;
                changes.push(change);
                assert(model::changes_view(changes@) =~= rows.push(said));
            },
        }
        i += 1;
    }
    assert(all.take(i as int) =~= all);
    match check_p7_cross_keys(&prospective) {
        Ok(()) => Ok(changes),
        Err(reason) => Err(AppError::ConfigInvalid { key: "cross_key".to_owned(), reason }),
    }
}

/// The withdrawal limits form a ladder: each step lies within the next one. An
/// automatic approval of nothing is switched off and takes no part; any other
/// lies between the least withdrawal and the floor of warm destinations.
pub proof fn law_withdrawal_limits_form_a_ladder(
    values: Values,
    min: int,
    auto_limit: int,
    floor: int,
    dual: int,
    max: int,
    dest: int,
    daily: int,
    hot: int,
)
    requires
        snapshot::value_at(values, "withdraw_min_micro"@) == Some(JsonView::Int(min)),
        snapshot::value_at(values, "withdraw_auto_approve_micro"@) == Some(
            JsonView::Int(auto_limit),
        ),
        snapshot::value_at(values, "dest_warm_floor_micro"@) == Some(JsonView::Int(floor)),
        snapshot::value_at(values, "withdraw_dual_control_micro"@) == Some(JsonView::Int(dual)),
        snapshot::value_at(values, "withdraw_max_micro"@) == Some(JsonView::Int(max)),
        snapshot::value_at(values, "dest_daily_limit_micro"@) == Some(JsonView::Int(dest)),
        snapshot::value_at(values, "withdraw_daily_limit_micro"@) == Some(JsonView::Int(daily)),
        snapshot::value_at(values, "hot_wallet_daily_limit_micro"@) == Some(JsonView::Int(hot)),
        snapshot::value_at(values, "aml_structuring_floor_micro"@) is None,
    ensures
        auto_limit == 0 ==> (cross_keys_refusal(values) is None <==> min <= dual <= max <= dest
            <= daily <= hot),
        auto_limit != 0 ==> (cross_keys_refusal(values) is None <==> min <= auto_limit && auto_limit
            < floor && auto_limit <= dual && dual <= max <= dest <= daily <= hot),
{
}

/// The structuring floor is positive and lies below its threshold, also where no
/// withdrawal limit is set.
pub proof fn law_structuring_floor_lies_below_its_threshold(
    values: Values,
    floor: int,
    threshold: int,
)
    requires
        snapshot::value_at(values, "aml_structuring_floor_micro"@) == Some(JsonView::Int(floor)),
        snapshot::value_at(values, "aml_structuring_threshold_micro"@) == Some(
            JsonView::Int(threshold),
        ),
    ensures
        cross_keys_refusal(values) is None ==> 0 < floor < threshold,
        snapshot::value_at(values, "withdraw_min_micro"@) is None ==> (cross_keys_refusal(
            values,
        ) is None <==> 0 < floor < threshold),
{
}

/// A key's new value is checked against its own current one and against what the
/// patch leaves under every other key.
pub proof fn law_keys_are_checked_against_the_patched_others(
    current: Values,
    prospective: Values,
    key: Seq<char>,
    other: Seq<char>,
)
    ensures
        snapshot::value_at(delta_view(current, prospective, key), key) == snapshot::value_at(
            current,
            key,
        ),
        other != key ==> snapshot::value_at(delta_view(current, prospective, key), other)
            == snapshot::value_at(prospective, other),
{
}

/// What a patch leaves: its last value for each of its keys, and every other key
/// as it was.
pub proof fn law_patches_replace_their_keys_alone(
    values: Values,
    members: Members,
    key: Seq<char>,
    value: JsonView,
    other: Seq<char>,
)
    ensures
        snapshot::value_at(snapshot::overlay(values, members.push((key, value))), key) == Some(
            value,
        ),
        other != key ==> snapshot::value_at(
            snapshot::overlay(values, members.push((key, value))),
            other,
        ) == snapshot::value_at(snapshot::overlay(values, members), other),
        snapshot::value_at(snapshot::overlay(values, Seq::empty()), other) == snapshot::value_at(
            values,
            other,
        ),
{
    assert(members.push((key, value)).drop_last() =~= members);
}

proof fn lemma_clean_members(current: Values, prospective: Values, members: Members)
    ensures
        first_member_fault(current, prospective, members) is None <==> forall|i: int|
            0 <= i < members.len() ==> member_fault(
                current,
                prospective,
                (#[trigger] members[i]).0,
                members[i].1,
            ) is None,
    decreases members.len(),
{
    if members.len() > 0 {
        let head = members.drop_last();
        lemma_clean_members(current, prospective, head);
        assert(members.last() == members[members.len() - 1]);
        if first_member_fault(current, prospective, head) is None {
            assert forall|i: int| 0 <= i < members.len() - 1 implies member_fault(
                current,
                prospective,
                (#[trigger] members[i]).0,
                members[i].1,
            ) is None by {
                assert(head[i] == members[i]);
            }
        } else {
            let i = choose|i: int|
                0 <= i < head.len() && member_fault(
                    current,
                    prospective,
                    (#[trigger] head[i]).0,
                    head[i].1,
                ) is Some;
            assert(members[i] == head[i]);
        }
    }
}

/// A patch is accepted exactly where it sets something, every key that it sets is
/// known and obeys its rule, and what it leaves obeys the rules that tie keys
/// together.
pub proof fn law_which_patches_are_accepted(current: Values, patch: JsonView)
    ensures
        json::canon(patch) matches JsonView::Object(members) ==> (patch_fault(
            current,
            patch,
        ) is None <==> members.len() > 0 && (forall|i: int|
            0 <= i < members.len() ==> (catalog::rule_of(
                (#[trigger] members[i]).0,
            ) matches Some(rule) && checks::check_refusal(
                rule.check,
                members[i].0,
                members[i].1,
                delta_view(current, snapshot::overlay(current, members), members[i].0),
            ) is None)) && cross_keys_refusal(snapshot::overlay(current, members)) is None),
        json::canon(patch) !is Object ==> patch_fault(current, patch) is Some,
{
    if let JsonView::Object(members) = json::canon(patch) {
        let after = snapshot::overlay(current, members);
        lemma_clean_members(current, after, members);
        if patch_fault(current, patch) is None {
            assert forall|i: int| 0 <= i < members.len() implies (catalog::rule_of(
                (#[trigger] members[i]).0,
            ) matches Some(rule) && checks::check_refusal(
                rule.check,
                members[i].0,
                members[i].1,
                delta_view(current, after, members[i].0),
            ) is None) by {
                assert(member_fault(current, after, members[i].0, members[i].1) is None);
            }
        } else if members.len() > 0 && cross_keys_refusal(after) is None {
            let i = choose|i: int|
                0 <= i < members.len() && member_fault(
                    current,
                    after,
                    (#[trigger] members[i]).0,
                    members[i].1,
                ) is Some;
            assert(members[i].0 == members[i].0);
        }
    }
}

/// A key that already has its value changes nothing; every other one is a change
/// from what it had, if it had anything, to its new value.
pub proof fn law_changes_go_from_the_old_to_the_new(
    current: Values,
    members: Members,
    key: Seq<char>,
    value: JsonView,
)
    ensures
        (snapshot::value_at(current, key) matches Some(was) && json::same_content(was, value))
            ==> patch_changes(current, members.push((key, value))) == patch_changes(
            current,
            members,
        ),
        !(snapshot::value_at(current, key) matches Some(was) && json::same_content(was, value))
            ==> patch_changes(current, members.push((key, value))) == patch_changes(
            current,
            members,
        ).push(ChangeView { key, old: snapshot::value_at(current, key), new: value }),
        patch_changes(current, Seq::empty()) == Seq::<ChangeView>::empty(),
{
    assert(members.push((key, value)).drop_last() =~= members);
}

/// The published seeds of the money catalog, one by one.
pub proof fn law_published_money_seeds()
    ensures
        money_seeds().len() == 33,
        money_seeds()[0] == ("deposit_kyc_tier"@, JsonView::Int(1)),
        money_seeds()[1] == ("withdraw_kyc_tier"@, JsonView::Int(2)),
        money_seeds()[2] == ("withdraw_min_micro"@, JsonView::Int(5_000_000)),
        money_seeds()[3] == ("withdraw_max_micro"@, JsonView::Int(1_000_000_000)),
        money_seeds()[4] == ("withdraw_daily_limit_micro"@, JsonView::Int(2_000_000_000)),
        money_seeds()[5] == ("withdraw_auto_approve_micro"@, JsonView::Int(50_000_000)),
        money_seeds()[6] == ("withdraw_dual_control_micro"@, JsonView::Int(500_000_000)),
        money_seeds()[7] == ("dest_warm_floor_micro"@, JsonView::Int(100_000_000)),
        money_seeds()[8] == ("dest_warm_age_hours"@, JsonView::Int(72)),
        money_seeds()[9] == ("dest_daily_limit_micro"@, JsonView::Int(1_000_000_000)),
        money_seeds()[10] == ("hot_wallet_daily_limit_micro"@, JsonView::Int(10_000_000_000)),
        money_seeds()[11] == ("deposit_confirmations"@, JsonView::Int(32)),
        money_seeds()[12] == ("pause_deposits"@, JsonView::Bool(false)),
        money_seeds()[13] == ("pause_withdrawals"@, JsonView::Bool(false)),
        money_seeds()[14] == ("credit_signup_micro"@, JsonView::Int(5_000_000)),
        money_seeds()[15] == ("credit_referral_referrer_micro"@, JsonView::Int(5_000_000)),
        money_seeds()[16] == ("credit_referral_referee_micro"@, JsonView::Int(5_000_000)),
        money_seeds()[17] == ("referral_min_notional_micro"@, JsonView::Int(10_000_000)),
        money_seeds()[18] == ("bonus_mint_daily_cap_micro"@, JsonView::Int(500_000_000)),
        money_seeds()[19] == ("bonus_structure"@, JsonView::Text("real_money"@)),
        money_seeds()[20] == ("aml_deposit_velocity_micro_24h"@, JsonView::Int(5_000_000_000)),
        money_seeds()[21] == ("aml_withdraw_velocity_micro_24h"@, JsonView::Int(5_000_000_000)),
        money_seeds()[22] == ("aml_structuring_n"@, JsonView::Int(4)),
        money_seeds()[23] == ("aml_structuring_window_hours"@, JsonView::Int(24)),
        money_seeds()[24] == ("aml_structuring_threshold_micro"@, JsonView::Int(500_000_000)),
        money_seeds()[25] == ("aml_structuring_floor_micro"@, JsonView::Int(100_000_000)),
        money_seeds()[26] == ("shadow_trade_cap_micro"@, JsonView::Int(25_000_000)),
        money_seeds()[27] == ("shadow_deposit_cap_micro"@, JsonView::Int(25_000_000)),
        money_seeds()[28] == ("stuck_send_sla_secs"@, JsonView::Int(900)),
        money_seeds()[29] == ("stuck_screening_sla_secs"@, JsonView::Int(3_600)),
        money_seeds()[30] == ("region_allowset_version"@, JsonView::Int(1)),
        money_seeds()[31] == ("withdraw_approve_daily_cap_micro"@, JsonView::Int(5_000_000_000)),
        money_seeds()[32] == ("bonus_reserve_topup_daily_cap_micro"@, JsonView::Int(1_000_000_000)),
{
}

} // verus!
