//! The rules that single configuration values obey: types, bounds, monotone
//! vectors and limits on how far one apply may move a value.

use crate::json;
use crate::json::{Json, JsonView};
use crate::ops::snapshot;
use crate::ops::snapshot::{Snapshot, Values};
use crate::text;
use vstd::prelude::*;

verus! {

/// Published tier caps: live floors for cap raises.
pub const PUBLISHED_POSITION_CAPS: [i64; 5] = [
    25_000_000,
    50_000_000,
    100_000_000,
    250_000_000,
    500_000_000,
];

/// Which rule a key's values obey.
#[derive(Debug, Clone, Copy, PartialEq, Eq, Structural)]
pub enum Check {
    TradeFee,
    MinFee,
    FlipWindow,
    Discounts,
    PositionCaps,
    TierThresholds,
    MinPot,
    Seed,
    SeedBudget,
    HiddenWindow,
    MinVotesFloor,
    OiFloor,
    HoldThreshold,
    SweepDelay,
    MaxVotes,
    VoteWindow,
    IntegrityPpm,
    Cadence,
    DailySlots,
    Bool,
    FaucetCap,
    RemedialMarketCap,
    RemedialDailyCap,
    ReceivableCap,
    WriteoffItemCap,
    WriteoffDailyCap,
    ProposalTtl,
    DualDelay,
    KycTier,
    WithdrawMin,
    WithdrawMax,
    WithdrawDaily,
    AutoApprove,
    DualControl,
    WarmFloor,
    WarmAge,
    DestDaily,
    HotWallet,
    Confirmations,
    CreditGrant,
    ReferralMin,
    BonusMint,
    BonusStructure,
    AmlVelocity,
    StructuringN,
    StructuringWindow,
    StructuringThreshold,
    StructuringFloor,
    ShadowCap,
    StuckSla,
    RegionAllowset,
    RegionVersion,
    ApproveDaily,
    ReserveTopup,
    FeeOverride,
}

/// Why a value is refused, if it is.
pub type Refusal = Option<Seq<char>>;

/// The refusal that a check reports.
pub open spec fn refusal(r: Result<(), &'static str>) -> Refusal {
    match r {
        Ok(_) => None,
        Err(reason) => Some(reason@),
    }
}

/// The first of two refusals.
pub open spec fn first_of(a: Refusal, b: Refusal) -> Refusal {
    match a {
        Some(_) => a,
        None => b,
    }
}

/// The integer now under `key`.
pub open spec fn prior(values: Values, key: Seq<char>) -> Option<int> {
    match snapshot::value_at(values, key) {
        Some(v) => json::int_of(v),
        None => None,
    }
}

/// Within the closed bounds.
pub open spec fn bounds_refusal(n: int, lo: int, hi: int) -> Refusal {
    if n < lo || n > hi {
        Some("out of bounds"@)
    } else {
        None
    }
}

/// The distance between two numbers.
pub open spec fn gap(a: int, b: int) -> int {
    if a < b {
        b - a
    } else {
        a - b
    }
}

/// At most `delta` away from the prior value.
pub open spec fn delta_refusal(prior: Option<int>, n: int, delta: int) -> Refusal {
    match prior {
        Some(p) => if gap(n, p) > delta {
            Some("delta exceeds the per-apply limit"@)
        } else {
            None
        },
        None => None,
    }
}

/// At most twice and at least half of a positive prior value.
pub open spec fn twice_refusal(prior: Option<int>, n: int) -> Refusal {
    match prior {
        Some(p) => if p > 0 && (n > 2 * p || n < p / 2) {
            Some("change exceeds 2x of the prior value"@)
        } else {
            None
        },
        None => None,
    }
}

/// Switching off is free; switching on again goes at most to the seed; every
/// other change of a positive value stays within a factor.
pub open spec fn factor_refusal(prior: Option<int>, n: int, factor: int, seed: int) -> Refusal {
    if n == 0 {
        None
    } else {
        match prior {
            Some(p) => if p == 0 {
                if n > seed {
                    Some("re-enable exceeds the seed baseline"@)
                } else {
                    None
                }
            } else if p > 0 && (n > p * factor || (factor > 1 && n < p / factor)) {
                Some("change exceeds the multiplicative per-apply limit"@)
            } else {
                None
            },
            None => None,
        }
    }
}

/// An integer within bounds.
pub open spec fn range_rule(v: JsonView, lo: int, hi: int) -> Refusal {
    match json::int_of(v) {
        None => Some("expected an integer"@),
        Some(n) => bounds_refusal(n, lo, hi),
    }
}

/// An integer within bounds, near its prior value.
pub open spec fn range_delta_rule(
    v: JsonView,
    prior: Option<int>,
    lo: int,
    hi: int,
    delta: int,
) -> Refusal {
    match json::int_of(v) {
        None => Some("expected an integer"@),
        Some(n) => first_of(bounds_refusal(n, lo, hi), delta_refusal(prior, n, delta)),
    }
}

/// An integer within bounds, within twice and half of its prior value.
pub open spec fn range_twice_rule(v: JsonView, prior: Option<int>, lo: int, hi: int) -> Refusal {
    match json::int_of(v) {
        None => Some("expected an integer"@),
        Some(n) => first_of(bounds_refusal(n, lo, hi), twice_refusal(prior, n)),
    }
}

/// An integer within bounds, within a factor of its prior value.
pub open spec fn range_factor_rule(
    v: JsonView,
    prior: Option<int>,
    lo: int,
    hi: int,
    factor: int,
    seed: int,
) -> Refusal {
    match json::int_of(v) {
        None => Some("expected an integer"@),
        Some(n) => first_of(bounds_refusal(n, lo, hi), factor_refusal(prior, n, factor, seed)),
    }
}

/// Every item is an integer.
pub open spec fn all_ints(items: Seq<JsonView>) -> bool {
    forall|i: int| 0 <= i < items.len() ==> json::int_of(#[trigger] items[i]) is Some
}

/// The integers of a list of them.
pub open spec fn ints(items: Seq<JsonView>) -> Seq<int> {
    Seq::new(items.len(), |i: int| json::int_of(items[i]).unwrap())
}

/// A list of exactly `n` integers, or why a document is none.
pub open spec fn int_list(v: JsonView, n: int) -> Result<Seq<int>, Seq<char>> {
    match v {
        JsonView::Array(items) => if items.len() != n {
            Err("wrong array length"@)
        } else if !all_ints(items) {
            Err("expected integer entries"@)
        } else {
            Ok(ints(items))
        },
        _ => Err("expected an array"@),
    }
}

/// The list of five integers now under `key`.
pub open spec fn prior_list(values: Values, key: Seq<char>) -> Option<Seq<int>> {
    match snapshot::value_at(values, key) {
        Some(v) => match int_list(v, 5) {
            Ok(list) => Some(list),
            Err(_) => None,
        },
        None => None,
    }
}

/// No entry is smaller than the one before it.
pub open spec fn non_decreasing(list: Seq<int>) -> bool {
    forall|i: int| 0 < i < list.len() ==> list[i - 1] <= #[trigger] list[i]
}

/// Entries never fall.
pub open spec fn monotone_refusal(list: Seq<int>) -> Refusal {
    if non_decreasing(list) {
        None
    } else {
        Some("entries must be monotone non-decreasing"@)
    }
}

/// The discounts: each within the prospective fee, non-decreasing, and at most
/// ten basis points away from what it was.
pub open spec fn discounts_rule(v: JsonView, values: Values) -> Refusal {
    let base = match prior(values, "trade_fee_bps"@) {
        Some(n) => n,
        None => 100,
    };
    match int_list(v, 5) {
        Err(e) => Some(e),
        Ok(list) => if exists|i: int|
            0 <= i < 5 && ((#[trigger] list[i]) < 0 || list[i] > base) {
            Some("out of bounds"@)
        } else if !non_decreasing(list) {
            monotone_refusal(list)
        } else {
            match prior_list(values, "fee_discount_bp_by_tier"@) {
                Some(was) => if exists|i: int| 0 <= i < 5 && gap(#[trigger] list[i], was[i]) > 10 {
                    Some("delta exceeds the per-apply limit"@)
                } else {
                    None
                },
                None => None,
            }
        },
    }
}

/// The position caps: none below the published table, non-decreasing.
pub open spec fn caps_rule(v: JsonView) -> Refusal {
    match int_list(v, 5) {
        Err(e) => Some(e),
        Ok(list) => if list[0] < 25_000_000 || list[1] < 50_000_000 || list[2] < 100_000_000
            || list[3] < 250_000_000 || list[4] < 500_000_000 {
            Some("cap below the published tier table"@)
        } else {
            monotone_refusal(list)
        },
    }
}

/// A tenth of a number, rounded toward zero.
pub open spec fn tenth(p: int) -> int {
    if p >= 0 {
        p / 10
    } else {
        -((-p) / 10)
    }
}

/// The reputation thresholds: non-decreasing, each within a tenth of what it
/// was.
pub open spec fn thresholds_rule(v: JsonView, values: Values) -> Refusal {
    match int_list(v, 5) {
        Err(e) => Some(e),
        Ok(list) => if !non_decreasing(list) {
            monotone_refusal(list)
        } else {
            match prior_list(values, "rep_tier_thresholds_micro"@) {
                Some(was) => if exists|i: int|
                    0 <= i < 5 && gap(#[trigger] list[i], was[i]) > tenth(was[i]) {
                    Some("threshold moves more than 10% in one proposal"@)
                } else {
                    None
                },
                None => None,
            }
        },
    }
}

/// A positive seed, within twice and half of what it was.
pub open spec fn seed_rule(v: JsonView, prior: Option<int>) -> Refusal {
    match json::int_of(v) {
        None => Some("expected an integer"@),
        Some(n) => if n <= 0 {
            Some("seed must be positive"@)
        } else {
            twice_refusal(prior, n)
        },
    }
}

/// The published default of an integrity knob. The bands anchor here and not at
/// the current value, so drift cannot compound.
pub open spec fn integrity_default(key: Seq<char>) -> Option<int> {
    if key == "integrity_burst_multiplier_ppm"@ {
        Some(2_000_000)
    } else if key == "integrity_young_share_max_ppm"@ {
        Some(500_000)
    } else if key == "integrity_device_share_max_ppm"@ {
        Some(600_000)
    } else if key == "integrity_subnet_share_max_ppm"@ {
        Some(600_000)
    } else if key == "integrity_min_metadata_coverage_ppm"@ {
        Some(500_000)
    } else {
        None
    }
}

/// An integrity knob within a fifth of its published default.
pub open spec fn integrity_rule(key: Seq<char>, v: JsonView) -> Refusal {
    match json::int_of(v) {
        None => Some("expected an integer"@),
        Some(n) => match integrity_default(key) {
            None => Some("unknown integrity knob"@),
            Some(d) => bounds_refusal(n, d * 4 / 5, d * 6 / 5),
        },
    }
}

/// The region list: at least one region, all of them texts.
pub open spec fn regions_rule(v: JsonView) -> Refusal {
    match v {
        JsonView::Array(items) => if items.len() == 0 {
            Some("region_allowset must be non-empty when present"@)
        } else if forall|i: int|
            0 <= i < items.len() ==> json::text_of(#[trigger] items[i]) is Some {
            None
        } else {
            Some("region_allowset entries must be strings"@)
        },
        _ => Some("expected an array"@),
    }
}

/// The region list's version: it stays or steps by one.
pub open spec fn region_version_rule(v: JsonView, prior: Option<int>) -> Refusal {
    match json::int_of(v) {
        None => Some("expected an integer"@),
        Some(n) => if n < 1 {
            Some("region_allowset_version must be >= 1"@)
        } else {
            match prior {
                Some(p) => if n != p && n != p + 1 {
                    Some("region_allowset_version must increase by 1"@)
                } else {
                    None
                },
                None => None,
            }
        },
    }
}

/// A market's fee override: inherit, or an override within bounds.
pub open spec fn override_rule(v: JsonView) -> Refusal {
    let bad: Refusal = Some("fee override must be inherit or override(bps)"@);
    if json::text_of(v) == Some("inherit"@) {
        None
    } else {
        match v {
            JsonView::Object(members) => if members.len() == 1 {
                match json::member_of(members, "override"@) {
                    Some(inner) => match json::int_of(inner) {
                        Some(bps) => bounds_refusal(bps, 10, 200),
                        None => bad,
                    },
                    None => bad,
                }
            } else {
                bad
            },
            _ => bad,
        }
    }
}

/// Why a value is refused under a rule, if it is. Prior values are read from
/// `values`.
pub open spec fn check_refusal(check: Check, key: Seq<char>, v: JsonView, values: Values) -> Refusal {
    match check {
        Check::TradeFee => range_delta_rule(v, prior(values, "trade_fee_bps"@), 10, 200, 20),
        Check::MinFee => range_delta_rule(v, prior(values, "min_fee_bps"@), 0, 50, 10),
        Check::FlipWindow => range_rule(v, 600, 86_400),
        Check::Discounts => discounts_rule(v, values),
        Check::PositionCaps => caps_rule(v),
        Check::TierThresholds => thresholds_rule(v, values),
        Check::MinPot => range_twice_rule(v, prior(values, "rep_score_min_pot_micro"@), 0, 1_000_000_000),
        Check::Seed => seed_rule(v, prior(values, key)),
        Check::SeedBudget => range_twice_rule(v, prior(values, "daily_seed_budget_micro"@), 1_000_000, 100_000_000_000),
        Check::HiddenWindow => range_rule(v, 60, 900),
        Check::MinVotesFloor => match json::int_of(v) {
            None => Some("expected an integer"@),
            Some(n) => if n < 3 {
                Some("below the published floor"@)
            } else {
                None
            },
        },
        Check::OiFloor => range_rule(v, 0, 1_000_000_000),
        Check::HoldThreshold => range_twice_rule(v, prior(values, "payout_hold_threshold_micro"@), 1_000_000, 10_000_000_000),
        Check::SweepDelay => range_twice_rule(v, prior(values, "sweep_delay_secs"@), 60, 3_600),
        Check::MaxVotes => range_rule(v, 15, 45),
        Check::VoteWindow => range_rule(v, 1_800, 5_400),
        Check::IntegrityPpm => integrity_rule(key, v),
        Check::Cadence => range_rule(v, 900, 86_400),
        Check::DailySlots => range_delta_rule(v, prior(values, "daily_slots"@), 1, 4, 1),
        Check::Bool => if json::bool_of(v) is Some {
            None
        } else {
            Some("expected a boolean"@)
        },
        Check::FaucetCap => range_twice_rule(v, prior(values, "faucet_per_call_cap_micro"@), 0, 1_000_000_000),
        Check::RemedialMarketCap => range_rule(v, 0, 500_000_000),
        Check::RemedialDailyCap => range_rule(v, 0, 2_000_000_000),
        Check::ReceivableCap => range_rule(v, 0, 1_000_000_000_000),
        Check::WriteoffItemCap => range_rule(v, 0, 500_000_000),
        Check::WriteoffDailyCap => range_rule(v, 0, 2_000_000_000),
        Check::ProposalTtl => range_rule(v, 60, 3_600),
        Check::DualDelay => range_rule(v, 0, 86_400),
        Check::KycTier => range_factor_rule(
            v,
            prior(values, key),
            0,
            2,
            1,
            if text::occurrences(key, "deposit"@, key.len()) > 0 {
                1
            } else {
                2
            },
        ),
        Check::WithdrawMin => range_factor_rule(
            v,
            prior(values, "withdraw_min_micro"@),
            1_000_000,
            1_000_000_000,
            10,
            5_000_000,
        ),
        Check::WithdrawMax => range_factor_rule(
            v,
            prior(values, "withdraw_max_micro"@),
            1_000_000,
            1_000_000_000_000,
            10,
            1_000_000_000,
        ),
        Check::WithdrawDaily => range_factor_rule(
            v,
            prior(values, "withdraw_daily_limit_micro"@),
            1_000_000,
            1_000_000_000_000,
            10,
            2_000_000_000,
        ),
        Check::AutoApprove => range_factor_rule(
            v,
            prior(values, "withdraw_auto_approve_micro"@),
            0,
            1_000_000_000,
            10,
            50_000_000,
        ),
        Check::DualControl => range_factor_rule(
            v,
            prior(values, "withdraw_dual_control_micro"@),
            1_000_000,
            1_000_000_000_000,
            10,
            500_000_000,
        ),
        Check::WarmFloor => range_factor_rule(
            v,
            prior(values, "dest_warm_floor_micro"@),
            1_000_000,
            1_000_000_000,
            10,
            100_000_000,
        ),
        Check::WarmAge => range_factor_rule(
            v,
            prior(values, "dest_warm_age_hours"@),
            1,
            720,
            4,
            72,
        ),
        Check::DestDaily => range_factor_rule(
            v,
            prior(values, "dest_daily_limit_micro"@),
            1_000_000,
            1_000_000_000_000,
            10,
            1_000_000_000,
        ),
        Check::HotWallet => range_factor_rule(
            v,
            prior(values, "hot_wallet_daily_limit_micro"@),
            1_000_000,
            10_000_000_000_000,
            4,
            10_000_000_000,
        ),
        Check::Confirmations => range_factor_rule(
            v,
            prior(values, "deposit_confirmations"@),
            1,
            300,
            4,
            32,
        ),
        Check::CreditGrant => range_factor_rule(
            v,
            prior(values, key),
            0,
            100_000_000,
            4,
            5_000_000,
        ),
        Check::ReferralMin => range_factor_rule(
            v,
            prior(values, "referral_min_notional_micro"@),
            1_000_000,
            1_000_000_000,
            10,
            10_000_000,
        ),
        Check::BonusMint => range_factor_rule(
            v,
            prior(values, "bonus_mint_daily_cap_micro"@),
            0,
            10_000_000_000,
            4,
            500_000_000,
        ),
        Check::BonusStructure => if json::text_of(v) == Some("real_money"@) || json::text_of(v)
            == Some("sweeps"@) {
            None
        } else {
            Some("bonus_structure must be real_money or sweeps"@)
        },
        Check::AmlVelocity => range_factor_rule(
            v,
            prior(values, key),
            1_000_000,
            1_000_000_000_000,
            4,
            5_000_000_000,
        ),
        Check::StructuringN => range_factor_rule(
            v,
            prior(values, "aml_structuring_n"@),
            2,
            100,
            4,
            4,
        ),
        Check::StructuringWindow => range_factor_rule(
            v,
            prior(values, "aml_structuring_window_hours"@),
            1,
            168,
            4,
            24,
        ),
        Check::StructuringThreshold => range_factor_rule(
            v,
            prior(values, "aml_structuring_threshold_micro"@),
            100_000_000,
            10_000_000_000,
            4,
            500_000_000,
        ),
        Check::StructuringFloor => range_factor_rule(
            v,
            prior(values, "aml_structuring_floor_micro"@),
            10_000_000,
            1_000_000_000,
            4,
            100_000_000,
        ),
        Check::ShadowCap => range_factor_rule(
            v,
            prior(values, key),
            0,
            1_000_000_000,
            10,
            25_000_000,
        ),
        Check::StuckSla => range_factor_rule(
            v,
            prior(values, key),
            60,
            86_400,
            4,
            900,
        ),
        Check::RegionAllowset => regions_rule(v),
        Check::RegionVersion => region_version_rule(v, prior(values, "region_allowset_version"@)),
        Check::ApproveDaily => range_factor_rule(
            v,
            prior(values, "withdraw_approve_daily_cap_micro"@),
            1_000_000,
            10_000_000_000_000,
            4,
            5_000_000_000,
        ),
        Check::ReserveTopup => range_factor_rule(
            v,
            prior(values, "bonus_reserve_topup_daily_cap_micro"@),
            1_000_000,
            1_000_000_000_000,
            4,
            1_000_000_000,
        ),
        Check::FeeOverride => override_rule(v),
    }
}

/// The integer that a document is.
pub fn as_i64(v: &Json) -> (r: Result<i64, &'static str>)
    ensures
        match r {
            Ok(n) => json::int_of(v@) == Some(n as int),
            Err(e) => json::int_of(v@) is None && e@ == "expected an integer"@,
        },
{
    match v.as_i64() {
        Some(n) => Ok(n),
        None => Err("expected an integer"),
    }
}

/// The truth value that a document is.
pub fn as_bool(v: &Json) -> (r: Result<bool, &'static str>)
    ensures
        match r {
            Ok(b) => json::bool_of(v@) == Some(b),
            Err(e) => json::bool_of(v@) is None && e@ == "expected a boolean"@,
        },
{
    match v.as_bool() {
        Some(b) => Ok(b),
        None => Err("expected a boolean"),
    }
}

/// The numbers of a list.
pub open spec fn numbers(list: Seq<i64>) -> Seq<int> {
    Seq::new(list.len(), |i: int| list[i] as int)
}

/// The `N` integers that a document lists.
pub fn as_i64_array<const N: usize>(v: &Json) -> (r: Result<Vec<i64>, &'static str>)
    ensures
        match r {
            Ok(list) => int_list(v@, N as int) == Ok::<Seq<int>, Seq<char>>(numbers(list@))
                && list@.len() == N,
            Err(e) => int_list(v@, N as int) == Err::<Seq<int>, Seq<char>>(e@),
        },
{
    let items = match v.as_array() {
        Some(items) => items,
        None => return Err("expected an array"),
    };
    if items.len() != N {
        return Err("wrong array length");
    }
    let ghost all = json::items_view(items@);
    let mut out: Vec<i64> = Vec::new();
    let mut i: usize = 0;
    while i < items.len()
        invariant
            i <= items@.len(),
            items@.len() == N,
            all == json::items_view(items@),
            v@ == JsonView::Array(all),
            out@.len() == i,
            forall|j: int|
                0 <= j < i ==> json::int_of(#[trigger] all[j]) == Some(out@[j] as int),
        decreases items.len() - i,
    {
        match items[i].as_i64() {
            Some(n) => out.push(n),
            None => {
                assert(json::int_of(all[i as int]) is None);
                return Err("expected integer entries");
            },
        }
        i += 1;
    }
    assert(ints(all) =~= numbers(out@));
    Ok(out)
}

/// Within the closed bounds.
pub fn bounded(v: i64, lo: i64, hi: i64) -> (r: Result<(), &'static str>)
    ensures
        refusal(r) == bounds_refusal(v as int, lo as int, hi as int),
{
    if v < lo || v > hi {
        return Err("out of bounds");
    }
    Ok(())
}

/// `x` as a number.
pub open spec fn number(x: Option<i64>) -> Option<int> {
    match x {
        Some(n) => Some(n as int),
        None => None,
    }
}

/// The integer now under `key`.
fn prior_i64(snap: &Snapshot, key: &str) -> (r: Option<i64>)
    ensures
        number(r) == prior(snap@, key@),
{
    match snap.get(key) {
        Some(v) => v.as_i64(),
        None => None,
    }
}

/// At most `delta` away from the prior value. The limit holds for each apply;
/// every apply is separately audited.
pub fn max_delta(prior: Option<i64>, new: i64, delta: i64) -> (r: Result<(), &'static str>)
    ensures
        refusal(r) == delta_refusal(number(prior), new as int, delta as int),
{
    if let Some(p) = prior {
        let moved: i128 = if new < p {
            p as i128 - new as i128
        } else {
            new as i128 - p as i128
        };
        if moved > delta as i128 {
            return Err("delta exceeds the per-apply limit");
        }
    }
    Ok(())
}

/// At most twice and at least half of a positive prior value.
pub fn within_2x(prior: Option<i64>, new: i64) -> (r: Result<(), &'static str>)
    ensures
        refusal(r) == twice_refusal(number(prior), new as int),
{
    if let Some(p) = prior {
        if p > 0 && (new as i128 > 2 * p as i128 || new < p / 2) {
            return Err("change exceeds 2x of the prior value");
        }
    }
    Ok(())
}

/// No entry is smaller than the one before it.
pub fn monotone_non_decreasing(list: &[i64]) -> (r: Result<(), &'static str>)
    ensures
        refusal(r) == monotone_refusal(numbers(list@)),
{
    let mut i: usize = 1;
    while i < list.len()
        invariant
            1 <= i,
            i <= list@.len() || list@.len() == 0,
            forall|j: int| 0 < j < i && j < list@.len() ==> list@[j - 1] <= #[trigger] list@[j],
        decreases list.len() - i,
    {
        if list[i] < list[i - 1] {
            proof {
                let n = numbers(list@);
                assert(n[i - 1] > n[i as int]);
            }
            return Err("entries must be monotone non-decreasing");
        }
        i += 1;
    }
    proof {
        let n = numbers(list@);
        assert forall|j: int| 0 < j < n.len() implies n[j - 1] <= #[trigger] n[j] by {
            assert(list@[j - 1] <= list@[j]);
        }
    }
    Ok(())
}

/// Switching off is free; switching on again goes at most to the seed; every
/// other change of a positive value stays within a factor.
pub fn mul_delta(prior: Option<i64>, new: i64, factor: i64, seed: i64) -> (r: Result<
    (),
    &'static str,
>)
    requires
        1 <= factor,
    ensures
        refusal(r) == factor_refusal(number(prior), new as int, factor as int, seed as int),
{
    if new == 0 {
        return Ok(());
    }
    match prior {
        None => Ok(()),
        Some(p) => {
            if p == 0 {
                if new > seed {
                    return Err("re-enable exceeds the seed baseline");
                }
                return Ok(());
            }
            if p < 0 {
                return Ok(());
            }
            proof {
                assert(0 <= p * factor <= 0x7fff_ffff_ffff_ffff * 0x7fff_ffff_ffff_ffff)
                    by (nonlinear_arith)
                    requires
                        0 <= p <= 0x7fff_ffff_ffff_ffff,
                        0 <= factor <= 0x7fff_ffff_ffff_ffff,
                ;
            }
            if new as i128 > p as i128 * factor as i128 || (factor > 1 && new < p / factor) {
                return Err("change exceeds the multiplicative per-apply limit");
            }
            Ok(())
        },
    }
}

/// An integer within bounds.
fn ranged(v: &Json, lo: i64, hi: i64) -> (r: Result<i64, &'static str>)
    ensures
        match r {
            Ok(n) => json::int_of(v@) == Some(n as int) && bounds_refusal(
                n as int,
                lo as int,
                hi as int,
            ) is None,
            Err(e) => range_rule(v@, lo as int, hi as int) == Some(e@),
        },
{
    let n: i64 = match as_i64(v) {
        Ok(n) => n,
        Err(e) => return Err(e),
    };
    match bounded(n, lo, hi) {
        Ok(()) => Ok(n),
        Err(e) => Err(e),
    }
}

fn ranged_delta(v: &Json, prior: Option<i64>, lo: i64, hi: i64, delta: i64) -> (r: Result<
    (),
    &'static str,
>)
    ensures
        refusal(r) == range_delta_rule(v@, number(prior), lo as int, hi as int, delta as int),
{
    match ranged(v, lo, hi) {
        Ok(n) => max_delta(prior, n, delta),
        Err(e) => Err(e),
    }
}

fn ranged_twice(v: &Json, prior: Option<i64>, lo: i64, hi: i64) -> (r: Result<(), &'static str>)
    ensures
        refusal(r) == range_twice_rule(v@, number(prior), lo as int, hi as int),
{
    match ranged(v, lo, hi) {
        Ok(n) => within_2x(prior, n),
        Err(e) => Err(e),
    }
}

fn ranged_factor(v: &Json, prior: Option<i64>, lo: i64, hi: i64, factor: i64, seed: i64) -> (r:
    Result<(), &'static str>)
    requires
        1 <= factor,
    ensures
        refusal(r) == range_factor_rule(
            v@,
            number(prior),
            lo as int,
            hi as int,
            factor as int,
            seed as int,
        ),
{
    match ranged(v, lo, hi) {
        Ok(n) => mul_delta(prior, n, factor, seed),
        Err(e) => Err(e),
    }
}

/// The list of five integers now under `key`.
fn prior_five(snap: &Snapshot, key: &str) -> (r: Option<Vec<i64>>)
    ensures
        match r {
            Some(list) => prior_list(snap@, key@) == Some(numbers(list@)) && list@.len() == 5,
            None => prior_list(snap@, key@) is None,
        },
{
    match snap.get(key) {
        Some(v) => match as_i64_array::<5>(v) {
            Ok(list) => Some(list),
            Err(_) => None,
        },
        None => None,
    }
}

pub fn check_trade_fee(_k: &str, v: &Json, snap: &Snapshot) -> (r: Result<(), &'static str>)
    ensures
        refusal(r) == check_refusal(Check::TradeFee, _k@, v@, snap@),
{
    ranged_delta(v, prior_i64(snap, "trade_fee_bps"), 10, 200, 20)
}

pub fn check_min_fee(_k: &str, v: &Json, snap: &Snapshot) -> (r: Result<(), &'static str>)
    ensures
        refusal(r) == check_refusal(Check::MinFee, _k@, v@, snap@),
{
    ranged_delta(v, prior_i64(snap, "min_fee_bps"), 0, 50, 10)
}

pub fn check_flip_window(_k: &str, v: &Json, _s: &Snapshot) -> (r: Result<(), &'static str>)
    ensures
        refusal(r) == check_refusal(Check::FlipWindow, _k@, v@, _s@),
{
    match ranged(v, 600, 86_400) {
        Ok(_) => Ok(()),
        Err(e) => Err(e),
    }
}

pub fn check_discounts(_k: &str, v: &Json, snap: &Snapshot) -> (r: Result<(), &'static str>)
    ensures
        refusal(r) == check_refusal(Check::Discounts, _k@, v@, snap@),
{
    let list = match as_i64_array::<5>(v) {
        Ok(list) => list,
        Err(e) => return Err(e),
    };
    let base: i64 = match prior_i64(snap, "trade_fee_bps") {
        Some(n) => n,
        None => 100,
    };
    let ghost values = numbers(list@);
    let mut i: usize = 0;
    while i < 5
        invariant
            i <= 5,
            list@.len() == 5,
            values == numbers(list@),
            int_list(v@, 5) == Ok::<Seq<int>, Seq<char>>(values),
            base == (match prior(snap@, "trade_fee_bps"@) {
                Some(n) => n,
                None => 100,
            }),
            forall|j: int| 0 <= j < i ==> 0 <= #[trigger] values[j] <= base,
        decreases 5 - i,
    {
        if bounded(list[i], 0, base).is_err() {
            assert(values[i as int] < 0 || values[i as int] > base);
            return Err("out of bounds");
        }
        i += 1;
    }
    match monotone_non_decreasing(list.as_slice()) {
        Ok(()) => {},
        Err(e) => return Err(e),
    }
    if let Some(was) = prior_five(snap, "fee_discount_bp_by_tier") {
        let ghost before = numbers(was@);
        let mut k: usize = 0;
        while k < 5
            invariant
                k <= 5,
                list@.len() == 5,
                was@.len() == 5,
                values == numbers(list@),
                before == numbers(was@),
                prior_list(snap@, "fee_discount_bp_by_tier"@) == Some(before),
                int_list(v@, 5) == Ok::<Seq<int>, Seq<char>>(values),
                base == (match prior(snap@, "trade_fee_bps"@) {
                    Some(n) => n,
                    None => 100,
                }),
                forall|j: int| 0 <= j < 5 ==> 0 <= #[trigger] values[j] <= base,
                non_decreasing(values),
                forall|j: int| 0 <= j < k ==> gap(#[trigger] values[j], before[j]) <= 10,
            decreases 5 - k,
        {
            match max_delta(Some(was[k]), list[k], 10) {
                Ok(()) => {},
                Err(e) => {
                    assert(gap(values[k as int], before[k as int]) > 10);
                    return Err(e);
                },
            }
            k += 1;
        }
    }
    Ok(())
}

pub fn check_position_caps(_k: &str, v: &Json, _s: &Snapshot) -> (r: Result<(), &'static str>)
    ensures
        refusal(r) == check_refusal(Check::PositionCaps, _k@, v@, _s@),
{
    let list = match as_i64_array::<5>(v) {
        Ok(list) => list,
        Err(e) => return Err(e),
    };
    assert(numbers(list@)[0] == list@[0] && numbers(list@)[1] == list@[1] && numbers(list@)[2]
        == list@[2] && numbers(list@)[3] == list@[3] && numbers(list@)[4] == list@[4]);
    if list[0] < PUBLISHED_POSITION_CAPS[0] || list[1] < PUBLISHED_POSITION_CAPS[1] || list[2]
        < PUBLISHED_POSITION_CAPS[2] || list[3] < PUBLISHED_POSITION_CAPS[3] || list[4]
        < PUBLISHED_POSITION_CAPS[4] {
        return Err("cap below the published tier table");
    }
    monotone_non_decreasing(list.as_slice())
}

pub fn check_tier_thresholds(_k: &str, v: &Json, snap: &Snapshot) -> (r: Result<(), &'static str>)
    ensures
        refusal(r) == check_refusal(Check::TierThresholds, _k@, v@, snap@),
{
    let list = match as_i64_array::<5>(v) {
        Ok(list) => list,
        Err(e) => return Err(e),
    };
    match monotone_non_decreasing(list.as_slice()) {
        Ok(()) => {},
        Err(e) => return Err(e),
    }
    let ghost values = numbers(list@);
    if let Some(was) = prior_five(snap, "rep_tier_thresholds_micro") {
        let ghost before = numbers(was@);
        let mut k: usize = 0;
        while k < 5
            invariant
                k <= 5,
                list@.len() == 5,
                was@.len() == 5,
                values == numbers(list@),
                before == numbers(was@),
                prior_list(snap@, "rep_tier_thresholds_micro"@) == Some(before),
                int_list(v@, 5) == Ok::<Seq<int>, Seq<char>>(values),
                non_decreasing(values),
                forall|j: int|
                    0 <= j < k ==> gap(#[trigger] values[j], before[j]) <= tenth(before[j]),
            decreases 5 - k,
        {
            let p: i128 = was[k] as i128;
            let n: i128 = list[k] as i128;
            let moved: i128 = if n < p {
                p - n
            } else {
                n - p
            };
            let band: i128 = if p >= 0 {
                p / 10
            } else {
                -(-p / 10)
            };
            if moved > band {
                assert(gap(values[k as int], before[k as int]) > tenth(before[k as int]));
                return Err("threshold moves more than 10% in one proposal");
            }
            k += 1;
        }
    }
    Ok(())
}

pub fn check_min_pot(_k: &str, v: &Json, snap: &Snapshot) -> (r: Result<(), &'static str>)
    ensures
        refusal(r) == check_refusal(Check::MinPot, _k@, v@, snap@),
{
    ranged_twice(v, prior_i64(snap, "rep_score_min_pot_micro"), 0, 1_000_000_000)
}

pub fn check_seed(key: &str, v: &Json, snap: &Snapshot) -> (r: Result<(), &'static str>)
    ensures
        refusal(r) == check_refusal(Check::Seed, key@, v@, snap@),
{
    let n: i64 = match as_i64(v) {
        Ok(n) => n,
        Err(e) => return Err(e),
    };
    if n <= 0 {
        return Err("seed must be positive");
    }
    within_2x(prior_i64(snap, key), n)
}

pub fn check_seed_budget(_k: &str, v: &Json, snap: &Snapshot) -> (r: Result<(), &'static str>)
    ensures
        refusal(r) == check_refusal(Check::SeedBudget, _k@, v@, snap@),
{
    ranged_twice(v, prior_i64(snap, "daily_seed_budget_micro"), 1_000_000, 100_000_000_000)
}

pub fn check_hidden_window(_k: &str, v: &Json, _s: &Snapshot) -> (r: Result<(), &'static str>)
    ensures
        refusal(r) == check_refusal(Check::HiddenWindow, _k@, v@, _s@),
{
    match ranged(v, 60, 900) {
        Ok(_) => Ok(()),
        Err(e) => Err(e),
    }
}

pub fn check_min_votes_floor(_k: &str, v: &Json, _s: &Snapshot) -> (r: Result<(), &'static str>)
    ensures
        refusal(r) == check_refusal(Check::MinVotesFloor, _k@, v@, _s@),
{
    let n: i64 = match as_i64(v) {
        Ok(n) => n,
        Err(e) => return Err(e),
    };
    if n < 3 {
        return Err("below the published floor");
    }
    Ok(())
}

pub fn check_oi_floor(_k: &str, v: &Json, _s: &Snapshot) -> (r: Result<(), &'static str>)
    ensures
        refusal(r) == check_refusal(Check::OiFloor, _k@, v@, _s@),
{
    match ranged(v, 0, 1_000_000_000) {
        Ok(_) => Ok(()),
        Err(e) => Err(e),
    }
}

pub fn check_hold_threshold(_k: &str, v: &Json, snap: &Snapshot) -> (r: Result<(), &'static str>)
    ensures
        refusal(r) == check_refusal(Check::HoldThreshold, _k@, v@, snap@),
{
    ranged_twice(v, prior_i64(snap, "payout_hold_threshold_micro"), 1_000_000, 10_000_000_000)
}

pub fn check_sweep_delay(_k: &str, v: &Json, snap: &Snapshot) -> (r: Result<(), &'static str>)
    ensures
        refusal(r) == check_refusal(Check::SweepDelay, _k@, v@, snap@),
{
    ranged_twice(v, prior_i64(snap, "sweep_delay_secs"), 60, 3_600)
}

pub fn check_max_votes(_k: &str, v: &Json, _s: &Snapshot) -> (r: Result<(), &'static str>)
    ensures
        refusal(r) == check_refusal(Check::MaxVotes, _k@, v@, _s@),
{
    match ranged(v, 15, 45) {
        Ok(_) => Ok(()),
        Err(e) => Err(e),
    }
}

pub fn check_vote_window(_k: &str, v: &Json, _s: &Snapshot) -> (r: Result<(), &'static str>)
    ensures
        refusal(r) == check_refusal(Check::VoteWindow, _k@, v@, _s@),
{
    match ranged(v, 1_800, 5_400) {
        Ok(_) => Ok(()),
        Err(e) => Err(e),
    }
}

pub fn check_integrity_ppm(key: &str, v: &Json, _s: &Snapshot) -> (r: Result<(), &'static str>)
    ensures
        refusal(r) == check_refusal(Check::IntegrityPpm, key@, v@, _s@),
{
    let n: i64 = match as_i64(v) {
        Ok(n) => n,
        Err(e) => return Err(e),
    };
    let published: i64 = if text::same_text(key, "integrity_burst_multiplier_ppm") {
        2_000_000
    } else if text::same_text(key, "integrity_young_share_max_ppm") {
        500_000
    } else if text::same_text(key, "integrity_device_share_max_ppm") {
        600_000
    } else if text::same_text(key, "integrity_subnet_share_max_ppm") {
        600_000
    } else if text::same_text(key, "integrity_min_metadata_coverage_ppm") {
        500_000
    } else {
        return Err("unknown integrity knob");
    };
    bounded(n, published * 4 / 5, published * 6 / 5)
}

pub fn check_cadence(_k: &str, v: &Json, _s: &Snapshot) -> (r: Result<(), &'static str>)
    ensures
        refusal(r) == check_refusal(Check::Cadence, _k@, v@, _s@),
{
    match ranged(v, 900, 86_400) {
        Ok(_) => Ok(()),
        Err(e) => Err(e),
    }
}

pub fn check_daily_slots(_k: &str, v: &Json, snap: &Snapshot) -> (r: Result<(), &'static str>)
    ensures
        refusal(r) == check_refusal(Check::DailySlots, _k@, v@, snap@),
{
    ranged_delta(v, prior_i64(snap, "daily_slots"), 1, 4, 1)
}

pub fn check_bool(_k: &str, v: &Json, _s: &Snapshot) -> (r: Result<(), &'static str>)
    ensures
        refusal(r) == check_refusal(Check::Bool, _k@, v@, _s@),
{
    match as_bool(v) {
        Ok(_) => Ok(()),
        Err(e) => Err(e),
    }
}

pub fn check_faucet_cap(_k: &str, v: &Json, snap: &Snapshot) -> (r: Result<(), &'static str>)
    ensures
        refusal(r) == check_refusal(Check::FaucetCap, _k@, v@, snap@),
{
    ranged_twice(v, prior_i64(snap, "faucet_per_call_cap_micro"), 0, 1_000_000_000)
}

pub fn check_remedial_market_cap(_k: &str, v: &Json, _s: &Snapshot) -> (r: Result<(), &'static str>)
    ensures
        refusal(r) == check_refusal(Check::RemedialMarketCap, _k@, v@, _s@),
{
    match ranged(v, 0, 500_000_000) {
        Ok(_) => Ok(()),
        Err(e) => Err(e),
    }
}

pub fn check_remedial_daily_cap(_k: &str, v: &Json, _s: &Snapshot) -> (r: Result<(), &'static str>)
    ensures
        refusal(r) == check_refusal(Check::RemedialDailyCap, _k@, v@, _s@),
{
    match ranged(v, 0, 2_000_000_000) {
        Ok(_) => Ok(()),
        Err(e) => Err(e),
    }
}

pub fn check_receivable_cap(_k: &str, v: &Json, _s: &Snapshot) -> (r: Result<(), &'static str>)
    ensures
        refusal(r) == check_refusal(Check::ReceivableCap, _k@, v@, _s@),
{
    match ranged(v, 0, 1_000_000_000_000) {
        Ok(_) => Ok(()),
        Err(e) => Err(e),
    }
}

pub fn check_writeoff_item_cap(_k: &str, v: &Json, _s: &Snapshot) -> (r: Result<(), &'static str>)
    ensures
        refusal(r) == check_refusal(Check::WriteoffItemCap, _k@, v@, _s@),
{
    match ranged(v, 0, 500_000_000) {
        Ok(_) => Ok(()),
        Err(e) => Err(e),
    }
}

pub fn check_writeoff_daily_cap(_k: &str, v: &Json, _s: &Snapshot) -> (r: Result<(), &'static str>)
    ensures
        refusal(r) == check_refusal(Check::WriteoffDailyCap, _k@, v@, _s@),
{
    match ranged(v, 0, 2_000_000_000) {
        Ok(_) => Ok(()),
        Err(e) => Err(e),
    }
}

pub fn check_proposal_ttl(_k: &str, v: &Json, _s: &Snapshot) -> (r: Result<(), &'static str>)
    ensures
        refusal(r) == check_refusal(Check::ProposalTtl, _k@, v@, _s@),
{
    match ranged(v, 60, 3_600) {
        Ok(_) => Ok(()),
        Err(e) => Err(e),
    }
}

pub fn check_dual_delay(_k: &str, v: &Json, _s: &Snapshot) -> (r: Result<(), &'static str>)
    ensures
        refusal(r) == check_refusal(Check::DualDelay, _k@, v@, _s@),
{
    match ranged(v, 0, 86_400) {
        Ok(_) => Ok(()),
        Err(e) => Err(e),
    }
}

pub fn check_kyc_tier(key: &str, v: &Json, snap: &Snapshot) -> (r: Result<(), &'static str>)
    ensures
        refusal(r) == check_refusal(Check::KycTier, key@, v@, snap@),
{
    let chars = text::chars_of(key);
    let deposit = text::chars_of("deposit");
    let seed: i64 = if text::count_occurrences(chars.as_slice(), deposit.as_slice()) > 0 {
        1
    } else {
        2
    };
    ranged_factor(v, prior_i64(snap, key), 0, 2, 1, seed)
}

pub fn check_withdraw_min(_k: &str, v: &Json, snap: &Snapshot) -> (r: Result<(), &'static str>)
    ensures
        refusal(r) == check_refusal(Check::WithdrawMin, _k@, v@, snap@),
{
    ranged_factor(
        v,
        prior_i64(snap, "withdraw_min_micro"),
        1_000_000,
        1_000_000_000,
        10,
        5_000_000,
    )
}

pub fn check_withdraw_max(_k: &str, v: &Json, snap: &Snapshot) -> (r: Result<(), &'static str>)
    ensures
        refusal(r) == check_refusal(Check::WithdrawMax, _k@, v@, snap@),
{
    ranged_factor(
        v,
        prior_i64(snap, "withdraw_max_micro"),
        1_000_000,
        1_000_000_000_000,
        10,
        1_000_000_000,
    )
}

pub fn check_withdraw_daily(_k: &str, v: &Json, snap: &Snapshot) -> (r: Result<(), &'static str>)
    ensures
        refusal(r) == check_refusal(Check::WithdrawDaily, _k@, v@, snap@),
{
    ranged_factor(
        v,
        prior_i64(snap, "withdraw_daily_limit_micro"),
        1_000_000,
        1_000_000_000_000,
        10,
        2_000_000_000,
    )
}

pub fn check_auto_approve(_k: &str, v: &Json, snap: &Snapshot) -> (r: Result<(), &'static str>)
    ensures
        refusal(r) == check_refusal(Check::AutoApprove, _k@, v@, snap@),
{
    ranged_factor(
        v,
        prior_i64(snap, "withdraw_auto_approve_micro"),
        0,
        1_000_000_000,
        10,
        50_000_000,
    )
}

pub fn check_dual_control(_k: &str, v: &Json, snap: &Snapshot) -> (r: Result<(), &'static str>)
    ensures
        refusal(r) == check_refusal(Check::DualControl, _k@, v@, snap@),
{
    ranged_factor(
        v,
        prior_i64(snap, "withdraw_dual_control_micro"),
        1_000_000,
        1_000_000_000_000,
        10,
        500_000_000,
    )
}

pub fn check_warm_floor(_k: &str, v: &Json, snap: &Snapshot) -> (r: Result<(), &'static str>)
    ensures
        refusal(r) == check_refusal(Check::WarmFloor, _k@, v@, snap@),
{
    ranged_factor(
        v,
        prior_i64(snap, "dest_warm_floor_micro"),
        1_000_000,
        1_000_000_000,
        10,
        100_000_000,
    )
}

pub fn check_warm_age(_k: &str, v: &Json, snap: &Snapshot) -> (r: Result<(), &'static str>)
    ensures
        refusal(r) == check_refusal(Check::WarmAge, _k@, v@, snap@),
{
    ranged_factor(
        v,
        prior_i64(snap, "dest_warm_age_hours"),
        1,
        720,
        4,
        72,
    )
}

pub fn check_dest_daily(_k: &str, v: &Json, snap: &Snapshot) -> (r: Result<(), &'static str>)
    ensures
        refusal(r) == check_refusal(Check::DestDaily, _k@, v@, snap@),
{
    ranged_factor(
        v,
        prior_i64(snap, "dest_daily_limit_micro"),
        1_000_000,
        1_000_000_000_000,
        10,
        1_000_000_000,
    )
}

pub fn check_hot_wallet(_k: &str, v: &Json, snap: &Snapshot) -> (r: Result<(), &'static str>)
    ensures
        refusal(r) == check_refusal(Check::HotWallet, _k@, v@, snap@),
{
    ranged_factor(
        v,
        prior_i64(snap, "hot_wallet_daily_limit_micro"),
        1_000_000,
        10_000_000_000_000,
        4,
        10_000_000_000,
    )
}

pub fn check_confirmations(_k: &str, v: &Json, snap: &Snapshot) -> (r: Result<(), &'static str>)
    ensures
        refusal(r) == check_refusal(Check::Confirmations, _k@, v@, snap@),
{
    ranged_factor(
        v,
        prior_i64(snap, "deposit_confirmations"),
        1,
        300,
        4,
        32,
    )
}

pub fn check_credit_grant(key: &str, v: &Json, snap: &Snapshot) -> (r: Result<(), &'static str>)
    ensures
        refusal(r) == check_refusal(Check::CreditGrant, key@, v@, snap@),
{
    ranged_factor(
        v,
        prior_i64(snap, key),
        0,
        100_000_000,
        4,
        5_000_000,
    )
}

pub fn check_referral_min(_k: &str, v: &Json, snap: &Snapshot) -> (r: Result<(), &'static str>)
    ensures
        refusal(r) == check_refusal(Check::ReferralMin, _k@, v@, snap@),
{
    ranged_factor(
        v,
        prior_i64(snap, "referral_min_notional_micro"),
        1_000_000,
        1_000_000_000,
        10,
        10_000_000,
    )
}

pub fn check_bonus_mint(_k: &str, v: &Json, snap: &Snapshot) -> (r: Result<(), &'static str>)
    ensures
        refusal(r) == check_refusal(Check::BonusMint, _k@, v@, snap@),
{
    ranged_factor(
        v,
        prior_i64(snap, "bonus_mint_daily_cap_micro"),
        0,
        10_000_000_000,
        4,
        500_000_000,
    )
}

pub fn check_bonus_structure(_k: &str, v: &Json, _s: &Snapshot) -> (r: Result<(), &'static str>)
    ensures
        refusal(r) == check_refusal(Check::BonusStructure, _k@, v@, _s@),
{
    if let Some(s) = v.as_str() {
        if text::same_text(s, "real_money") || text::same_text(s, "sweeps") {
            return Ok(());
        }
    }
    Err("bonus_structure must be real_money or sweeps")
}

pub fn check_aml_velocity(key: &str, v: &Json, snap: &Snapshot) -> (r: Result<(), &'static str>)
    ensures
        refusal(r) == check_refusal(Check::AmlVelocity, key@, v@, snap@),
{
    ranged_factor(
        v,
        prior_i64(snap, key),
        1_000_000,
        1_000_000_000_000,
        4,
        5_000_000_000,
    )
}

pub fn check_structuring_n(_k: &str, v: &Json, snap: &Snapshot) -> (r: Result<(), &'static str>)
    ensures
        refusal(r) == check_refusal(Check::StructuringN, _k@, v@, snap@),
{
    ranged_factor(
        v,
        prior_i64(snap, "aml_structuring_n"),
        2,
        100,
        4,
        4,
    )
}

pub fn check_structuring_window(_k: &str, v: &Json, snap: &Snapshot) -> (r: Result<(), &'static str>)
    ensures
        refusal(r) == check_refusal(Check::StructuringWindow, _k@, v@, snap@),
{
    ranged_factor(
        v,
        prior_i64(snap, "aml_structuring_window_hours"),
        1,
        168,
        4,
        24,
    )
}

pub fn check_structuring_threshold(_k: &str, v: &Json, snap: &Snapshot) -> (r: Result<(), &'static str>)
    ensures
        refusal(r) == check_refusal(Check::StructuringThreshold, _k@, v@, snap@),
{
    ranged_factor(
        v,
        prior_i64(snap, "aml_structuring_threshold_micro"),
        100_000_000,
        10_000_000_000,
        4,
        500_000_000,
    )
}

pub fn check_structuring_floor(_k: &str, v: &Json, snap: &Snapshot) -> (r: Result<(), &'static str>)
    ensures
        refusal(r) == check_refusal(Check::StructuringFloor, _k@, v@, snap@),
{
    ranged_factor(
        v,
        prior_i64(snap, "aml_structuring_floor_micro"),
        10_000_000,
        1_000_000_000,
        4,
        100_000_000,
    )
}

pub fn check_shadow_cap(key: &str, v: &Json, snap: &Snapshot) -> (r: Result<(), &'static str>)
    ensures
        refusal(r) == check_refusal(Check::ShadowCap, key@, v@, snap@),
{
    ranged_factor(
        v,
        prior_i64(snap, key),
        0,
        1_000_000_000,
        10,
        25_000_000,
    )
}

pub fn check_stuck_sla(key: &str, v: &Json, snap: &Snapshot) -> (r: Result<(), &'static str>)
    ensures
        refusal(r) == check_refusal(Check::StuckSla, key@, v@, snap@),
{
    ranged_factor(
        v,
        prior_i64(snap, key),
        60,
        86_400,
        4,
        900,
    )
}

pub fn check_region_allowset(_k: &str, v: &Json, _s: &Snapshot) -> (r: Result<(), &'static str>)
    ensures
        refusal(r) == check_refusal(Check::RegionAllowset, _k@, v@, _s@),
{
    let items = match v.as_array() {
        Some(items) => items,
        None => return Err("expected an array"),
    };
    if items.len() == 0 {
        return Err("region_allowset must be non-empty when present");
    }
    let ghost all = json::items_view(items@);
    let mut i: usize = 0;
    while i < items.len()
        invariant
            i <= items@.len(),
            0 < items@.len(),
            all == json::items_view(items@),
            v@ == JsonView::Array(all),
            forall|j: int| 0 <= j < i ==> json::text_of(#[trigger] all[j]) is Some,
        decreases items.len() - i,
    {
        if items[i].as_str().is_none() {
            assert(json::text_of(all[i as int]) is None);
            return Err("region_allowset entries must be strings");
        }
        i += 1;
    }
    Ok(())
}

pub fn check_region_version(_k: &str, v: &Json, snap: &Snapshot) -> (r: Result<(), &'static str>)
    ensures
        refusal(r) == check_refusal(Check::RegionVersion, _k@, v@, snap@),
{
    let n: i64 = match as_i64(v) {
        Ok(n) => n,
        Err(e) => return Err(e),
    };
    if n < 1 {
        return Err("region_allowset_version must be >= 1");
    }
    if let Some(p) = prior_i64(snap, "region_allowset_version") {
        if n != p && n as i128 != p as i128 + 1 {
            return Err("region_allowset_version must increase by 1");
        }
    }
    Ok(())
}

pub fn check_approve_daily(_k: &str, v: &Json, snap: &Snapshot) -> (r: Result<(), &'static str>)
    ensures
        refusal(r) == check_refusal(Check::ApproveDaily, _k@, v@, snap@),
{
    ranged_factor(
        v,
        prior_i64(snap, "withdraw_approve_daily_cap_micro"),
        1_000_000,
        10_000_000_000_000,
        4,
        5_000_000_000,
    )
}

pub fn check_reserve_topup(_k: &str, v: &Json, snap: &Snapshot) -> (r: Result<(), &'static str>)
    ensures
        refusal(r) == check_refusal(Check::ReserveTopup, _k@, v@, snap@),
{
    ranged_factor(
        v,
        prior_i64(snap, "bonus_reserve_topup_daily_cap_micro"),
        1_000_000,
        1_000_000_000_000,
        4,
        1_000_000_000,
    )
}

pub fn check_fee_override(_k: &str, v: &Json, _s: &Snapshot) -> (r: Result<(), &'static str>)
    ensures
        refusal(r) == check_refusal(Check::FeeOverride, _k@, v@, _s@),
{
    if let Some(s) = v.as_str() {
        if text::same_text(s, "inherit") {
            return Ok(());
        }
    }
    if let Some(members) = v.as_object() {
        if members.len() == 1 {
            if let Some(inner) = json::find_member(members.as_slice(), "override") {
                if let Some(bps) = inner.as_i64() {
                    return bounded(bps, 10, 200);
                }
            }
        }
    }
    Err("fee override must be inherit or override(bps)")
}

impl Check {
    /// Holds a value to this rule. Prior values are read from `snap`.
    pub fn run(self, key: &str, v: &Json, snap: &Snapshot) -> (r: Result<(), &'static str>)
        ensures
            refusal(r) == check_refusal(self, key@, v@, snap@),
    {
        match self {
            Check::TradeFee => check_trade_fee(key, v, snap),
            Check::MinFee => check_min_fee(key, v, snap),
            Check::FlipWindow => check_flip_window(key, v, snap),
            Check::Discounts => check_discounts(key, v, snap),
            Check::PositionCaps => check_position_caps(key, v, snap),
            Check::TierThresholds => check_tier_thresholds(key, v, snap),
            Check::MinPot => check_min_pot(key, v, snap),
            Check::Seed => check_seed(key, v, snap),
            Check::SeedBudget => check_seed_budget(key, v, snap),
            Check::HiddenWindow => check_hidden_window(key, v, snap),
            Check::MinVotesFloor => check_min_votes_floor(key, v, snap),
            Check::OiFloor => check_oi_floor(key, v, snap),
            Check::HoldThreshold => check_hold_threshold(key, v, snap),
            Check::SweepDelay => check_sweep_delay(key, v, snap),
            Check::MaxVotes => check_max_votes(key, v, snap),
            Check::VoteWindow => check_vote_window(key, v, snap),
            Check::IntegrityPpm => check_integrity_ppm(key, v, snap),
            Check::Cadence => check_cadence(key, v, snap),
            Check::DailySlots => check_daily_slots(key, v, snap),
            Check::Bool => check_bool(key, v, snap),
            Check::FaucetCap => check_faucet_cap(key, v, snap),
            Check::RemedialMarketCap => check_remedial_market_cap(key, v, snap),
            Check::RemedialDailyCap => check_remedial_daily_cap(key, v, snap),
            Check::ReceivableCap => check_receivable_cap(key, v, snap),
            Check::WriteoffItemCap => check_writeoff_item_cap(key, v, snap),
            Check::WriteoffDailyCap => check_writeoff_daily_cap(key, v, snap),
            Check::ProposalTtl => check_proposal_ttl(key, v, snap),
            Check::DualDelay => check_dual_delay(key, v, snap),
            Check::KycTier => check_kyc_tier(key, v, snap),
            Check::WithdrawMin => check_withdraw_min(key, v, snap),
            Check::WithdrawMax => check_withdraw_max(key, v, snap),
            Check::WithdrawDaily => check_withdraw_daily(key, v, snap),
            Check::AutoApprove => check_auto_approve(key, v, snap),
            Check::DualControl => check_dual_control(key, v, snap),
            Check::WarmFloor => check_warm_floor(key, v, snap),
            Check::WarmAge => check_warm_age(key, v, snap),
            Check::DestDaily => check_dest_daily(key, v, snap),
            Check::HotWallet => check_hot_wallet(key, v, snap),
            Check::Confirmations => check_confirmations(key, v, snap),
            Check::CreditGrant => check_credit_grant(key, v, snap),
            Check::ReferralMin => check_referral_min(key, v, snap),
            Check::BonusMint => check_bonus_mint(key, v, snap),
            Check::BonusStructure => check_bonus_structure(key, v, snap),
            Check::AmlVelocity => check_aml_velocity(key, v, snap),
            Check::StructuringN => check_structuring_n(key, v, snap),
            Check::StructuringWindow => check_structuring_window(key, v, snap),
            Check::StructuringThreshold => check_structuring_threshold(key, v, snap),
            Check::StructuringFloor => check_structuring_floor(key, v, snap),
            Check::ShadowCap => check_shadow_cap(key, v, snap),
            Check::StuckSla => check_stuck_sla(key, v, snap),
            Check::RegionAllowset => check_region_allowset(key, v, snap),
            Check::RegionVersion => check_region_version(key, v, snap),
            Check::ApproveDaily => check_approve_daily(key, v, snap),
            Check::ReserveTopup => check_reserve_topup(key, v, snap),
            Check::FeeOverride => check_fee_override(key, v, snap),
        }
    }
}

/// The values that a plain range admits, bounds included.
pub proof fn law_plain_ranges(n: int, key: Seq<char>, values: Values)
    ensures
        check_refusal(Check::FlipWindow, key, JsonView::Int(n), values) is None <==> 600 <= n <= 86_400,
        check_refusal(Check::HiddenWindow, key, JsonView::Int(n), values) is None <==> 60 <= n <= 900,
        check_refusal(Check::OiFloor, key, JsonView::Int(n), values) is None <==> 0 <= n <= 1_000_000_000,
        check_refusal(Check::MaxVotes, key, JsonView::Int(n), values) is None <==> 15 <= n <= 45,
        check_refusal(Check::VoteWindow, key, JsonView::Int(n), values) is None <==> 1_800 <= n <= 5_400,
        check_refusal(Check::Cadence, key, JsonView::Int(n), values) is None <==> 900 <= n <= 86_400,
        check_refusal(Check::RemedialMarketCap, key, JsonView::Int(n), values) is None <==> 0 <= n <= 500_000_000,
        check_refusal(Check::RemedialDailyCap, key, JsonView::Int(n), values) is None <==> 0 <= n <= 2_000_000_000,
        check_refusal(Check::ReceivableCap, key, JsonView::Int(n), values) is None <==> 0 <= n <= 1_000_000_000_000,
        check_refusal(Check::WriteoffItemCap, key, JsonView::Int(n), values) is None <==> 0 <= n <= 500_000_000,
        check_refusal(Check::WriteoffDailyCap, key, JsonView::Int(n), values) is None <==> 0 <= n <= 2_000_000_000,
        check_refusal(Check::ProposalTtl, key, JsonView::Int(n), values) is None <==> 60 <= n <= 3_600,
        check_refusal(Check::DualDelay, key, JsonView::Int(n), values) is None <==> 0 <= n <= 86_400,
        check_refusal(Check::MinVotesFloor, key, JsonView::Int(n), values) is None <==> n >= 3,
        check_refusal(Check::Bool, key, JsonView::Int(n), values) is Some,
        check_refusal(Check::Bool, key, JsonView::Bool(true), values) is None,
        check_refusal(Check::Bool, key, JsonView::Bool(false), values) is None,
        check_refusal(Check::FlipWindow, key, JsonView::Bool(true), values) is Some,
{
}

/// The values that may follow a prior one in one step: within the bounds, and no
/// further from it than the step.
pub proof fn law_limited_steps(n: int, p: int, key: Seq<char>, values: Values)
    ensures
        snapshot::value_at(values, "trade_fee_bps"@) == Some(JsonView::Int(p)) ==> (check_refusal(
            Check::TradeFee,
            key,
            JsonView::Int(n),
            values,
        ) is None <==> 10 <= n <= 200 && -20 <= n - p <= 20),
        snapshot::value_at(values, "trade_fee_bps"@) is None ==> (check_refusal(
            Check::TradeFee,
            key,
            JsonView::Int(n),
            values,
        ) is None <==> 10 <= n <= 200),
        snapshot::value_at(values, "min_fee_bps"@) == Some(JsonView::Int(p)) ==> (check_refusal(
            Check::MinFee,
            key,
            JsonView::Int(n),
            values,
        ) is None <==> 0 <= n <= 50 && -10 <= n - p <= 10),
        snapshot::value_at(values, "min_fee_bps"@) is None ==> (check_refusal(
            Check::MinFee,
            key,
            JsonView::Int(n),
            values,
        ) is None <==> 0 <= n <= 50),
        snapshot::value_at(values, "daily_slots"@) == Some(JsonView::Int(p)) ==> (check_refusal(
            Check::DailySlots,
            key,
            JsonView::Int(n),
            values,
        ) is None <==> 1 <= n <= 4 && -1 <= n - p <= 1),
        snapshot::value_at(values, "daily_slots"@) is None ==> (check_refusal(
            Check::DailySlots,
            key,
            JsonView::Int(n),
            values,
        ) is None <==> 1 <= n <= 4),
{
}

/// The values that may follow a positive prior one: within the bounds, at most
/// twice it and at least half of it.
pub proof fn law_doubling_steps(n: int, p: int, key: Seq<char>, values: Values)
    requires
        p > 0,
    ensures
        snapshot::value_at(values, "rep_score_min_pot_micro"@) == Some(JsonView::Int(p)) ==> (check_refusal(
            Check::MinPot,
            key,
            JsonView::Int(n),
            values,
        ) is None <==> 0 <= n <= 1_000_000_000 && n <= 2 * p && p <= 2 * n + 1),
        snapshot::value_at(values, "daily_seed_budget_micro"@) == Some(JsonView::Int(p)) ==> (check_refusal(
            Check::SeedBudget,
            key,
            JsonView::Int(n),
            values,
        ) is None <==> 1_000_000 <= n <= 100_000_000_000 && n <= 2 * p && p <= 2 * n + 1),
        snapshot::value_at(values, "payout_hold_threshold_micro"@) == Some(JsonView::Int(p)) ==> (check_refusal(
            Check::HoldThreshold,
            key,
            JsonView::Int(n),
            values,
        ) is None <==> 1_000_000 <= n <= 10_000_000_000 && n <= 2 * p && p <= 2 * n + 1),
        snapshot::value_at(values, "sweep_delay_secs"@) == Some(JsonView::Int(p)) ==> (check_refusal(
            Check::SweepDelay,
            key,
            JsonView::Int(n),
            values,
        ) is None <==> 60 <= n <= 3_600 && n <= 2 * p && p <= 2 * n + 1),
        snapshot::value_at(values, "faucet_per_call_cap_micro"@) == Some(JsonView::Int(p)) ==> (check_refusal(
            Check::FaucetCap,
            key,
            JsonView::Int(n),
            values,
        ) is None <==> 0 <= n <= 1_000_000_000 && n <= 2 * p && p <= 2 * n + 1),
        snapshot::value_at(values, key) == Some(JsonView::Int(p)) ==> (check_refusal(
            Check::Seed,
            key,
            JsonView::Int(n),
            values,
        ) is None <==> n > 0 && n <= 2 * p && p <= 2 * n + 1),
{
}

proof fn lemma_factor(p: int, n: int, factor: int, seed: int)
    ensures
        factor_refusal(Some(0), n, factor, seed) is None <==> n == 0 || n <= seed,
        p > 0 && factor > 1 ==> (factor_refusal(Some(p), n, factor, seed) is None <==> n == 0 || (n
            <= factor * p && p < factor * (n + 1))),
        p > 0 && factor == 1 ==> (factor_refusal(Some(p), n, factor, seed) is None <==> n == 0 || n
            <= p),
{
    if p > 0 && factor > 1 {
        crate::money::lemma_floor(p, factor);
        let q = p / factor;
        assert(factor * p == p * factor) by (nonlinear_arith);
        assert(n >= q ==> factor * (n + 1) >= (q + 1) * factor) by (nonlinear_arith)
            requires
                factor > 1,
        ;
        assert(n < q ==> factor * (n + 1) <= q * factor) by (nonlinear_arith)
            requires
                factor > 1,
        ;
    }
    if factor == 1 {
        assert(p * factor == p) by (nonlinear_arith)
            requires
                factor == 1,
        ;
    }
}

/// The values of the money catalog that may follow a prior one: within the
/// bounds; from a positive value at most so many times it and at least so many
/// parts of it; from nothing at most the published seed. Zero is admitted wherever
/// the bounds admit it.
pub proof fn law_money_steps(n: int, p: int, key: Seq<char>, values: Values)
    requires
        p > 0,
    ensures
        snapshot::value_at(values, "withdraw_min_micro"@) == Some(JsonView::Int(p)) ==> (check_refusal(
            Check::WithdrawMin,
            key,
            JsonView::Int(n),
            values,
        ) is None <==> 1_000_000 <= n <= 1_000_000_000 && n <= 10 * p && p < 10 * (n + 1)),
        snapshot::value_at(values, "withdraw_min_micro"@) == Some(JsonView::Int(0)) ==> (check_refusal(
            Check::WithdrawMin,
            key,
            JsonView::Int(n),
            values,
        ) is None <==> 1_000_000 <= n <= 5_000_000),
        snapshot::value_at(values, "withdraw_max_micro"@) == Some(JsonView::Int(p)) ==> (check_refusal(
            Check::WithdrawMax,
            key,
            JsonView::Int(n),
            values,
        ) is None <==> 1_000_000 <= n <= 1_000_000_000_000 && n <= 10 * p && p < 10 * (n + 1)),
        snapshot::value_at(values, "withdraw_max_micro"@) == Some(JsonView::Int(0)) ==> (check_refusal(
            Check::WithdrawMax,
            key,
            JsonView::Int(n),
            values,
        ) is None <==> 1_000_000 <= n <= 1_000_000_000),
        snapshot::value_at(values, "withdraw_daily_limit_micro"@) == Some(JsonView::Int(p)) ==> (check_refusal(
            Check::WithdrawDaily,
            key,
            JsonView::Int(n),
            values,
        ) is None <==> 1_000_000 <= n <= 1_000_000_000_000 && n <= 10 * p && p < 10 * (n + 1)),
        snapshot::value_at(values, "withdraw_daily_limit_micro"@) == Some(JsonView::Int(0)) ==> (check_refusal(
            Check::WithdrawDaily,
            key,
            JsonView::Int(n),
            values,
        ) is None <==> 1_000_000 <= n <= 2_000_000_000),
        snapshot::value_at(values, "withdraw_auto_approve_micro"@) == Some(JsonView::Int(p)) ==> (check_refusal(
            Check::AutoApprove,
            key,
            JsonView::Int(n),
            values,
        ) is None <==> 0 <= n <= 1_000_000_000 && (n == 0 || (n <= 10 * p && p < 10 * (n + 1)))),
        snapshot::value_at(values, "withdraw_auto_approve_micro"@) == Some(JsonView::Int(0)) ==> (check_refusal(
            Check::AutoApprove,
            key,
            JsonView::Int(n),
            values,
        ) is None <==> 0 <= n <= 50_000_000),
        snapshot::value_at(values, "withdraw_dual_control_micro"@) == Some(JsonView::Int(p)) ==> (check_refusal(
            Check::DualControl,
            key,
            JsonView::Int(n),
            values,
        ) is None <==> 1_000_000 <= n <= 1_000_000_000_000 && n <= 10 * p && p < 10 * (n + 1)),
        snapshot::value_at(values, "withdraw_dual_control_micro"@) == Some(JsonView::Int(0)) ==> (check_refusal(
            Check::DualControl,
            key,
            JsonView::Int(n),
            values,
        ) is None <==> 1_000_000 <= n <= 500_000_000),
        snapshot::value_at(values, "dest_warm_floor_micro"@) == Some(JsonView::Int(p)) ==> (check_refusal(
            Check::WarmFloor,
            key,
            JsonView::Int(n),
            values,
        ) is None <==> 1_000_000 <= n <= 1_000_000_000 && n <= 10 * p && p < 10 * (n + 1)),
        snapshot::value_at(values, "dest_warm_floor_micro"@) == Some(JsonView::Int(0)) ==> (check_refusal(
            Check::WarmFloor,
            key,
            JsonView::Int(n),
            values,
        ) is None <==> 1_000_000 <= n <= 100_000_000),
        snapshot::value_at(values, "dest_warm_age_hours"@) == Some(JsonView::Int(p)) ==> (check_refusal(
            Check::WarmAge,
            key,
            JsonView::Int(n),
            values,
        ) is None <==> 1 <= n <= 720 && n <= 4 * p && p < 4 * (n + 1)),
        snapshot::value_at(values, "dest_warm_age_hours"@) == Some(JsonView::Int(0)) ==> (check_refusal(
            Check::WarmAge,
            key,
            JsonView::Int(n),
            values,
        ) is None <==> 1 <= n <= 72),
        snapshot::value_at(values, "dest_daily_limit_micro"@) == Some(JsonView::Int(p)) ==> (check_refusal(
            Check::DestDaily,
            key,
            JsonView::Int(n),
            values,
        ) is None <==> 1_000_000 <= n <= 1_000_000_000_000 && n <= 10 * p && p < 10 * (n + 1)),
        snapshot::value_at(values, "dest_daily_limit_micro"@) == Some(JsonView::Int(0)) ==> (check_refusal(
            Check::DestDaily,
            key,
            JsonView::Int(n),
            values,
        ) is None <==> 1_000_000 <= n <= 1_000_000_000),
        snapshot::value_at(values, "hot_wallet_daily_limit_micro"@) == Some(JsonView::Int(p)) ==> (check_refusal(
            Check::HotWallet,
            key,
            JsonView::Int(n),
            values,
        ) is None <==> 1_000_000 <= n <= 10_000_000_000_000 && n <= 4 * p && p < 4 * (n + 1)),
        snapshot::value_at(values, "hot_wallet_daily_limit_micro"@) == Some(JsonView::Int(0)) ==> (check_refusal(
            Check::HotWallet,
            key,
            JsonView::Int(n),
            values,
        ) is None <==> 1_000_000 <= n <= 10_000_000_000),
        snapshot::value_at(values, "deposit_confirmations"@) == Some(JsonView::Int(p)) ==> (check_refusal(
            Check::Confirmations,
            key,
            JsonView::Int(n),
            values,
        ) is None <==> 1 <= n <= 300 && n <= 4 * p && p < 4 * (n + 1)),
        snapshot::value_at(values, "deposit_confirmations"@) == Some(JsonView::Int(0)) ==> (check_refusal(
            Check::Confirmations,
            key,
            JsonView::Int(n),
            values,
        ) is None <==> 1 <= n <= 32),
        snapshot::value_at(values, key) == Some(JsonView::Int(p)) ==> (check_refusal(
            Check::CreditGrant,
            key,
            JsonView::Int(n),
            values,
        ) is None <==> 0 <= n <= 100_000_000 && (n == 0 || (n <= 4 * p && p < 4 * (n + 1)))),
        snapshot::value_at(values, key) == Some(JsonView::Int(0)) ==> (check_refusal(
            Check::CreditGrant,
            key,
            JsonView::Int(n),
            values,
        ) is None <==> 0 <= n <= 5_000_000),
        snapshot::value_at(values, "referral_min_notional_micro"@) == Some(JsonView::Int(p)) ==> (check_refusal(
            Check::ReferralMin,
            key,
            JsonView::Int(n),
            values,
        ) is None <==> 1_000_000 <= n <= 1_000_000_000 && n <= 10 * p && p < 10 * (n + 1)),
        snapshot::value_at(values, "referral_min_notional_micro"@) == Some(JsonView::Int(0)) ==> (check_refusal(
            Check::ReferralMin,
            key,
            JsonView::Int(n),
            values,
        ) is None <==> 1_000_000 <= n <= 10_000_000),
        snapshot::value_at(values, "bonus_mint_daily_cap_micro"@) == Some(JsonView::Int(p)) ==> (check_refusal(
            Check::BonusMint,
            key,
            JsonView::Int(n),
            values,
        ) is None <==> 0 <= n <= 10_000_000_000 && (n == 0 || (n <= 4 * p && p < 4 * (n + 1)))),
        snapshot::value_at(values, "bonus_mint_daily_cap_micro"@) == Some(JsonView::Int(0)) ==> (check_refusal(
            Check::BonusMint,
            key,
            JsonView::Int(n),
            values,
        ) is None <==> 0 <= n <= 500_000_000),
        snapshot::value_at(values, key) == Some(JsonView::Int(p)) ==> (check_refusal(
            Check::AmlVelocity,
            key,
            JsonView::Int(n),
            values,
        ) is None <==> 1_000_000 <= n <= 1_000_000_000_000 && n <= 4 * p && p < 4 * (n + 1)),
        snapshot::value_at(values, key) == Some(JsonView::Int(0)) ==> (check_refusal(
            Check::AmlVelocity,
            key,
            JsonView::Int(n),
            values,
        ) is None <==> 1_000_000 <= n <= 5_000_000_000),
        snapshot::value_at(values, "aml_structuring_n"@) == Some(JsonView::Int(p)) ==> (check_refusal(
            Check::StructuringN,
            key,
            JsonView::Int(n),
            values,
        ) is None <==> 2 <= n <= 100 && n <= 4 * p && p < 4 * (n + 1)),
        snapshot::value_at(values, "aml_structuring_n"@) == Some(JsonView::Int(0)) ==> (check_refusal(
            Check::StructuringN,
            key,
            JsonView::Int(n),
            values,
        ) is None <==> 2 <= n <= 4),
        snapshot::value_at(values, "aml_structuring_window_hours"@) == Some(JsonView::Int(p)) ==> (check_refusal(
            Check::StructuringWindow,
            key,
            JsonView::Int(n),
            values,
        ) is None <==> 1 <= n <= 168 && n <= 4 * p && p < 4 * (n + 1)),
        snapshot::value_at(values, "aml_structuring_window_hours"@) == Some(JsonView::Int(0)) ==> (check_refusal(
            Check::StructuringWindow,
            key,
            JsonView::Int(n),
            values,
        ) is None <==> 1 <= n <= 24),
        snapshot::value_at(values, "aml_structuring_threshold_micro"@) == Some(JsonView::Int(p)) ==> (check_refusal(
            Check::StructuringThreshold,
            key,
            JsonView::Int(n),
            values,
        ) is None <==> 100_000_000 <= n <= 10_000_000_000 && n <= 4 * p && p < 4 * (n + 1)),
        snapshot::value_at(values, "aml_structuring_threshold_micro"@) == Some(JsonView::Int(0)) ==> (check_refusal(
            Check::StructuringThreshold,
            key,
            JsonView::Int(n),
            values,
        ) is None <==> 100_000_000 <= n <= 500_000_000),
        snapshot::value_at(values, "aml_structuring_floor_micro"@) == Some(JsonView::Int(p)) ==> (check_refusal(
            Check::StructuringFloor,
            key,
            JsonView::Int(n),
            values,
        ) is None <==> 10_000_000 <= n <= 1_000_000_000 && n <= 4 * p && p < 4 * (n + 1)),
        snapshot::value_at(values, "aml_structuring_floor_micro"@) == Some(JsonView::Int(0)) ==> (check_refusal(
            Check::StructuringFloor,
            key,
            JsonView::Int(n),
            values,
        ) is None <==> 10_000_000 <= n <= 100_000_000),
        snapshot::value_at(values, key) == Some(JsonView::Int(p)) ==> (check_refusal(
            Check::ShadowCap,
            key,
            JsonView::Int(n),
            values,
        ) is None <==> 0 <= n <= 1_000_000_000 && (n == 0 || (n <= 10 * p && p < 10 * (n + 1)))),
        snapshot::value_at(values, key) == Some(JsonView::Int(0)) ==> (check_refusal(
            Check::ShadowCap,
            key,
            JsonView::Int(n),
            values,
        ) is None <==> 0 <= n <= 25_000_000),
        snapshot::value_at(values, key) == Some(JsonView::Int(p)) ==> (check_refusal(
            Check::StuckSla,
            key,
            JsonView::Int(n),
            values,
        ) is None <==> 60 <= n <= 86_400 && n <= 4 * p && p < 4 * (n + 1)),
        snapshot::value_at(values, key) == Some(JsonView::Int(0)) ==> (check_refusal(
            Check::StuckSla,
            key,
            JsonView::Int(n),
            values,
        ) is None <==> 60 <= n <= 900),
        snapshot::value_at(values, "withdraw_approve_daily_cap_micro"@) == Some(JsonView::Int(p)) ==> (check_refusal(
            Check::ApproveDaily,
            key,
            JsonView::Int(n),
            values,
        ) is None <==> 1_000_000 <= n <= 10_000_000_000_000 && n <= 4 * p && p < 4 * (n + 1)),
        snapshot::value_at(values, "withdraw_approve_daily_cap_micro"@) == Some(JsonView::Int(0)) ==> (check_refusal(
            Check::ApproveDaily,
            key,
            JsonView::Int(n),
            values,
        ) is None <==> 1_000_000 <= n <= 5_000_000_000),
        snapshot::value_at(values, "bonus_reserve_topup_daily_cap_micro"@) == Some(JsonView::Int(p)) ==> (check_refusal(
            Check::ReserveTopup,
            key,
            JsonView::Int(n),
            values,
        ) is None <==> 1_000_000 <= n <= 1_000_000_000_000 && n <= 4 * p && p < 4 * (n + 1)),
        snapshot::value_at(values, "bonus_reserve_topup_daily_cap_micro"@) == Some(JsonView::Int(0)) ==> (check_refusal(
            Check::ReserveTopup,
            key,
            JsonView::Int(n),
            values,
        ) is None <==> 1_000_000 <= n <= 1_000_000_000),
{
    lemma_factor(p, n, 10, 5_000_000);
    lemma_factor(p, n, 10, 1_000_000_000);
    lemma_factor(p, n, 10, 2_000_000_000);
    lemma_factor(p, n, 10, 50_000_000);
    lemma_factor(p, n, 10, 500_000_000);
    lemma_factor(p, n, 10, 100_000_000);
    lemma_factor(p, n, 10, 10_000_000);
    lemma_factor(p, n, 10, 25_000_000);
    lemma_factor(p, n, 4, 72);
    lemma_factor(p, n, 4, 10_000_000_000);
    lemma_factor(p, n, 4, 32);
    lemma_factor(p, n, 4, 5_000_000);
    lemma_factor(p, n, 4, 500_000_000);
    lemma_factor(p, n, 4, 5_000_000_000);
    lemma_factor(p, n, 4, 4);
    lemma_factor(p, n, 4, 24);
    lemma_factor(p, n, 4, 100_000_000);
    lemma_factor(p, n, 4, 900);
    lemma_factor(p, n, 4, 1_000_000_000);
}

/// A tier of checks may only fall, one step at a time or all at once, and comes
/// back to at most its published one.
pub proof fn law_kyc_tiers_only_fall(n: int, p: int, key: Seq<char>, values: Values)
    requires
        p > 0,
    ensures
        snapshot::value_at(values, key) == Some(JsonView::Int(p)) ==> (check_refusal(
            Check::KycTier,
            key,
            JsonView::Int(n),
            values,
        ) is None <==> 0 <= n <= 2 && n <= p),
        snapshot::value_at(values, "deposit_kyc_tier"@) == Some(JsonView::Int(0)) ==> (
        check_refusal(
            Check::KycTier,
            "deposit_kyc_tier"@,
            JsonView::Int(n),
            values,
        ) is None <==> 0 <= n <= 1),
{
    lemma_factor(p, n, 1, 1);
    lemma_factor(p, n, 1, 2);
    reveal_strlit("deposit_kyc_tier");
    reveal_strlit("deposit");
    let k = "deposit_kyc_tier"@;
    assert(k.subrange(0, 7) =~= "deposit"@);
    lemma_occurs_counts(k, "deposit"@, 0, k.len());
}

proof fn lemma_occurs_counts(whole: Seq<char>, part: Seq<char>, i: int, n: nat)
    requires
        text::occurs_at(whole, part, i),
        0 <= i < n,
    ensures
        text::occurrences(whole, part, n) > 0,
    decreases n,
{
    if i < n - 1 {
        lemma_occurs_counts(whole, part, i, (n - 1) as nat);
    } else {
        lemma_occurrences_positive(whole, part, (n - 1) as nat);
    }
}

proof fn lemma_occurrences_positive(whole: Seq<char>, part: Seq<char>, n: nat)
    ensures
        text::occurrences(whole, part, n) >= 0,
    decreases n,
{
    if n > 0 {
        lemma_occurrences_positive(whole, part, (n - 1) as nat);
    }
}

/// An integrity knob stays within a fifth of its published default, whatever it
/// is now.
pub proof fn law_integrity_knobs_stay_near_their_defaults(n: int, values: Values)
    ensures
        check_refusal(
            Check::IntegrityPpm,
            "integrity_burst_multiplier_ppm"@,
            JsonView::Int(n),
            values,
        ) is None <==> 1_600_000 <= n <= 2_400_000,
        check_refusal(
            Check::IntegrityPpm,
            "integrity_young_share_max_ppm"@,
            JsonView::Int(n),
            values,
        ) is None <==> 400_000 <= n <= 600_000,
        check_refusal(
            Check::IntegrityPpm,
            "integrity_device_share_max_ppm"@,
            JsonView::Int(n),
            values,
        ) is None <==> 480_000 <= n <= 720_000,
        check_refusal(
            Check::IntegrityPpm,
            "integrity_subnet_share_max_ppm"@,
            JsonView::Int(n),
            values,
        ) is None <==> 480_000 <= n <= 720_000,
        check_refusal(
            Check::IntegrityPpm,
            "integrity_min_metadata_coverage_ppm"@,
            JsonView::Int(n),
            values,
        ) is None <==> 400_000 <= n <= 600_000,
{
    reveal_strlit("integrity_burst_multiplier_ppm");
    reveal_strlit("integrity_young_share_max_ppm");
    reveal_strlit("integrity_device_share_max_ppm");
    reveal_strlit("integrity_subnet_share_max_ppm");
    reveal_strlit("integrity_min_metadata_coverage_ppm");
    let burst = "integrity_burst_multiplier_ppm"@;
    let young = "integrity_young_share_max_ppm"@;
    let device = "integrity_device_share_max_ppm"@;
    let subnet = "integrity_subnet_share_max_ppm"@;
    let coverage = "integrity_min_metadata_coverage_ppm"@;
    assert(burst[10] == 'b' && young[10] == 'y' && device[10] == 'd' && subnet[10] == 's'
        && coverage[10] == 'm');
}

/// The list of the numbers, as a document.
pub open spec fn number_list(list: Seq<int>) -> JsonView {
    JsonView::Array(Seq::new(list.len(), |i: int| JsonView::Int(list[i])))
}

proof fn lemma_number_list(list: Seq<int>)
    requires
        list.len() == 5,
    ensures
        int_list(number_list(list), 5) == Ok::<Seq<int>, Seq<char>>(list),
{
    let items = Seq::new(list.len(), |i: int| JsonView::Int(list[i]));
    assert(ints(items) =~= list);
}

/// Position caps are five numbers that never fall, none below the published
/// table.
pub proof fn law_caps_stay_above_the_published_table(
    list: Seq<int>,
    key: Seq<char>,
    values: Values,
)
    requires
        list.len() == 5,
    ensures
        check_refusal(Check::PositionCaps, key, number_list(list), values) is None <==> list[0]
            >= 25_000_000 && list[1] >= 50_000_000 && list[2] >= 100_000_000 && list[3]
            >= 250_000_000 && list[4] >= 500_000_000 && list[0] <= list[1] <= list[2] <= list[3]
            <= list[4],
{
    lemma_number_list(list);
    if list[0] <= list[1] <= list[2] <= list[3] <= list[4] {
        assert forall|i: int| 0 < i < list.len() implies list[i - 1] <= #[trigger] list[i] by {
            if i == 1 || i == 2 || i == 3 || i == 4 {
            }
        }
    } else if non_decreasing(list) {
        assert(list[1 - 1] <= list[1] && list[2 - 1] <= list[2] && list[3 - 1] <= list[3] && list[4
            - 1] <= list[4]);
    }
}

/// Discounts are five numbers that never fall, each between nothing and the fee
/// and within ten basis points of what it was.
pub proof fn law_discounts_move_in_small_steps(
    list: Seq<int>,
    was: Seq<int>,
    base: int,
    key: Seq<char>,
    values: Values,
)
    requires
        list.len() == 5,
        was.len() == 5,
        snapshot::value_at(values, "trade_fee_bps"@) == Some(JsonView::Int(base)),
        snapshot::value_at(values, "fee_discount_bp_by_tier"@) == Some(number_list(was)),
    ensures
        check_refusal(Check::Discounts, key, number_list(list), values) is None <==> list[0]
            <= list[1] <= list[2] <= list[3] <= list[4] && 0 <= list[0] && list[4] <= base && -10
            <= list[0] - was[0] <= 10 && -10 <= list[1] - was[1] <= 10 && -10 <= list[2] - was[2]
            <= 10 && -10 <= list[3] - was[3] <= 10 && -10 <= list[4] - was[4] <= 10,
{
    lemma_number_list(list);
    lemma_number_list(was);
    if check_refusal(Check::Discounts, key, number_list(list), values) is None {
        assert(list[1 - 1] <= list[1] && list[2 - 1] <= list[2] && list[3 - 1] <= list[3] && list[4
            - 1] <= list[4]);
        assert(gap(list[0], was[0]) <= 10 && gap(list[1], was[1]) <= 10 && gap(list[2], was[2])
            <= 10 && gap(list[3], was[3]) <= 10 && gap(list[4], was[4]) <= 10);
        assert(list[0] >= 0 && list[4] <= base);
    } else if list[0] <= list[1] <= list[2] <= list[3] <= list[4] && 0 <= list[0] && list[4] <= base
        && -10 <= list[0] - was[0] <= 10 && -10 <= list[1] - was[1] <= 10 && -10 <= list[2] - was[2]
        <= 10 && -10 <= list[3] - was[3] <= 10 && -10 <= list[4] - was[4] <= 10 {
        assert forall|i: int| 0 < i < list.len() implies list[i - 1] <= #[trigger] list[i] by {
            if i == 1 || i == 2 || i == 3 || i == 4 {
            }
        }
        assert forall|i: int| 0 <= i < 5 implies 0 <= #[trigger] list[i] <= base && gap(
            list[i],
            was[i],
        ) <= 10 by {
            if i == 0 || i == 1 || i == 2 || i == 3 || i == 4 {
            }
        }
        assert(false);
    }
}

/// Reputation thresholds are five numbers that never fall, each within a tenth of
/// what it was.
pub proof fn law_thresholds_move_by_a_tenth(
    list: Seq<int>,
    was: Seq<int>,
    key: Seq<char>,
    values: Values,
)
    requires
        list.len() == 5,
        was.len() == 5,
        forall|i: int| 0 <= i < 5 ==> #[trigger] was[i] >= 0,
        snapshot::value_at(values, "rep_tier_thresholds_micro"@) == Some(number_list(was)),
    ensures
        check_refusal(Check::TierThresholds, key, number_list(list), values) is None <==> list[0]
            <= list[1] <= list[2] <= list[3] <= list[4] && (forall|i: int|
            0 <= i < 5 ==> -was[i] <= 10 * (#[trigger] list[i] - was[i]) <= was[i]),
{
    lemma_number_list(list);
    lemma_number_list(was);
    assert forall|i: int| 0 <= i < 5 implies (gap(#[trigger] list[i], was[i]) <= tenth(was[i])
        <==> -was[i] <= 10 * (list[i] - was[i]) <= was[i]) by {
        assert(was[i] >= 0);
    }
    if check_refusal(Check::TierThresholds, key, number_list(list), values) is None {
        assert(list[1 - 1] <= list[1] && list[2 - 1] <= list[2] && list[3 - 1] <= list[3] && list[4
            - 1] <= list[4]);
        assert forall|i: int| 0 <= i < 5 implies -was[i] <= 10 * (#[trigger] list[i] - was[i])
            <= was[i] by {
            assert(gap(list[i], was[i]) <= tenth(was[i]));
        }
    } else if list[0] <= list[1] <= list[2] <= list[3] <= list[4] {
        assert forall|i: int| 0 < i < list.len() implies list[i - 1] <= #[trigger] list[i] by {
            if i == 1 || i == 2 || i == 3 || i == 4 {
            }
        }
        let i = choose|i: int| 0 <= i < 5 && gap(#[trigger] list[i], was[i]) > tenth(was[i]);
        assert(!(-was[i] <= 10 * (list[i] - was[i]) <= was[i]));
    }
}

/// A region list names at least one region, all by text; its version stays or
/// goes up by one, and starts no lower than one.
pub proof fn law_region_lists_are_versioned(
    n: int,
    p: int,
    region: Seq<char>,
    key: Seq<char>,
    values: Values,
)
    ensures
        check_refusal(
            Check::RegionAllowset,
            key,
            JsonView::Array(Seq::<JsonView>::empty()),
            values,
        ) is Some,
        check_refusal(
            Check::RegionAllowset,
            key,
            JsonView::Array(seq![JsonView::Text(region)]),
            values,
        ) is None,
        check_refusal(
            Check::RegionAllowset,
            key,
            JsonView::Array(seq![JsonView::Text(region), JsonView::Int(n)]),
            values,
        ) is Some,
        snapshot::value_at(values, "region_allowset_version"@) == Some(JsonView::Int(p)) ==> (
        check_refusal(Check::RegionVersion, key, JsonView::Int(n), values) is None <==> n >= 1 && (n
            == p || n == p + 1)),
        snapshot::value_at(values, "region_allowset_version"@) is None ==> (check_refusal(
            Check::RegionVersion,
            key,
            JsonView::Int(n),
            values,
        ) is None <==> n >= 1),
{
    let one = seq![JsonView::Text(region)];
    let two = seq![JsonView::Text(region), JsonView::Int(n)];
    assert(json::text_of(two[1]) is None);
    assert(json::text_of(one[0]) is Some);
}

/// A stored fee override inherits or lies between 10 and 200 basis points.
pub proof fn law_stored_overrides_stay_within_bounds(n: int, key: Seq<char>, values: Values)
    ensures
        check_refusal(
            Check::FeeOverride,
            key,
            JsonView::Object(seq![("override"@, JsonView::Int(n))]),
            values,
        ) is None <==> 10 <= n <= 200,
        check_refusal(Check::FeeOverride, key, JsonView::Text("inherit"@), values) is None,
        check_refusal(Check::FeeOverride, key, JsonView::Int(n), values) is Some,
        check_refusal(Check::BonusStructure, key, JsonView::Text("real_money"@), values) is None,
        check_refusal(Check::BonusStructure, key, JsonView::Text("sweeps"@), values) is None,
        check_refusal(Check::BonusStructure, key, JsonView::Int(n), values) is Some,
{
    let members = seq![("override"@, JsonView::Int(n))];
    assert(members.drop_last() =~= Seq::empty());
    assert(json::member_of(members, "override"@) == Some(JsonView::Int(n)));
}

} // verus!
