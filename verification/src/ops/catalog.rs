//! The configuration catalog: the complete list of typed keys with who may
//! write each, when a change takes effect and which rule its values obey.
//!
//! The catalog is data, not policy scattered through operations: the direct
//! write and the proposal flow both go through it, so a bound can never be
//! enforced on one path and forgotten on the other.

use crate::identity;
use crate::model::AdminRole;
use crate::ops::checks::Check;
use crate::text;
use vstd::prelude::*;

verus! {

/// When a committed change becomes visible to the product.
#[derive(Debug, Clone, Copy, PartialEq, Eq, Structural)]
pub enum ApplyClass {
    /// Stamped on the market row at go-live; never rewrites a live market.
    LiveImmutable,
    /// Read at the authoritative fence point of the next trade.
    NextTrade,
    /// New markets only (fee, seeds); a live book never reprices.
    NewMarketOnly,
    /// Pauses and flags: visible to the next fence-point read, globally.
    ImmediateGlobal,
}

/// Who may write a key, and through which flow.
#[derive(Debug, Clone, Copy, PartialEq, Eq, Structural)]
pub enum WriteRule {
    /// Applies directly when the actor holds the role.
    Direct(AdminRole),
    /// Sensitive: only the two-phase proposal flow, proposed by the listed
    /// role (or superadmin), confirmed by a distinct token.
    TwoPhase(AdminRole),
}

/// One catalog row. `pattern` keys end in `:` and match `pattern{uuid}`.
#[derive(Debug, Clone, Copy, PartialEq, Eq)]
pub struct CatalogRule {
    pub key: &'static str,
    pub pattern: bool,
    pub write: WriteRule,
    pub class: ApplyClass,
    pub check: Check,
}

/// One catalog row, its key as characters.
pub struct RuleView {
    pub key: Seq<char>,
    pub pattern: bool,
    pub write: WriteRule,
    pub class: ApplyClass,
    pub check: Check,
}

impl View for CatalogRule {
    type V = RuleView;

    open spec fn view(&self) -> RuleView {
        RuleView {
            key: self.key@,
            pattern: self.pattern,
            write: self.write,
            class: self.class,
            check: self.check,
        }
    }
}

/// What some catalog rows say.
pub open spec fn rows_view(rows: Seq<CatalogRule>) -> Seq<RuleView> {
    Seq::new(rows.len(), |i: int| rows[i]@)
}

/// One catalog row.
pub open spec fn row(
    key: Seq<char>,
    pattern: bool,
    write: WriteRule,
    class: ApplyClass,
    check: Check,
) -> RuleView {
    RuleView { key, pattern, write, class, check }
}

/// The complete catalog. Every key carries all four attributes.
#[verifier::opaque]
pub open spec fn catalog_rows() -> Seq<RuleView> {
    seq![
        row(
            "trade_fee_bps"@,
            false,
            WriteRule::TwoPhase(AdminRole::Finance),
            ApplyClass::NewMarketOnly,
            Check::TradeFee,
        ),
        row(
            "min_fee_bps"@,
            false,
            WriteRule::TwoPhase(AdminRole::Finance),
            ApplyClass::NextTrade,
            Check::MinFee,
        ),
        row(
            "discount_flip_window_secs"@,
            false,
            WriteRule::TwoPhase(AdminRole::Finance),
            ApplyClass::NextTrade,
            Check::FlipWindow,
        ),
        row(
            "fee_discount_bp_by_tier"@,
            false,
            WriteRule::TwoPhase(AdminRole::Finance),
            ApplyClass::NextTrade,
            Check::Discounts,
        ),
        row(
            "position_cap_micro_by_tier"@,
            false,
            WriteRule::TwoPhase(AdminRole::Finance),
            ApplyClass::NextTrade,
            Check::PositionCaps,
        ),
        row(
            "rep_tier_thresholds_micro"@,
            false,
            WriteRule::TwoPhase(AdminRole::Finance),
            ApplyClass::NextTrade,
            Check::TierThresholds,
        ),
        row(
            "rep_score_min_pot_micro"@,
            false,
            WriteRule::TwoPhase(AdminRole::Finance),
            ApplyClass::NextTrade,
            Check::MinPot,
        ),
        row(
            "seed_micro_daily"@,
            false,
            WriteRule::TwoPhase(AdminRole::Finance),
            ApplyClass::NewMarketOnly,
            Check::Seed,
        ),
        row(
            "seed_micro_flash"@,
            false,
            WriteRule::TwoPhase(AdminRole::Finance),
            ApplyClass::NewMarketOnly,
            Check::Seed,
        ),
        row(
            "daily_seed_budget_micro"@,
            false,
            WriteRule::TwoPhase(AdminRole::Finance),
            ApplyClass::NewMarketOnly,
            Check::SeedBudget,
        ),
        row(
            "hidden_window_secs"@,
            false,
            WriteRule::TwoPhase(AdminRole::Finance),
            ApplyClass::LiveImmutable,
            Check::HiddenWindow,
        ),
        row(
            "min_votes_to_resolve_floor"@,
            false,
            WriteRule::TwoPhase(AdminRole::Finance),
            ApplyClass::LiveImmutable,
            Check::MinVotesFloor,
        ),
        row(
            "oi_floor_micro"@,
            false,
            WriteRule::TwoPhase(AdminRole::Finance),
            ApplyClass::LiveImmutable,
            Check::OiFloor,
        ),
        row(
            "payout_hold_threshold_micro"@,
            false,
            WriteRule::TwoPhase(AdminRole::Finance),
            ApplyClass::LiveImmutable,
            Check::HoldThreshold,
        ),
        row(
            "sweep_delay_secs"@,
            false,
            WriteRule::Direct(AdminRole::Ops),
            ApplyClass::ImmediateGlobal,
            Check::SweepDelay,
        ),
        row(
            "max_votes_per_window"@,
            false,
            WriteRule::TwoPhase(AdminRole::Ops),
            ApplyClass::ImmediateGlobal,
            Check::MaxVotes,
        ),
        row(
            "vote_window_secs"@,
            false,
            WriteRule::TwoPhase(AdminRole::Ops),
            ApplyClass::ImmediateGlobal,
            Check::VoteWindow,
        ),
        row(
            "integrity_burst_multiplier_ppm"@,
            false,
            WriteRule::TwoPhase(AdminRole::Superadmin),
            ApplyClass::ImmediateGlobal,
            Check::IntegrityPpm,
        ),
        row(
            "integrity_young_share_max_ppm"@,
            false,
            WriteRule::TwoPhase(AdminRole::Superadmin),
            ApplyClass::ImmediateGlobal,
            Check::IntegrityPpm,
        ),
        row(
            "integrity_device_share_max_ppm"@,
            false,
            WriteRule::TwoPhase(AdminRole::Superadmin),
            ApplyClass::ImmediateGlobal,
            Check::IntegrityPpm,
        ),
        row(
            "integrity_subnet_share_max_ppm"@,
            false,
            WriteRule::TwoPhase(AdminRole::Superadmin),
            ApplyClass::ImmediateGlobal,
            Check::IntegrityPpm,
        ),
        row(
            "integrity_min_metadata_coverage_ppm"@,
            false,
            WriteRule::TwoPhase(AdminRole::Superadmin),
            ApplyClass::ImmediateGlobal,
            Check::IntegrityPpm,
        ),
        row(
            "flash_cadence_secs"@,
            false,
            WriteRule::Direct(AdminRole::Curator),
            ApplyClass::ImmediateGlobal,
            Check::Cadence,
        ),
        row(
            "daily_slots"@,
            false,
            WriteRule::Direct(AdminRole::Curator),
            ApplyClass::ImmediateGlobal,
            Check::DailySlots,
        ),
        row(
            "feature_flash_markets"@,
            false,
            WriteRule::Direct(AdminRole::Ops),
            ApplyClass::ImmediateGlobal,
            Check::Bool,
        ),
        row(
            "feature_comments"@,
            false,
            WriteRule::Direct(AdminRole::Ops),
            ApplyClass::ImmediateGlobal,
            Check::Bool,
        ),
        row(
            "feature_referrals"@,
            false,
            WriteRule::TwoPhase(AdminRole::Finance),
            ApplyClass::ImmediateGlobal,
            Check::Bool,
        ),
        row(
            "trading_paused"@,
            false,
            WriteRule::Direct(AdminRole::Ops),
            ApplyClass::ImmediateGlobal,
            Check::Bool,
        ),
        row(
            "market_paused:"@,
            true,
            WriteRule::Direct(AdminRole::Ops),
            ApplyClass::ImmediateGlobal,
            Check::Bool,
        ),
        row(
            "voting_paused:"@,
            true,
            WriteRule::TwoPhase(AdminRole::Superadmin),
            ApplyClass::ImmediateGlobal,
            Check::Bool,
        ),
        row(
            "faucet_per_call_cap_micro"@,
            false,
            WriteRule::Direct(AdminRole::Finance),
            ApplyClass::ImmediateGlobal,
            Check::FaucetCap,
        ),
        row(
            "remedial_credit_market_cap_micro"@,
            false,
            WriteRule::TwoPhase(AdminRole::Finance),
            ApplyClass::ImmediateGlobal,
            Check::RemedialMarketCap,
        ),
        row(
            "remedial_credit_daily_cap_micro"@,
            false,
            WriteRule::TwoPhase(AdminRole::Finance),
            ApplyClass::ImmediateGlobal,
            Check::RemedialDailyCap,
        ),
        row(
            "receivable_outstanding_cap_micro"@,
            false,
            WriteRule::TwoPhase(AdminRole::Finance),
            ApplyClass::ImmediateGlobal,
            Check::ReceivableCap,
        ),
        row(
            "writeoff_per_item_cap_micro"@,
            false,
            WriteRule::TwoPhase(AdminRole::Finance),
            ApplyClass::ImmediateGlobal,
            Check::WriteoffItemCap,
        ),
        row(
            "writeoff_daily_cap_micro"@,
            false,
            WriteRule::TwoPhase(AdminRole::Finance),
            ApplyClass::ImmediateGlobal,
            Check::WriteoffDailyCap,
        ),
        row(
            "proposal_ttl_secs"@,
            false,
            WriteRule::TwoPhase(AdminRole::Superadmin),
            ApplyClass::ImmediateGlobal,
            Check::ProposalTtl,
        ),
        row(
            "dual_control_delay_secs"@,
            false,
            WriteRule::TwoPhase(AdminRole::Superadmin),
            ApplyClass::ImmediateGlobal,
            Check::DualDelay,
        ),
        row(
            "deposit_kyc_tier"@,
            false,
            WriteRule::TwoPhase(AdminRole::Finance),
            ApplyClass::NextTrade,
            Check::KycTier,
        ),
        row(
            "withdraw_kyc_tier"@,
            false,
            WriteRule::TwoPhase(AdminRole::Finance),
            ApplyClass::NextTrade,
            Check::KycTier,
        ),
        row(
            "withdraw_min_micro"@,
            false,
            WriteRule::TwoPhase(AdminRole::Finance),
            ApplyClass::NextTrade,
            Check::WithdrawMin,
        ),
        row(
            "withdraw_max_micro"@,
            false,
            WriteRule::TwoPhase(AdminRole::Finance),
            ApplyClass::NextTrade,
            Check::WithdrawMax,
        ),
        row(
            "withdraw_daily_limit_micro"@,
            false,
            WriteRule::TwoPhase(AdminRole::Finance),
            ApplyClass::NextTrade,
            Check::WithdrawDaily,
        ),
        row(
            "withdraw_auto_approve_micro"@,
            false,
            WriteRule::TwoPhase(AdminRole::Finance),
            ApplyClass::NextTrade,
            Check::AutoApprove,
        ),
        row(
            "withdraw_dual_control_micro"@,
            false,
            WriteRule::TwoPhase(AdminRole::Superadmin),
            ApplyClass::NextTrade,
            Check::DualControl,
        ),
        row(
            "dest_warm_floor_micro"@,
            false,
            WriteRule::TwoPhase(AdminRole::Finance),
            ApplyClass::NextTrade,
            Check::WarmFloor,
        ),
        row(
            "dest_warm_age_hours"@,
            false,
            WriteRule::TwoPhase(AdminRole::Finance),
            ApplyClass::NextTrade,
            Check::WarmAge,
        ),
        row(
            "dest_daily_limit_micro"@,
            false,
            WriteRule::TwoPhase(AdminRole::Finance),
            ApplyClass::NextTrade,
            Check::DestDaily,
        ),
        row(
            "hot_wallet_daily_limit_micro"@,
            false,
            WriteRule::TwoPhase(AdminRole::Superadmin),
            ApplyClass::NextTrade,
            Check::HotWallet,
        ),
        row(
            "deposit_confirmations"@,
            false,
            WriteRule::TwoPhase(AdminRole::Ops),
            ApplyClass::ImmediateGlobal,
            Check::Confirmations,
        ),
        row(
            "pause_deposits"@,
            false,
            WriteRule::Direct(AdminRole::Ops),
            ApplyClass::ImmediateGlobal,
            Check::Bool,
        ),
        row(
            "pause_withdrawals"@,
            false,
            WriteRule::Direct(AdminRole::Ops),
            ApplyClass::ImmediateGlobal,
            Check::Bool,
        ),
        row(
            "credit_signup_micro"@,
            false,
            WriteRule::TwoPhase(AdminRole::Finance),
            ApplyClass::NextTrade,
            Check::CreditGrant,
        ),
        row(
            "credit_referral_referrer_micro"@,
            false,
            WriteRule::TwoPhase(AdminRole::Finance),
            ApplyClass::NextTrade,
            Check::CreditGrant,
        ),
        row(
            "credit_referral_referee_micro"@,
            false,
            WriteRule::TwoPhase(AdminRole::Finance),
            ApplyClass::NextTrade,
            Check::CreditGrant,
        ),
        row(
            "referral_min_notional_micro"@,
            false,
            WriteRule::TwoPhase(AdminRole::Finance),
            ApplyClass::NextTrade,
            Check::ReferralMin,
        ),
        row(
            "bonus_mint_daily_cap_micro"@,
            false,
            WriteRule::TwoPhase(AdminRole::Finance),
            ApplyClass::NextTrade,
            Check::BonusMint,
        ),
        row(
            "bonus_structure"@,
            false,
            WriteRule::TwoPhase(AdminRole::Superadmin),
            ApplyClass::NextTrade,
            Check::BonusStructure,
        ),
        row(
            "aml_deposit_velocity_micro_24h"@,
            false,
            WriteRule::TwoPhase(AdminRole::Finance),
            ApplyClass::ImmediateGlobal,
            Check::AmlVelocity,
        ),
        row(
            "aml_withdraw_velocity_micro_24h"@,
            false,
            WriteRule::TwoPhase(AdminRole::Finance),
            ApplyClass::ImmediateGlobal,
            Check::AmlVelocity,
        ),
        row(
            "aml_structuring_n"@,
            false,
            WriteRule::TwoPhase(AdminRole::Finance),
            ApplyClass::ImmediateGlobal,
            Check::StructuringN,
        ),
        row(
            "aml_structuring_window_hours"@,
            false,
            WriteRule::TwoPhase(AdminRole::Finance),
            ApplyClass::ImmediateGlobal,
            Check::StructuringWindow,
        ),
        row(
            "aml_structuring_threshold_micro"@,
            false,
            WriteRule::TwoPhase(AdminRole::Finance),
            ApplyClass::ImmediateGlobal,
            Check::StructuringThreshold,
        ),
        row(
            "aml_structuring_floor_micro"@,
            false,
            WriteRule::TwoPhase(AdminRole::Finance),
            ApplyClass::ImmediateGlobal,
            Check::StructuringFloor,
        ),
        row(
            "shadow_trade_cap_micro"@,
            false,
            WriteRule::Direct(AdminRole::Ops),
            ApplyClass::NextTrade,
            Check::ShadowCap,
        ),
        row(
            "shadow_deposit_cap_micro"@,
            false,
            WriteRule::Direct(AdminRole::Ops),
            ApplyClass::NextTrade,
            Check::ShadowCap,
        ),
        row(
            "stuck_send_sla_secs"@,
            false,
            WriteRule::TwoPhase(AdminRole::Ops),
            ApplyClass::ImmediateGlobal,
            Check::StuckSla,
        ),
        row(
            "stuck_screening_sla_secs"@,
            false,
            WriteRule::TwoPhase(AdminRole::Ops),
            ApplyClass::ImmediateGlobal,
            Check::StuckSla,
        ),
        row(
            "region_allowset"@,
            false,
            WriteRule::TwoPhase(AdminRole::Superadmin),
            ApplyClass::NextTrade,
            Check::RegionAllowset,
        ),
        row(
            "region_allowset_version"@,
            false,
            WriteRule::TwoPhase(AdminRole::Superadmin),
            ApplyClass::NextTrade,
            Check::RegionVersion,
        ),
        row(
            "withdraw_approve_daily_cap_micro"@,
            false,
            WriteRule::TwoPhase(AdminRole::Superadmin),
            ApplyClass::NextTrade,
            Check::ApproveDaily,
        ),
        row(
            "bonus_reserve_topup_daily_cap_micro"@,
            false,
            WriteRule::TwoPhase(AdminRole::Superadmin),
            ApplyClass::NextTrade,
            Check::ReserveTopup,
        ),
        row(
            "fee_bps_override:"@,
            true,
            WriteRule::TwoPhase(AdminRole::Finance),
            ApplyClass::NextTrade,
            Check::FeeOverride,
        ),
    ]
}

fn rule(
    key: &'static str,
    pattern: bool,
    write: WriteRule,
    class: ApplyClass,
    check: Check,
) -> (r: CatalogRule)
    ensures
        r@ == row(key@, pattern, write, class, check),
{
    CatalogRule { key, pattern, write, class, check }
}

/// The complete catalog.
#[must_use]
#[verifier::rlimit(60)]
pub fn catalog() -> (r: Vec<CatalogRule>)
    ensures
        rows_view(r@) == catalog_rows(),
{
    let r: Vec<CatalogRule> = vec![
        rule(
            "trade_fee_bps",
            false,
            WriteRule::TwoPhase(AdminRole::Finance),
            ApplyClass::NewMarketOnly,
            Check::TradeFee,
        ),
        rule(
            "min_fee_bps",
            false,
            WriteRule::TwoPhase(AdminRole::Finance),
            ApplyClass::NextTrade,
            Check::MinFee,
        ),
        rule(
            "discount_flip_window_secs",
            false,
            WriteRule::TwoPhase(AdminRole::Finance),
            ApplyClass::NextTrade,
            Check::FlipWindow,
        ),
        rule(
            "fee_discount_bp_by_tier",
            false,
            WriteRule::TwoPhase(AdminRole::Finance),
            ApplyClass::NextTrade,
            Check::Discounts,
        ),
        rule(
            "position_cap_micro_by_tier",
            false,
            WriteRule::TwoPhase(AdminRole::Finance),
            ApplyClass::NextTrade,
            Check::PositionCaps,
        ),
        rule(
            "rep_tier_thresholds_micro",
            false,
            WriteRule::TwoPhase(AdminRole::Finance),
            ApplyClass::NextTrade,
            Check::TierThresholds,
        ),
        rule(
            "rep_score_min_pot_micro",
            false,
            WriteRule::TwoPhase(AdminRole::Finance),
            ApplyClass::NextTrade,
            Check::MinPot,
        ),
        rule(
            "seed_micro_daily",
            false,
            WriteRule::TwoPhase(AdminRole::Finance),
            ApplyClass::NewMarketOnly,
            Check::Seed,
        ),
        rule(
            "seed_micro_flash",
            false,
            WriteRule::TwoPhase(AdminRole::Finance),
            ApplyClass::NewMarketOnly,
            Check::Seed,
        ),
        rule(
            "daily_seed_budget_micro",
            false,
            WriteRule::TwoPhase(AdminRole::Finance),
            ApplyClass::NewMarketOnly,
            Check::SeedBudget,
        ),
        rule(
            "hidden_window_secs",
            false,
            WriteRule::TwoPhase(AdminRole::Finance),
            ApplyClass::LiveImmutable,
            Check::HiddenWindow,
        ),
        rule(
            "min_votes_to_resolve_floor",
            false,
            WriteRule::TwoPhase(AdminRole::Finance),
            ApplyClass::LiveImmutable,
            Check::MinVotesFloor,
        ),
        rule(
            "oi_floor_micro",
            false,
            WriteRule::TwoPhase(AdminRole::Finance),
            ApplyClass::LiveImmutable,
            Check::OiFloor,
        ),
        rule(
            "payout_hold_threshold_micro",
            false,
            WriteRule::TwoPhase(AdminRole::Finance),
            ApplyClass::LiveImmutable,
            Check::HoldThreshold,
        ),
        rule(
            "sweep_delay_secs",
            false,
            WriteRule::Direct(AdminRole::Ops),
            ApplyClass::ImmediateGlobal,
            Check::SweepDelay,
        ),
        rule(
            "max_votes_per_window",
            false,
            WriteRule::TwoPhase(AdminRole::Ops),
            ApplyClass::ImmediateGlobal,
            Check::MaxVotes,
        ),
        rule(
            "vote_window_secs",
            false,
            WriteRule::TwoPhase(AdminRole::Ops),
            ApplyClass::ImmediateGlobal,
            Check::VoteWindow,
        ),
        rule(
            "integrity_burst_multiplier_ppm",
            false,
            WriteRule::TwoPhase(AdminRole::Superadmin),
            ApplyClass::ImmediateGlobal,
            Check::IntegrityPpm,
        ),
        rule(
            "integrity_young_share_max_ppm",
            false,
            WriteRule::TwoPhase(AdminRole::Superadmin),
            ApplyClass::ImmediateGlobal,
            Check::IntegrityPpm,
        ),
        rule(
            "integrity_device_share_max_ppm",
            false,
            WriteRule::TwoPhase(AdminRole::Superadmin),
            ApplyClass::ImmediateGlobal,
            Check::IntegrityPpm,
        ),
        rule(
            "integrity_subnet_share_max_ppm",
            false,
            WriteRule::TwoPhase(AdminRole::Superadmin),
            ApplyClass::ImmediateGlobal,
            Check::IntegrityPpm,
        ),
        rule(
            "integrity_min_metadata_coverage_ppm",
            false,
            WriteRule::TwoPhase(AdminRole::Superadmin),
            ApplyClass::ImmediateGlobal,
            Check::IntegrityPpm,
        ),
        rule(
            "flash_cadence_secs",
            false,
            WriteRule::Direct(AdminRole::Curator),
            ApplyClass::ImmediateGlobal,
            Check::Cadence,
        ),
        rule(
            "daily_slots",
            false,
            WriteRule::Direct(AdminRole::Curator),
            ApplyClass::ImmediateGlobal,
            Check::DailySlots,
        ),
        rule(
            "feature_flash_markets",
            false,
            WriteRule::Direct(AdminRole::Ops),
            ApplyClass::ImmediateGlobal,
            Check::Bool,
        ),
        rule(
            "feature_comments",
            false,
            WriteRule::Direct(AdminRole::Ops),
            ApplyClass::ImmediateGlobal,
            Check::Bool,
        ),
        rule(
            "feature_referrals",
            false,
            WriteRule::TwoPhase(AdminRole::Finance),
            ApplyClass::ImmediateGlobal,
            Check::Bool,
        ),
        rule(
            "trading_paused",
            false,
            WriteRule::Direct(AdminRole::Ops),
            ApplyClass::ImmediateGlobal,
            Check::Bool,
        ),
        rule(
            "market_paused:",
            true,
            WriteRule::Direct(AdminRole::Ops),
            ApplyClass::ImmediateGlobal,
            Check::Bool,
        ),
        rule(
            "voting_paused:",
            true,
            WriteRule::TwoPhase(AdminRole::Superadmin),
            ApplyClass::ImmediateGlobal,
            Check::Bool,
        ),
        rule(
            "faucet_per_call_cap_micro",
            false,
            WriteRule::Direct(AdminRole::Finance),
            ApplyClass::ImmediateGlobal,
            Check::FaucetCap,
        ),
        rule(
            "remedial_credit_market_cap_micro",
            false,
            WriteRule::TwoPhase(AdminRole::Finance),
            ApplyClass::ImmediateGlobal,
            Check::RemedialMarketCap,
        ),
        rule(
            "remedial_credit_daily_cap_micro",
            false,
            WriteRule::TwoPhase(AdminRole::Finance),
            ApplyClass::ImmediateGlobal,
            Check::RemedialDailyCap,
        ),
        rule(
            "receivable_outstanding_cap_micro",
            false,
            WriteRule::TwoPhase(AdminRole::Finance),
            ApplyClass::ImmediateGlobal,
            Check::ReceivableCap,
        ),
        rule(
            "writeoff_per_item_cap_micro",
            false,
            WriteRule::TwoPhase(AdminRole::Finance),
            ApplyClass::ImmediateGlobal,
            Check::WriteoffItemCap,
        ),
        rule(
            "writeoff_daily_cap_micro",
            false,
            WriteRule::TwoPhase(AdminRole::Finance),
            ApplyClass::ImmediateGlobal,
            Check::WriteoffDailyCap,
        ),
        rule(
            "proposal_ttl_secs",
            false,
            WriteRule::TwoPhase(AdminRole::Superadmin),
            ApplyClass::ImmediateGlobal,
            Check::ProposalTtl,
        ),
        rule(
            "dual_control_delay_secs",
            false,
            WriteRule::TwoPhase(AdminRole::Superadmin),
            ApplyClass::ImmediateGlobal,
            Check::DualDelay,
        ),
        rule(
            "deposit_kyc_tier",
            false,
            WriteRule::TwoPhase(AdminRole::Finance),
            ApplyClass::NextTrade,
            Check::KycTier,
        ),
        rule(
            "withdraw_kyc_tier",
            false,
            WriteRule::TwoPhase(AdminRole::Finance),
            ApplyClass::NextTrade,
            Check::KycTier,
        ),
        rule(
            "withdraw_min_micro",
            false,
            WriteRule::TwoPhase(AdminRole::Finance),
            ApplyClass::NextTrade,
            Check::WithdrawMin,
        ),
        rule(
            "withdraw_max_micro",
            false,
            WriteRule::TwoPhase(AdminRole::Finance),
            ApplyClass::NextTrade,
            Check::WithdrawMax,
        ),
        rule(
            "withdraw_daily_limit_micro",
            false,
            WriteRule::TwoPhase(AdminRole::Finance),
            ApplyClass::NextTrade,
            Check::WithdrawDaily,
        ),
        rule(
            "withdraw_auto_approve_micro",
            false,
            WriteRule::TwoPhase(AdminRole::Finance),
            ApplyClass::NextTrade,
            Check::AutoApprove,
        ),
        rule(
            "withdraw_dual_control_micro",
            false,
            WriteRule::TwoPhase(AdminRole::Superadmin),
            ApplyClass::NextTrade,
            Check::DualControl,
        ),
        rule(
            "dest_warm_floor_micro",
            false,
            WriteRule::TwoPhase(AdminRole::Finance),
            ApplyClass::NextTrade,
            Check::WarmFloor,
        ),
        rule(
            "dest_warm_age_hours",
            false,
            WriteRule::TwoPhase(AdminRole::Finance),
            ApplyClass::NextTrade,
            Check::WarmAge,
        ),
        rule(
            "dest_daily_limit_micro",
            false,
            WriteRule::TwoPhase(AdminRole::Finance),
            ApplyClass::NextTrade,
            Check::DestDaily,
        ),
        rule(
            "hot_wallet_daily_limit_micro",
            false,
            WriteRule::TwoPhase(AdminRole::Superadmin),
            ApplyClass::NextTrade,
            Check::HotWallet,
        ),
        rule(
            "deposit_confirmations",
            false,
            WriteRule::TwoPhase(AdminRole::Ops),
            ApplyClass::ImmediateGlobal,
            Check::Confirmations,
        ),
        rule(
            "pause_deposits",
            false,
            WriteRule::Direct(AdminRole::Ops),
            ApplyClass::ImmediateGlobal,
            Check::Bool,
        ),
        rule(
            "pause_withdrawals",
            false,
            WriteRule::Direct(AdminRole::Ops),
            ApplyClass::ImmediateGlobal,
            Check::Bool,
        ),
        rule(
            "credit_signup_micro",
            false,
            WriteRule::TwoPhase(AdminRole::Finance),
            ApplyClass::NextTrade,
            Check::CreditGrant,
        ),
        rule(
            "credit_referral_referrer_micro",
            false,
            WriteRule::TwoPhase(AdminRole::Finance),
            ApplyClass::NextTrade,
            Check::CreditGrant,
        ),
        rule(
            "credit_referral_referee_micro",
            false,
            WriteRule::TwoPhase(AdminRole::Finance),
            ApplyClass::NextTrade,
            Check::CreditGrant,
        ),
        rule(
            "referral_min_notional_micro",
            false,
            WriteRule::TwoPhase(AdminRole::Finance),
            ApplyClass::NextTrade,
            Check::ReferralMin,
        ),
        rule(
            "bonus_mint_daily_cap_micro",
            false,
            WriteRule::TwoPhase(AdminRole::Finance),
            ApplyClass::NextTrade,
            Check::BonusMint,
        ),
        rule(
            "bonus_structure",
            false,
            WriteRule::TwoPhase(AdminRole::Superadmin),
            ApplyClass::NextTrade,
            Check::BonusStructure,
        ),
        rule(
            "aml_deposit_velocity_micro_24h",
            false,
            WriteRule::TwoPhase(AdminRole::Finance),
            ApplyClass::ImmediateGlobal,
            Check::AmlVelocity,
        ),
        rule(
            "aml_withdraw_velocity_micro_24h",
            false,
            WriteRule::TwoPhase(AdminRole::Finance),
            ApplyClass::ImmediateGlobal,
            Check::AmlVelocity,
        ),
        rule(
            "aml_structuring_n",
            false,
            WriteRule::TwoPhase(AdminRole::Finance),
            ApplyClass::ImmediateGlobal,
            Check::StructuringN,
        ),
        rule(
            "aml_structuring_window_hours",
            false,
            WriteRule::TwoPhase(AdminRole::Finance),
            ApplyClass::ImmediateGlobal,
            Check::StructuringWindow,
        ),
        rule(
            "aml_structuring_threshold_micro",
            false,
            WriteRule::TwoPhase(AdminRole::Finance),
            ApplyClass::ImmediateGlobal,
            Check::StructuringThreshold,
        ),
        rule(
            "aml_structuring_floor_micro",
            false,
            WriteRule::TwoPhase(AdminRole::Finance),
            ApplyClass::ImmediateGlobal,
            Check::StructuringFloor,
        ),
        rule(
            "shadow_trade_cap_micro",
            false,
            WriteRule::Direct(AdminRole::Ops),
            ApplyClass::NextTrade,
            Check::ShadowCap,
        ),
        rule(
            "shadow_deposit_cap_micro",
            false,
            WriteRule::Direct(AdminRole::Ops),
            ApplyClass::NextTrade,
            Check::ShadowCap,
        ),
        rule(
            "stuck_send_sla_secs",
            false,
            WriteRule::TwoPhase(AdminRole::Ops),
            ApplyClass::ImmediateGlobal,
            Check::StuckSla,
        ),
        rule(
            "stuck_screening_sla_secs",
            false,
            WriteRule::TwoPhase(AdminRole::Ops),
            ApplyClass::ImmediateGlobal,
            Check::StuckSla,
        ),
        rule(
            "region_allowset",
            false,
            WriteRule::TwoPhase(AdminRole::Superadmin),
            ApplyClass::NextTrade,
            Check::RegionAllowset,
        ),
        rule(
            "region_allowset_version",
            false,
            WriteRule::TwoPhase(AdminRole::Superadmin),
            ApplyClass::NextTrade,
            Check::RegionVersion,
        ),
        rule(
            "withdraw_approve_daily_cap_micro",
            false,
            WriteRule::TwoPhase(AdminRole::Superadmin),
            ApplyClass::NextTrade,
            Check::ApproveDaily,
        ),
        rule(
            "bonus_reserve_topup_daily_cap_micro",
            false,
            WriteRule::TwoPhase(AdminRole::Superadmin),
            ApplyClass::NextTrade,
            Check::ReserveTopup,
        ),
        rule(
            "fee_bps_override:",
            true,
            WriteRule::TwoPhase(AdminRole::Finance),
            ApplyClass::NextTrade,
            Check::FeeOverride,
        ),
    ];
    proof {
        reveal(catalog_rows);
        assert(rows_view(r@) =~= catalog_rows());
    }
    r
}

/// A row is for this key: the keys are the same, or the key is the row's
/// pattern followed by an identity.
pub open spec fn row_matches(rule: RuleView, key: Seq<char>) -> bool {
    if rule.pattern {
        match text::after_prefix(key, rule.key) {
            Some(suffix) => identity::parsed_uuid(suffix) is Some,
            None => false,
        }
    } else {
        rule.key == key
    }
}

/// The first row that is for this key.
pub open spec fn find_rule(rows: Seq<RuleView>, key: Seq<char>) -> Option<RuleView>
    decreases rows.len(),
{
    if rows.len() == 0 {
        None
    } else if row_matches(rows[0], key) {
        Some(rows[0])
    } else {
        find_rule(rows.drop_first(), key)
    }
}

/// The catalog's rule for a key.
pub open spec fn rule_of(key: Seq<char>) -> Option<RuleView> {
    find_rule(catalog_rows(), key)
}

/// Whether a row is for a key, given whether what follows the row's pattern in
/// the key names an identity.
pub fn rule_matches(rule: &CatalogRule, key: &str, suffix_is_identity: bool) -> (r: bool)
    ensures
        r == (if rule.pattern {
            text::starts_with(key@, rule.key@) && suffix_is_identity
        } else {
            rule.key@ == key@
        }),
{
    if rule.pattern {
        text::strip(key, rule.key).is_some() && suffix_is_identity
    } else {
        text::same_text(rule.key, key)
    }
}

/// Looks up the catalog rule for a concrete key (pattern keys match by
/// prefix and require a UUID suffix).
#[must_use]
pub fn rule_for(key: &str) -> (r: Option<CatalogRule>)
    ensures
        match r {
            Some(rule) => rule_of(key@) == Some(rule@),
            None => rule_of(key@) is None,
        },
{
    let rows = catalog();
    let ghost all = rows_view(rows@);
    let mut i: usize = 0;
    assert(all.skip(0) =~= all);
    while i < rows.len()
        invariant
            i <= rows@.len(),
            all == rows_view(rows@),
            all == catalog_rows(),
            rule_of(key@) == find_rule(all.skip(i as int), key@),
        decreases rows.len() - i,
    {
        let rule = rows[i];
        assert(all.skip(i as int)[0] == rule@);
        assert(all.skip(i as int).drop_first() =~= all.skip(i + 1));
        let named = match text::strip(key, rule.key) {
            Some(suffix) => identity::parse_uuid(suffix.as_str()).is_some(),
            None => false,
        };
        if rule_matches(&rule, key, named) {
            return Some(rule);
        }
        i += 1;
    }
    None
}

/// The key requires the two-phase proposal flow.
pub open spec fn sensitive(key: Seq<char>) -> bool {
    match rule_of(key) {
        Some(rule) => rule.write is TwoPhase,
        None => false,
    }
}

/// True when the key requires the two-phase proposal flow.
#[must_use]
pub fn is_sensitive(key: &str) -> (r: bool)
    ensures
        r == sensitive(key@),
{
    match rule_for(key) {
        Some(rule) => match rule.write {
            WriteRule::TwoPhase(_) => true,
            WriteRule::Direct(_) => false,
        },
        None => false,
    }
}

/// The role may write under this rule. Superadmin is additionally accepted for
/// two-phase keys; direct keys stay strictly with their listed role.
pub open spec fn may_write(role: AdminRole, write: WriteRule) -> bool {
    match write {
        WriteRule::Direct(listed) => role == listed,
        WriteRule::TwoPhase(listed) => role == listed || role == AdminRole::Superadmin,
    }
}

/// May `role` write `key` through the flow that the catalog lists? Roles are
/// sets, not a hierarchy; nobody writes an unknown key.
#[must_use]
pub fn role_may_write(role: AdminRole, key: &str) -> (r: bool)
    ensures
        r == (match rule_of(key@) {
            Some(rule) => may_write(role, rule.write),
            None => false,
        }),
{
    match rule_for(key) {
        Some(rule) => match rule.write {
            WriteRule::Direct(listed) => role == listed,
            WriteRule::TwoPhase(listed) => role == listed || role == AdminRole::Superadmin,
        },
        None => false,
    }
}

/// The published catalog, row by row: who writes each key and how, when its value
/// takes effect, and which rule it obeys.
pub proof fn law_published_catalog()
    ensures
        catalog_rows().len() == 73,
        catalog_rows()[0] == (RuleView {
            key: "trade_fee_bps"@,
            pattern: false,
            write: WriteRule::TwoPhase(AdminRole::Finance),
            class: ApplyClass::NewMarketOnly,
            check: Check::TradeFee,
        }),
        catalog_rows()[1] == (RuleView {
            key: "min_fee_bps"@,
            pattern: false,
            write: WriteRule::TwoPhase(AdminRole::Finance),
            class: ApplyClass::NextTrade,
            check: Check::MinFee,
        }),
        catalog_rows()[2] == (RuleView {
            key: "discount_flip_window_secs"@,
            pattern: false,
            write: WriteRule::TwoPhase(AdminRole::Finance),
            class: ApplyClass::NextTrade,
            check: Check::FlipWindow,
        }),
        catalog_rows()[3] == (RuleView {
            key: "fee_discount_bp_by_tier"@,
            pattern: false,
            write: WriteRule::TwoPhase(AdminRole::Finance),
            class: ApplyClass::NextTrade,
            check: Check::Discounts,
        }),
        catalog_rows()[4] == (RuleView {
            key: "position_cap_micro_by_tier"@,
            pattern: false,
            write: WriteRule::TwoPhase(AdminRole::Finance),
            class: ApplyClass::NextTrade,
            check: Check::PositionCaps,
        }),
        catalog_rows()[5] == (RuleView {
            key: "rep_tier_thresholds_micro"@,
            pattern: false,
            write: WriteRule::TwoPhase(AdminRole::Finance),
            class: ApplyClass::NextTrade,
            check: Check::TierThresholds,
        }),
        catalog_rows()[6] == (RuleView {
            key: "rep_score_min_pot_micro"@,
            pattern: false,
            write: WriteRule::TwoPhase(AdminRole::Finance),
            class: ApplyClass::NextTrade,
            check: Check::MinPot,
        }),
        catalog_rows()[7] == (RuleView {
            key: "seed_micro_daily"@,
            pattern: false,
            write: WriteRule::TwoPhase(AdminRole::Finance),
            class: ApplyClass::NewMarketOnly,
            check: Check::Seed,
        }),
        catalog_rows()[8] == (RuleView {
            key: "seed_micro_flash"@,
            pattern: false,
            write: WriteRule::TwoPhase(AdminRole::Finance),
            class: ApplyClass::NewMarketOnly,
            check: Check::Seed,
        }),
        catalog_rows()[9] == (RuleView {
            key: "daily_seed_budget_micro"@,
            pattern: false,
            write: WriteRule::TwoPhase(AdminRole::Finance),
            class: ApplyClass::NewMarketOnly,
            check: Check::SeedBudget,
        }),
        catalog_rows()[10] == (RuleView {
            key: "hidden_window_secs"@,
            pattern: false,
            write: WriteRule::TwoPhase(AdminRole::Finance),
            class: ApplyClass::LiveImmutable,
            check: Check::HiddenWindow,
        }),
        catalog_rows()[11] == (RuleView {
            key: "min_votes_to_resolve_floor"@,
            pattern: false,
            write: WriteRule::TwoPhase(AdminRole::Finance),
            class: ApplyClass::LiveImmutable,
            check: Check::MinVotesFloor,
        }),
        catalog_rows()[12] == (RuleView {
            key: "oi_floor_micro"@,
            pattern: false,
            write: WriteRule::TwoPhase(AdminRole::Finance),
            class: ApplyClass::LiveImmutable,
            check: Check::OiFloor,
        }),
        catalog_rows()[13] == (RuleView {
            key: "payout_hold_threshold_micro"@,
            pattern: false,
            write: WriteRule::TwoPhase(AdminRole::Finance),
            class: ApplyClass::LiveImmutable,
            check: Check::HoldThreshold,
        }),
        catalog_rows()[14] == (RuleView {
            key: "sweep_delay_secs"@,
            pattern: false,
            write: WriteRule::Direct(AdminRole::Ops),
            class: ApplyClass::ImmediateGlobal,
            check: Check::SweepDelay,
        }),
        catalog_rows()[15] == (RuleView {
            key: "max_votes_per_window"@,
            pattern: false,
            write: WriteRule::TwoPhase(AdminRole::Ops),
            class: ApplyClass::ImmediateGlobal,
            check: Check::MaxVotes,
        }),
        catalog_rows()[16] == (RuleView {
            key: "vote_window_secs"@,
            pattern: false,
            write: WriteRule::TwoPhase(AdminRole::Ops),
            class: ApplyClass::ImmediateGlobal,
            check: Check::VoteWindow,
        }),
        catalog_rows()[17] == (RuleView {
            key: "integrity_burst_multiplier_ppm"@,
            pattern: false,
            write: WriteRule::TwoPhase(AdminRole::Superadmin),
            class: ApplyClass::ImmediateGlobal,
            check: Check::IntegrityPpm,
        }),
        catalog_rows()[18] == (RuleView {
            key: "integrity_young_share_max_ppm"@,
            pattern: false,
            write: WriteRule::TwoPhase(AdminRole::Superadmin),
            class: ApplyClass::ImmediateGlobal,
            check: Check::IntegrityPpm,
        }),
        catalog_rows()[19] == (RuleView {
            key: "integrity_device_share_max_ppm"@,
            pattern: false,
            write: WriteRule::TwoPhase(AdminRole::Superadmin),
            class: ApplyClass::ImmediateGlobal,
            check: Check::IntegrityPpm,
        }),
        catalog_rows()[20] == (RuleView {
            key: "integrity_subnet_share_max_ppm"@,
            pattern: false,
            write: WriteRule::TwoPhase(AdminRole::Superadmin),
            class: ApplyClass::ImmediateGlobal,
            check: Check::IntegrityPpm,
        }),
        catalog_rows()[21] == (RuleView {
            key: "integrity_min_metadata_coverage_ppm"@,
            pattern: false,
            write: WriteRule::TwoPhase(AdminRole::Superadmin),
            class: ApplyClass::ImmediateGlobal,
            check: Check::IntegrityPpm,
        }),
        catalog_rows()[22] == (RuleView {
            key: "flash_cadence_secs"@,
            pattern: false,
            write: WriteRule::Direct(AdminRole::Curator),
            class: ApplyClass::ImmediateGlobal,
            check: Check::Cadence,
        }),
        catalog_rows()[23] == (RuleView {
            key: "daily_slots"@,
            pattern: false,
            write: WriteRule::Direct(AdminRole::Curator),
            class: ApplyClass::ImmediateGlobal,
            check: Check::DailySlots,
        }),
        catalog_rows()[24] == (RuleView {
            key: "feature_flash_markets"@,
            pattern: false,
            write: WriteRule::Direct(AdminRole::Ops),
            class: ApplyClass::ImmediateGlobal,
            check: Check::Bool,
        }),
        catalog_rows()[25] == (RuleView {
            key: "feature_comments"@,
            pattern: false,
            write: WriteRule::Direct(AdminRole::Ops),
            class: ApplyClass::ImmediateGlobal,
            check: Check::Bool,
        }),
        catalog_rows()[26] == (RuleView {
            key: "feature_referrals"@,
            pattern: false,
            write: WriteRule::TwoPhase(AdminRole::Finance),
            class: ApplyClass::ImmediateGlobal,
            check: Check::Bool,
        }),
        catalog_rows()[27] == (RuleView {
            key: "trading_paused"@,
            pattern: false,
            write: WriteRule::Direct(AdminRole::Ops),
            class: ApplyClass::ImmediateGlobal,
            check: Check::Bool,
        }),
        catalog_rows()[28] == (RuleView {
            key: "market_paused:"@,
            pattern: true,
            write: WriteRule::Direct(AdminRole::Ops),
            class: ApplyClass::ImmediateGlobal,
            check: Check::Bool,
        }),
        catalog_rows()[29] == (RuleView {
            key: "voting_paused:"@,
            pattern: true,
            write: WriteRule::TwoPhase(AdminRole::Superadmin),
            class: ApplyClass::ImmediateGlobal,
            check: Check::Bool,
        }),
        catalog_rows()[30] == (RuleView {
            key: "faucet_per_call_cap_micro"@,
            pattern: false,
            write: WriteRule::Direct(AdminRole::Finance),
            class: ApplyClass::ImmediateGlobal,
            check: Check::FaucetCap,
        }),
        catalog_rows()[31] == (RuleView {
            key: "remedial_credit_market_cap_micro"@,
            pattern: false,
            write: WriteRule::TwoPhase(AdminRole::Finance),
            class: ApplyClass::ImmediateGlobal,
            check: Check::RemedialMarketCap,
        }),
        catalog_rows()[32] == (RuleView {
            key: "remedial_credit_daily_cap_micro"@,
            pattern: false,
            write: WriteRule::TwoPhase(AdminRole::Finance),
            class: ApplyClass::ImmediateGlobal,
            check: Check::RemedialDailyCap,
        }),
        catalog_rows()[33] == (RuleView {
            key: "receivable_outstanding_cap_micro"@,
            pattern: false,
            write: WriteRule::TwoPhase(AdminRole::Finance),
            class: ApplyClass::ImmediateGlobal,
            check: Check::ReceivableCap,
        }),
        catalog_rows()[34] == (RuleView {
            key: "writeoff_per_item_cap_micro"@,
            pattern: false,
            write: WriteRule::TwoPhase(AdminRole::Finance),
            class: ApplyClass::ImmediateGlobal,
            check: Check::WriteoffItemCap,
        }),
        catalog_rows()[35] == (RuleView {
            key: "writeoff_daily_cap_micro"@,
            pattern: false,
            write: WriteRule::TwoPhase(AdminRole::Finance),
            class: ApplyClass::ImmediateGlobal,
            check: Check::WriteoffDailyCap,
        }),
        catalog_rows()[36] == (RuleView {
            key: "proposal_ttl_secs"@,
            pattern: false,
            write: WriteRule::TwoPhase(AdminRole::Superadmin),
            class: ApplyClass::ImmediateGlobal,
            check: Check::ProposalTtl,
        }),
        catalog_rows()[37] == (RuleView {
            key: "dual_control_delay_secs"@,
            pattern: false,
            write: WriteRule::TwoPhase(AdminRole::Superadmin),
            class: ApplyClass::ImmediateGlobal,
            check: Check::DualDelay,
        }),
        catalog_rows()[38] == (RuleView {
            key: "deposit_kyc_tier"@,
            pattern: false,
            write: WriteRule::TwoPhase(AdminRole::Finance),
            class: ApplyClass::NextTrade,
            check: Check::KycTier,
        }),
        catalog_rows()[39] == (RuleView {
            key: "withdraw_kyc_tier"@,
            pattern: false,
            write: WriteRule::TwoPhase(AdminRole::Finance),
            class: ApplyClass::NextTrade,
            check: Check::KycTier,
        }),
        catalog_rows()[40] == (RuleView {
            key: "withdraw_min_micro"@,
            pattern: false,
            write: WriteRule::TwoPhase(AdminRole::Finance),
            class: ApplyClass::NextTrade,
            check: Check::WithdrawMin,
        }),
        catalog_rows()[41] == (RuleView {
            key: "withdraw_max_micro"@,
            pattern: false,
            write: WriteRule::TwoPhase(AdminRole::Finance),
            class: ApplyClass::NextTrade,
            check: Check::WithdrawMax,
        }),
        catalog_rows()[42] == (RuleView {
            key: "withdraw_daily_limit_micro"@,
            pattern: false,
            write: WriteRule::TwoPhase(AdminRole::Finance),
            class: ApplyClass::NextTrade,
            check: Check::WithdrawDaily,
        }),
        catalog_rows()[43] == (RuleView {
            key: "withdraw_auto_approve_micro"@,
            pattern: false,
            write: WriteRule::TwoPhase(AdminRole::Finance),
            class: ApplyClass::NextTrade,
            check: Check::AutoApprove,
        }),
        catalog_rows()[44] == (RuleView {
            key: "withdraw_dual_control_micro"@,
            pattern: false,
            write: WriteRule::TwoPhase(AdminRole::Superadmin),
            class: ApplyClass::NextTrade,
            check: Check::DualControl,
        }),
        catalog_rows()[45] == (RuleView {
            key: "dest_warm_floor_micro"@,
            pattern: false,
            write: WriteRule::TwoPhase(AdminRole::Finance),
            class: ApplyClass::NextTrade,
            check: Check::WarmFloor,
        }),
        catalog_rows()[46] == (RuleView {
            key: "dest_warm_age_hours"@,
            pattern: false,
            write: WriteRule::TwoPhase(AdminRole::Finance),
            class: ApplyClass::NextTrade,
            check: Check::WarmAge,
        }),
        catalog_rows()[47] == (RuleView {
            key: "dest_daily_limit_micro"@,
            pattern: false,
            write: WriteRule::TwoPhase(AdminRole::Finance),
            class: ApplyClass::NextTrade,
            check: Check::DestDaily,
        }),
        catalog_rows()[48] == (RuleView {
            key: "hot_wallet_daily_limit_micro"@,
            pattern: false,
            write: WriteRule::TwoPhase(AdminRole::Superadmin),
            class: ApplyClass::NextTrade,
            check: Check::HotWallet,
        }),
        catalog_rows()[49] == (RuleView {
            key: "deposit_confirmations"@,
            pattern: false,
            write: WriteRule::TwoPhase(AdminRole::Ops),
            class: ApplyClass::ImmediateGlobal,
            check: Check::Confirmations,
        }),
        catalog_rows()[50] == (RuleView {
            key: "pause_deposits"@,
            pattern: false,
            write: WriteRule::Direct(AdminRole::Ops),
            class: ApplyClass::ImmediateGlobal,
            check: Check::Bool,
        }),
        catalog_rows()[51] == (RuleView {
            key: "pause_withdrawals"@,
            pattern: false,
            write: WriteRule::Direct(AdminRole::Ops),
            class: ApplyClass::ImmediateGlobal,
            check: Check::Bool,
        }),
        catalog_rows()[52] == (RuleView {
            key: "credit_signup_micro"@,
            pattern: false,
            write: WriteRule::TwoPhase(AdminRole::Finance),
            class: ApplyClass::NextTrade,
            check: Check::CreditGrant,
        }),
        catalog_rows()[53] == (RuleView {
            key: "credit_referral_referrer_micro"@,
            pattern: false,
            write: WriteRule::TwoPhase(AdminRole::Finance),
            class: ApplyClass::NextTrade,
            check: Check::CreditGrant,
        }),
        catalog_rows()[54] == (RuleView {
            key: "credit_referral_referee_micro"@,
            pattern: false,
            write: WriteRule::TwoPhase(AdminRole::Finance),
            class: ApplyClass::NextTrade,
            check: Check::CreditGrant,
        }),
        catalog_rows()[55] == (RuleView {
            key: "referral_min_notional_micro"@,
            pattern: false,
            write: WriteRule::TwoPhase(AdminRole::Finance),
            class: ApplyClass::NextTrade,
            check: Check::ReferralMin,
        }),
        catalog_rows()[56] == (RuleView {
            key: "bonus_mint_daily_cap_micro"@,
            pattern: false,
            write: WriteRule::TwoPhase(AdminRole::Finance),
            class: ApplyClass::NextTrade,
            check: Check::BonusMint,
        }),
        catalog_rows()[57] == (RuleView {
            key: "bonus_structure"@,
            pattern: false,
            write: WriteRule::TwoPhase(AdminRole::Superadmin),
            class: ApplyClass::NextTrade,
            check: Check::BonusStructure,
        }),
        catalog_rows()[58] == (RuleView {
            key: "aml_deposit_velocity_micro_24h"@,
            pattern: false,
            write: WriteRule::TwoPhase(AdminRole::Finance),
            class: ApplyClass::ImmediateGlobal,
            check: Check::AmlVelocity,
        }),
        catalog_rows()[59] == (RuleView {
            key: "aml_withdraw_velocity_micro_24h"@,
            pattern: false,
            write: WriteRule::TwoPhase(AdminRole::Finance),
            class: ApplyClass::ImmediateGlobal,
            check: Check::AmlVelocity,
        }),
        catalog_rows()[60] == (RuleView {
            key: "aml_structuring_n"@,
            pattern: false,
            write: WriteRule::TwoPhase(AdminRole::Finance),
            class: ApplyClass::ImmediateGlobal,
            check: Check::StructuringN,
        }),
        catalog_rows()[61] == (RuleView {
            key: "aml_structuring_window_hours"@,
            pattern: false,
            write: WriteRule::TwoPhase(AdminRole::Finance),
            class: ApplyClass::ImmediateGlobal,
            check: Check::StructuringWindow,
        }),
        catalog_rows()[62] == (RuleView {
            key: "aml_structuring_threshold_micro"@,
            pattern: false,
            write: WriteRule::TwoPhase(AdminRole::Finance),
            class: ApplyClass::ImmediateGlobal,
            check: Check::StructuringThreshold,
        }),
        catalog_rows()[63] == (RuleView {
            key: "aml_structuring_floor_micro"@,
            pattern: false,
            write: WriteRule::TwoPhase(AdminRole::Finance),
            class: ApplyClass::ImmediateGlobal,
            check: Check::StructuringFloor,
        }),
        catalog_rows()[64] == (RuleView {
            key: "shadow_trade_cap_micro"@,
            pattern: false,
            write: WriteRule::Direct(AdminRole::Ops),
            class: ApplyClass::NextTrade,
            check: Check::ShadowCap,
        }),
        catalog_rows()[65] == (RuleView {
            key: "shadow_deposit_cap_micro"@,
            pattern: false,
            write: WriteRule::Direct(AdminRole::Ops),
            class: ApplyClass::NextTrade,
            check: Check::ShadowCap,
        }),
        catalog_rows()[66] == (RuleView {
            key: "stuck_send_sla_secs"@,
            pattern: false,
            write: WriteRule::TwoPhase(AdminRole::Ops),
            class: ApplyClass::ImmediateGlobal,
            check: Check::StuckSla,
        }),
        catalog_rows()[67] == (RuleView {
            key: "stuck_screening_sla_secs"@,
            pattern: false,
            write: WriteRule::TwoPhase(AdminRole::Ops),
            class: ApplyClass::ImmediateGlobal,
            check: Check::StuckSla,
        }),
        catalog_rows()[68] == (RuleView {
            key: "region_allowset"@,
            pattern: false,
            write: WriteRule::TwoPhase(AdminRole::Superadmin),
            class: ApplyClass::NextTrade,
            check: Check::RegionAllowset,
        }),
        catalog_rows()[69] == (RuleView {
            key: "region_allowset_version"@,
            pattern: false,
            write: WriteRule::TwoPhase(AdminRole::Superadmin),
            class: ApplyClass::NextTrade,
            check: Check::RegionVersion,
        }),
        catalog_rows()[70] == (RuleView {
            key: "withdraw_approve_daily_cap_micro"@,
            pattern: false,
            write: WriteRule::TwoPhase(AdminRole::Superadmin),
            class: ApplyClass::NextTrade,
            check: Check::ApproveDaily,
        }),
        catalog_rows()[71] == (RuleView {
            key: "bonus_reserve_topup_daily_cap_micro"@,
            pattern: false,
            write: WriteRule::TwoPhase(AdminRole::Superadmin),
            class: ApplyClass::NextTrade,
            check: Check::ReserveTopup,
        }),
        catalog_rows()[72] == (RuleView {
            key: "fee_bps_override:"@,
            pattern: true,
            write: WriteRule::TwoPhase(AdminRole::Finance),
            class: ApplyClass::NextTrade,
            check: Check::FeeOverride,
        }),
{
    reveal(catalog_rows);
}

/// A key is ruled by the first row that is for it: a plain row is for its own key
/// alone, and a pattern for itself followed by an identity.
pub proof fn law_first_matching_row_rules(rows: Seq<RuleView>, key: Seq<char>, i: int)
    requires
        0 <= i < rows.len(),
        !rows[i].pattern ==> rows[i].key == key,
        rows[i].pattern ==> exists|suffix: Seq<char>|
            key == rows[i].key + suffix && #[trigger] identity::parsed_uuid(suffix) is Some,
        forall|j: int|
            0 <= j < i ==> !(#[trigger] rows[j]).pattern && rows[j].key != key || rows[j].pattern
                && !text::starts_with(key, rows[j].key),
    ensures
        find_rule(rows, key) == Some(rows[i]),
    decreases i,
{
    if i == 0 {
        if rows[0].pattern {
            let suffix = choose|suffix: Seq<char>|
                key == rows[0].key + suffix && #[trigger] identity::parsed_uuid(suffix) is Some;
            text::law_prefixes_come_off(rows[0].key, suffix, key);
        }
    } else {
        let rest = rows.drop_first();
        assert(rest[i - 1] == rows[i]);
        assert forall|j: int| 0 <= j < i - 1 implies !(#[trigger] rest[j]).pattern && rest[j].key
            != key || rest[j].pattern && !text::starts_with(key, rest[j].key) by {
            assert(rest[j] == rows[j + 1]);
        }
        assert(!row_matches(rows[0], key));
        law_first_matching_row_rules(rest, key, i - 1);
    }
}

/// Roles are no ladder: a direct key is written by its own role alone, and a
/// two-phase key also by a superadmin.
pub proof fn law_who_may_write(role: AdminRole, listed: AdminRole)
    ensures
        may_write(role, WriteRule::Direct(listed)) <==> role == listed,
        may_write(role, WriteRule::TwoPhase(listed)) <==> role == listed || role
            == AdminRole::Superadmin,
{
}

} // verus!
