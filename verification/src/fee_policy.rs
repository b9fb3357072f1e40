//! One pure authority for tiered trade fees.

use crate::money::BasisPoints;
use vstd::prelude::*;

verus! {

/// What a trade's fee depends on.
#[derive(Clone, Copy, Debug, Eq, PartialEq)]
pub struct FeeContext {
    pub base_bps: u16,
    pub tier: u8,
    pub discount_bp_by_tier: [u16; 5],
    pub min_fee_bps: u16,
    pub is_flip_within_window: bool,
}

/// The fee rate: a recent-buy sell pays the base rate; every other trade gets
/// the discount of its tier (the top tier for any tier above it), down to the
/// floor.
pub open spec fn fee_rate(
    base_bps: int,
    tier: int,
    discount_bp_by_tier: Seq<u16>,
    min_fee_bps: int,
    is_flip_within_window: bool,
) -> int {
    let index = if tier > 4 {
        4
    } else {
        tier
    };
    let discounted = base_bps - discount_bp_by_tier[index];
    if is_flip_within_window {
        base_bps
    } else if discounted < min_fee_bps {
        min_fee_bps
    } else {
        discounted
    }
}

impl FeeContext {
    /// The fee rate in this context.
    pub open spec fn rate(&self) -> int {
        fee_rate(
            self.base_bps as int,
            self.tier as int,
            self.discount_bp_by_tier@,
            self.min_fee_bps as int,
            self.is_flip_within_window,
        )
    }
}

/// A discount never takes the fee below the floor nor raises it above the
/// greater of base and floor; a flip pays exactly the base rate.
pub proof fn law_fee_stays_between_floor_and_base(ctx: FeeContext)
    ensures
        ctx.is_flip_within_window ==> ctx.rate() == ctx.base_bps,
        !ctx.is_flip_within_window ==> ctx.min_fee_bps <= ctx.rate(),
        ctx.rate() <= ctx.base_bps || ctx.rate() == ctx.min_fee_bps,
{
}

/// Returns the authoritative fee for a trade.
#[must_use]
pub fn effective_fee(ctx: &FeeContext) -> (r: BasisPoints)
    ensures
        r.0 == ctx.rate(),
{
    if ctx.is_flip_within_window {
        return BasisPoints(ctx.base_bps);
    }
    let index: usize = if ctx.tier > 4 {
        4
    } else {
        ctx.tier as usize
    };
    let discounted: u16 = ctx.base_bps.saturating_sub(ctx.discount_bp_by_tier[index]);
    if discounted < ctx.min_fee_bps {
        BasisPoints(ctx.min_fee_bps)
    } else {
        BasisPoints(discounted)
    }
}

/// A trade outside the flip window pays the base less its tier's discount, but no
/// less than the floor; a flip pays the base; tiers above the top one count as
/// the top one.
pub proof fn law_fee_is_the_base_less_the_discount(ctx: FeeContext, tier: int)
    requires
        tier == ctx.tier || (tier == 4 && ctx.tier > 4),
        tier <= 4,
    ensures
        ctx.is_flip_within_window ==> ctx.rate() == ctx.base_bps,
        !ctx.is_flip_within_window && ctx.base_bps >= ctx.discount_bp_by_tier@[tier]
            + ctx.min_fee_bps ==> ctx.rate() + ctx.discount_bp_by_tier@[tier] == ctx.base_bps,
        !ctx.is_flip_within_window && ctx.base_bps <= ctx.discount_bp_by_tier@[tier]
            + ctx.min_fee_bps ==> ctx.rate() == ctx.min_fee_bps,
{
}

} // verus!
