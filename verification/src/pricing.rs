//! The fee of one trade, the same for its preview and its execution.

use crate::clock;
use crate::clock::Timestamp;
use crate::fee_policy;
use crate::fee_policy::{effective_fee, FeeContext};
use crate::model::{RepConfig, TradeAction};
use crate::money::BasisPoints;
use crate::ops::staleness;
use vstd::prelude::*;

verus! {

/// The trade sells what was bought within the flip window.
pub open spec fn is_flip(
    action: TradeAction,
    window: u64,
    last_buy_at: Option<Timestamp>,
    now: Timestamp,
) -> bool {
    action == TradeAction::Sell && window != 0 && (match last_buy_at {
        Some(last) => now.0 - last.0 < clock::nanos(staleness::window_secs(window)),
        None => false,
    })
}

/// The fee of a trade.
pub open spec fn trade_fee(
    action: TradeAction,
    rep: RepConfig,
    tier: u8,
    base_bps: u16,
    last_buy_at: Option<Timestamp>,
    now: Timestamp,
) -> BasisPoints {
    BasisPoints(
        fee_policy::fee_rate(
            base_bps as int,
            tier as int,
            rep.fee_discount_bp_by_tier@,
            rep.min_fee_bps as int,
            is_flip(action, rep.discount_flip_window_secs, last_buy_at, now),
        ) as u16,
    )
}

/// The trade sells what was bought within the flip window.
pub fn flips_within_window(
    action: TradeAction,
    window: u64,
    last_buy_at: Option<Timestamp>,
    now: Timestamp,
) -> (r: bool)
    requires
        now.wf(),
        last_buy_at matches Some(last) ==> last.wf(),
    ensures
        r == is_flip(action, window, last_buy_at, now),
{
    match action {
        TradeAction::Buy => false,
        TradeAction::Sell => {
            if window == 0 {
                return false;
            }
            let secs: i64 = if window > i64::MAX as u64 {
                i64::MAX
            } else {
                window as i64
            };
            match last_buy_at {
                Some(last) => now.0 - last.0 < secs as i128 * 1_000_000_000,
                None => false,
            }
        },
    }
}

/// The fee of a trade: the effective fee of its tier from the market's base,
/// which an override replaces.
pub fn fee_for_trade(
    action: TradeAction,
    rep: &RepConfig,
    tier: u8,
    base_bps: u16,
    last_buy_at: Option<Timestamp>,
    now: Timestamp,
) -> (r: BasisPoints)
    requires
        now.wf(),
        last_buy_at matches Some(last) ==> last.wf(),
    ensures
        r == trade_fee(action, *rep, tier, base_bps, last_buy_at, now),
{
    effective_fee(
        &FeeContext {
            base_bps,
            tier,
            discount_bp_by_tier: rep.fee_discount_bp_by_tier,
            min_fee_bps: rep.min_fee_bps,
            is_flip_within_window: flips_within_window(
                action,
                rep.discount_flip_window_secs,
                last_buy_at,
                now,
            ),
        },
    )
}

/// The flip window is open at its end: a sell exactly one window after the buy
/// earns the discount again.
pub proof fn law_flip_boundary_earns_the_discount(window: u64, last: Timestamp, now: Timestamp)
    requires
        now.0 - last.0 >= clock::nanos(staleness::window_secs(window)),
    ensures
        !is_flip(TradeAction::Sell, window, Some(last), now),
{
}

/// What a trade pays, in the configuration's own numbers: a sell less than the
/// flip window after the buyer's last buy pays the base; every other trade pays
/// the base less its tier's discount, but no less than the floor.
pub proof fn law_fee_of_a_trade(
    action: TradeAction,
    rep: RepConfig,
    tier: u8,
    base_bps: u16,
    last_buy_at: Option<Timestamp>,
    now: Timestamp,
)
    requires
        tier <= 4,
        rep.discount_flip_window_secs <= i64::MAX,
    ensures
        ({
            let fee = trade_fee(action, rep, tier, base_bps, last_buy_at, now).0;
            let discount = rep.fee_discount_bp_by_tier@[tier as int];
            let flip = action == TradeAction::Sell && (last_buy_at matches Some(last) && now.0
                - last.0 < 1_000_000_000 * rep.discount_flip_window_secs)
                && rep.discount_flip_window_secs > 0;
            &&& flip ==> fee == base_bps
            &&& !flip && base_bps >= discount + rep.min_fee_bps ==> fee + discount == base_bps
            &&& !flip && base_bps <= discount + rep.min_fee_bps ==> fee == rep.min_fee_bps
        }),
{
}

} // verus!
