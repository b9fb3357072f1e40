//! Previews of trades: numbers only, nothing written. Previews are advisory
//! and can go stale; placing a trade validates everything again.

use crate::amm;
use crate::amm::{Pool, Side};
use crate::clock::Timestamp;
use crate::error::{AppError, Fault};
use crate::json;
use crate::json::Json;
use crate::market::MarketState;
use crate::model::{MarketId, MarketRow, OutcomeId, PositionRow, RepConfig, TradeAction, UserId};
use crate::money::{BasisPoints, MicroShares, MicroUsd};
use crate::ops::fee_override;
use crate::ops::fee_override::FeeBpsOverride;
use crate::ops::fences;
use crate::place_trade;
use crate::place_trade::PlaceTradeCmd;
use crate::pricing;
use vstd::prelude::*;

verus! {

/// All-in gross price per whole share, rounded down.
pub open spec fn average_price(gross: int, shares: int) -> int {
    gross * 1_000_000 / shares
}

/// Rounding a magnitude up rounds the negative number down.
proof fn lemma_floor_of_negative(magnitude: int, by: int)
    requires
        magnitude > 0,
        by > 0,
    ensures
        -magnitude / by == -((magnitude + by - 1) / by),
{
    let up = (magnitude + by - 1) / by;
    vstd::arithmetic::div_mod::lemma_fundamental_div_mod(magnitude + by - 1, by);
    vstd::arithmetic::div_mod::lemma_mod_bound(magnitude + by - 1, by);
    let rest = up * by - magnitude;
    assert(by * up == up * by) by (nonlinear_arith);
    assert(-magnitude == -up * by + rest) by (nonlinear_arith)
        requires
            rest == up * by - magnitude,
    ;
    vstd::arithmetic::div_mod::lemma_fundamental_div_mod_converse(-magnitude, by, -up, rest);
}

/// All-in gross price per whole share, rounded down, for display only.
///
/// # Errors
///
/// [`AppError::Overflow`] for a non-positive number of shares or a price that
/// does not fit.
pub fn avg_price_micro(gross: MicroUsd, shares: MicroShares) -> (r: Result<i64, AppError>)
    ensures
        if shares.0 <= 0 || !(i64::MIN <= average_price(gross.0 as int, shares.0 as int)
            <= i64::MAX) {
            r matches Err(e) && e@ == Fault::Overflow
        } else {
            r == Ok::<i64, AppError>(average_price(gross.0 as int, shares.0 as int) as i64)
        },
        r matches Ok(p) ==> p * shares.0 <= gross.0 * 1_000_000 < (p + 1) * shares.0,
        shares.0 <= 0 ==> r is Err,
{
    proof {
        if shares.0 > 0 {
            crate::money::lemma_floor(gross.0 * 1_000_000, shares.0 as int);
        }
    }
    if shares.0 <= 0 {
        return Err(AppError::Overflow);
    }
    let scaled: i128 = gross.0 as i128 * 1_000_000;
    let average: i128 = if scaled >= 0 {
        scaled / shares.0 as i128
    } else {
        proof {
            lemma_floor_of_negative(-scaled as int, shares.0 as int);
        }
        -((-scaled + shares.0 as i128 - 1) / shares.0 as i128)
    };
    if average < i64::MIN as i128 || average > i64::MAX as i128 {
        return Err(AppError::Overflow);
    }
    Ok(average as i64)
}

/// A request for a preview.
#[derive(Debug, Clone, PartialEq, Eq)]
pub struct PreviewTradeCmd {
    /// Market UUID string or slug.
    pub market_ref: String,
    pub user_id: UserId,
    pub side: Side,
    pub action: TradeAction,
    /// Collateral micro-USD for buys; micro-shares for sells.
    pub amount_micro: i64,
}

/// Quote numbers only: no ids, nothing persisted.
#[derive(Debug, Clone, Copy, PartialEq, Eq, Structural)]
pub struct TradePreview {
    pub market: MarketId,
    pub side: Side,
    pub action: TradeAction,
    pub shares: MicroShares,
    pub gross: MicroUsd,
    pub fee: MicroUsd,
    pub avg_price_micro: i64,
    /// Configuration generation this preview quoted against. Placing the trade
    /// echoes it, and is refused iff a relevant key changed since.
    pub config_version: i64,
}

/// What a preview has read so far.
#[derive(Debug, PartialEq, Eq)]
pub struct PreviewFacts {
    pub generation: Option<i64>,
    pub market: Option<(MarketRow, Timestamp)>,
    pub voting_paused: Option<Option<Json>>,
    pub pool: Option<Pool>,
    pub tier: Option<u8>,
    pub last_buy_at: Option<(Option<Timestamp>, Timestamp)>,
    pub fee_override: Option<Option<Json>>,
}

/// What a preview reads next.
#[derive(Debug, Clone, Copy, PartialEq, Eq, Structural)]
pub enum PreviewNeed {
    CurrentGeneration,
    MarketByRef,
    VotingPaused(MarketId),
    Pool(MarketId),
    UserTier,
    LastBuyAt(OutcomeId),
    FeeOverride(MarketId),
}

/// What becomes of a preview next.
#[derive(Debug, PartialEq, Eq)]
pub enum PreviewStep {
    Need(PreviewNeed),
    Refuse(AppError),
    Quote(TradePreview),
}

/// What becomes of a preview next, refusals as plain values.
pub enum PreviewVerdict {
    Need(PreviewNeed),
    Refuse(Fault),
    Quote(TradePreview),
}

impl View for PreviewStep {
    type V = PreviewVerdict;

    open spec fn view(&self) -> PreviewVerdict {
        match self {
            PreviewStep::Need(n) => PreviewVerdict::Need(*n),
            PreviewStep::Refuse(e) => PreviewVerdict::Refuse(e@),
            PreviewStep::Quote(p) => PreviewVerdict::Quote(*p),
        }
    }
}

impl PreviewFacts {
    /// Nothing read yet.
    pub fn new() -> (r: Self)
        ensures
            r.wf(),
            r.generation is None && r.market is None && r.voting_paused is None && r.pool is None
                && r.tier is None && r.last_buy_at is None && r.fee_override is None,
    {
        PreviewFacts {
            generation: None,
            market: None,
            voting_paused: None,
            pool: None,
            tier: None,
            last_buy_at: None,
            fee_override: None,
        }
    }

    /// Pools are valid and times lie within the calendar.
    pub open spec fn wf(&self) -> bool {
        &&& self.pool matches Some(pool) ==> pool.wf()
        &&& self.last_buy_at matches Some(read) ==> read.1.wf() && (read.0 matches Some(last)
            ==> last.wf())
    }
}

/// The numbers of a preview.
pub open spec fn quoted(
    market: MarketId,
    side: Side,
    action: TradeAction,
    amount_micro: i64,
    pool: Pool,
    fee: BasisPoints,
    config_version: i64,
) -> Result<TradePreview, Fault> {
    match action {
        TradeAction::Buy => match amm::buy_quote(pool, side, MicroUsd(amount_micro), fee) {
            Err(e) => Err(Fault::Amm(e)),
            Ok(q) => Ok(
                TradePreview {
                    market,
                    side,
                    action,
                    shares: q.shares_out,
                    gross: MicroUsd(amount_micro),
                    fee: q.fee,
                    avg_price_micro: q.avg_price_micro_per_share,
                    config_version,
                },
            ),
        },
        TradeAction::Sell => match amm::sell_quote(pool, side, MicroShares(amount_micro), fee) {
            Err(e) => Err(Fault::Amm(e)),
            Ok(q) => Ok(
                TradePreview {
                    market,
                    side,
                    action,
                    shares: MicroShares(amount_micro),
                    gross: MicroUsd((q.collateral_out.0 + q.fee.0) as i64),
                    fee: q.fee,
                    avg_price_micro: average_price(
                        q.collateral_out.0 + q.fee.0,
                        amount_micro as int,
                    ) as i64,
                    config_version,
                },
            ),
        },
    }
}

/// A voting pause can be in force: the market is live and its tally not yet
/// hidden.
pub open spec fn pause_window(row: MarketRow, now: Timestamp) -> bool {
    row.state == MarketState::Live && now.0 < row.tally_hidden_at.0
}

/// The step after the market was found and is not paused.
pub open spec fn preview_quote_step(
    cmd: PreviewTradeCmd,
    facts: PreviewFacts,
    rep: RepConfig,
    generation: i64,
    row: MarketRow,
) -> PreviewVerdict {
    match facts.pool {
        None => PreviewVerdict::Need(PreviewNeed::Pool(row.id)),
        Some(pool) => match facts.tier {
            None => PreviewVerdict::Need(PreviewNeed::UserTier),
            Some(tier) => if cmd.action == TradeAction::Sell && rep.discount_flip_window_secs != 0
                && facts.last_buy_at is None {
                PreviewVerdict::Need(PreviewNeed::LastBuyAt(row.outcome_of(cmd.side)))
            } else {
                let read = match facts.last_buy_at {
                    Some(read) => read,
                    None => (None, Timestamp(0)),
                };
                match facts.fee_override {
                    None => PreviewVerdict::Need(PreviewNeed::FeeOverride(row.id)),
                    Some(stored) => match fee_override::stored_override(
                        json::option_view(stored),
                    ) {
                        None => PreviewVerdict::Refuse(fee_override::malformed_override()),
                        Some(active) => match quoted(
                            row.id,
                            cmd.side,
                            cmd.action,
                            cmd.amount_micro,
                            pool,
                            pricing::trade_fee(
                                cmd.action,
                                rep,
                                tier,
                                active.base(pool.fee.0),
                                read.0,
                                read.1,
                            ),
                            generation,
                        ) {
                            Err(f) => PreviewVerdict::Refuse(f),
                            Ok(p) => PreviewVerdict::Quote(p),
                        },
                    },
                }
            },
        },
    }
}

/// What becomes of a preview after what was read so far.
pub open spec fn preview_step(
    cmd: PreviewTradeCmd,
    facts: PreviewFacts,
    rep: RepConfig,
) -> PreviewVerdict {
    match facts.generation {
        None => PreviewVerdict::Need(PreviewNeed::CurrentGeneration),
        Some(generation) => match facts.market {
            None => PreviewVerdict::Need(PreviewNeed::MarketByRef),
            Some(read) => if pause_window(read.0, read.1) && facts.voting_paused is None {
                PreviewVerdict::Need(PreviewNeed::VotingPaused(read.0.id))
            } else if pause_window(read.0, read.1) && fences::paused(
                json::option_view(facts.voting_paused.unwrap()),
            ) {
                PreviewVerdict::Refuse(Fault::VotingPaused)
            } else {
                preview_quote_step(cmd, facts, rep, generation, read.0)
            },
        },
    }
}

/// The quote of a preview.
fn quote_preview(
    market: MarketId,
    side: Side,
    action: TradeAction,
    amount_micro: i64,
    pool: &Pool,
    fee: BasisPoints,
    config_version: i64,
) -> (r: Result<TradePreview, AppError>)
    requires
        pool.wf(),
    ensures
        match quoted(market, side, action, amount_micro, *pool, fee, config_version) {
            Ok(p) => r == Ok::<TradePreview, AppError>(p),
            Err(f) => r matches Err(e) && e@ == f,
        },
{
    match action {
        TradeAction::Buy => {
            let gross = MicroUsd(amount_micro);
            match amm::quote_buy(pool, side, gross, fee) {
                Err(e) => Err(AppError::Amm(e)),
                Ok(q) => Ok(
                    TradePreview {
                        market,
                        side,
                        action,
                        shares: q.shares_out,
                        gross,
                        fee: q.fee,
                        avg_price_micro: q.avg_price_micro_per_share,
                        config_version,
                    },
                ),
            }
        },
        TradeAction::Sell => {
            let shares = MicroShares(amount_micro);
            proof {
                amm::lemma_sell_facts(*pool, side, shares, fee);
            }
            match amm::quote_sell(pool, side, shares, fee) {
                Err(e) => Err(AppError::Amm(e)),
                Ok(q) => {
                    let gross = MicroUsd(q.collateral_out.0 + q.fee.0);
                    proof {
                        lemma_average_fits(gross.0 as int, shares.0 as int);
                    }
                    match avg_price_micro(gross, shares) {
                        Err(e) => Err(e),
                        Ok(average) => Ok(
                            TradePreview {
                                market,
                                side,
                                action,
                                shares,
                                gross,
                                fee: q.fee,
                                avg_price_micro: average,
                                config_version,
                            },
                        ),
                    }
                },
            }
        },
    }
}

/// Proceeds of at most one micro per micro-share cost at most one dollar a
/// share.
proof fn lemma_average_fits(gross: int, shares: int)
    requires
        0 <= gross <= shares,
        0 < shares,
    ensures
        0 <= average_price(gross, shares) <= 1_000_000,
{
    let n = gross * 1_000_000;
    assert(0 <= n / shares <= 1_000_000) by (nonlinear_arith)
        requires
            0 <= n <= shares * 1_000_000,
            0 < shares,
    ;
}

/// Previewing trades under the committed economy values.
#[derive(Debug, Clone, Copy, PartialEq, Eq)]
pub struct PreviewTrade {
    pub rep_config: RepConfig,
}

impl PreviewTrade {
    /// What to read next, or the preview. Reads only; nothing is written.
    pub fn execute(&self, cmd: &PreviewTradeCmd, facts: &PreviewFacts) -> (r: PreviewStep)
        requires
            facts.wf(),
        ensures
            r@ == preview_step(*cmd, *facts, self.rep_config),
    {
        let generation: i64 = match facts.generation {
            Some(generation) => generation,
            None => return PreviewStep::Need(PreviewNeed::CurrentGeneration),
        };
        let (row, now) = match facts.market {
            Some(read) => read,
            None => return PreviewStep::Need(PreviewNeed::MarketByRef),
        };
        if row.state == MarketState::Live && now.before(row.tally_hidden_at) {
            let paused = match &facts.voting_paused {
                None => return PreviewStep::Need(PreviewNeed::VotingPaused(row.id)),
                Some(None) => fences::pause_in_force(None),
                Some(Some(v)) => fences::pause_in_force(Some(v)),
            };
            if paused {
                return PreviewStep::Refuse(AppError::VotingPaused);
            }
        }
        let pool: Pool = match facts.pool {
            Some(pool) => pool,
            None => return PreviewStep::Need(PreviewNeed::Pool(row.id)),
        };
        let tier: u8 = match facts.tier {
            Some(tier) => tier,
            None => return PreviewStep::Need(PreviewNeed::UserTier),
        };
        let (last_buy_at, read_at) = match facts.last_buy_at {
            Some(read) => read,
            None => {
                if cmd.action == TradeAction::Sell && self.rep_config.discount_flip_window_secs != 0 {
                    return PreviewStep::Need(PreviewNeed::LastBuyAt(row.outcome(cmd.side)));
                }
                (None, Timestamp(0))
            },
        };
        let stored: Option<&Json> = match &facts.fee_override {
            None => return PreviewStep::Need(PreviewNeed::FeeOverride(row.id)),
            Some(None) => None,
            Some(Some(v)) => Some(v),
        };
        let active = match FeeBpsOverride::parse(stored) {
            Ok(active) => active,
            Err(e) => return PreviewStep::Refuse(e),
        };
        let fee = pricing::fee_for_trade(
            cmd.action,
            &self.rep_config,
            tier,
            active.base_bps(pool.fee.0),
            last_buy_at,
            read_at,
        );
        match quote_preview(
            row.id,
            cmd.side,
            cmd.action,
            cmd.amount_micro,
            &pool,
            fee,
            generation,
        ) {
            Ok(p) => PreviewStep::Quote(p),
            Err(e) => PreviewStep::Refuse(e),
        }
    }
}

/// Preview and execution share one policy: whatever is placed against the same
/// pool at the same fee executes with exactly the numbers that its preview
/// showed.
pub proof fn law_preview_matches_execution(
    cmd: PlaceTradeCmd,
    pool: Pool,
    outcome: OutcomeId,
    held: Option<PositionRow>,
    fee: BasisPoints,
    config_version: i64,
)
    requires
        pool.wf(),
    ensures
        place_trade::legs_of(cmd, pool, outcome, held, fee) matches Ok(legs) ==> (quoted(
            cmd.market,
            cmd.side,
            cmd.action,
            cmd.amount_micro,
            pool,
            fee,
            config_version,
        ) matches Ok(p) && p.shares == legs.shares && p.gross == legs.gross && p.fee == legs.fee
            && p.avg_price_micro == legs.avg_price_micro),
{
}

/// A preview and a trade ask for the same: the same side, action and amount, by
/// the same user.
pub open spec fn same_request(preview: PreviewTradeCmd, trade: PlaceTradeCmd) -> bool {
    &&& preview.user_id == trade.user
    &&& preview.side == trade.side
    &&& preview.action == trade.action
    &&& preview.amount_micro == trade.amount_micro
}

/// A preview and a trade have read the same of the market and of the user.
pub open spec fn same_readings(preview: PreviewFacts, trade: place_trade::TradeFacts) -> bool {
    &&& preview.market == trade.market
    &&& preview.pool == trade.pool
    &&& preview.tier == trade.tier
    &&& preview.last_buy_at == trade.last_buy_at
    &&& preview.fee_override == trade.fee_override
    &&& preview.voting_paused == trade.voting_paused
}

/// What is shown is what is traded: from the same readings, a trade that is
/// applied has the very shares, gross, fee and average price that its preview
/// quotes, and such a trade has a preview that quotes.
pub proof fn law_applied_trades_have_their_preview_numbers(
    ask: PreviewTradeCmd,
    cmd: PlaceTradeCmd,
    shown: PreviewFacts,
    facts: place_trade::TradeFacts,
    rep: RepConfig,
)
    requires
        facts.wf(),
        same_request(ask, cmd),
        same_readings(shown, facts),
        shown.generation is Some,
        place_trade::trade_step(cmd, facts, rep) is Apply,
    ensures
        preview_step(ask, shown, rep) matches PreviewVerdict::Quote(p) && (
        place_trade::trade_step(cmd, facts, rep) matches place_trade::TradeVerdict::Apply(plan)
            && p.shares == plan.legs.shares && p.gross == plan.legs.gross && p.fee == plan.legs.fee
            && p.avg_price_micro == plan.legs.avg_price_micro) && shown.generation == Some(
            p.config_version,
        ),
{
    let plan = place_trade::trade_step(cmd, facts, rep)->Apply_0;
    let row = facts.market.unwrap().0;
    law_preview_matches_execution(
        cmd,
        facts.pool.unwrap(),
        row.outcome_of(cmd.side),
        facts.held.unwrap(),
        plan.fee_rate,
        shown.generation.unwrap(),
    );
}

/// The numbers of a preview: a buy shows the whole amount as what it costs, a
/// sell the whole amount as the shares sold; the fee is the least that covers its
/// rate, and the average is the price per million shares, rounded down.
pub proof fn law_what_a_preview_shows(
    market: MarketId,
    side: Side,
    action: TradeAction,
    amount_micro: i64,
    pool: Pool,
    fee: BasisPoints,
    config_version: i64,
)
    requires
        pool.wf(),
    ensures
        quoted(market, side, action, amount_micro, pool, fee, config_version) matches Ok(p) ==> ({
            &&& p.market == market && p.side == side && p.action == action && p.config_version
                == config_version
            &&& action == TradeAction::Buy ==> p.gross.0 == amount_micro
            &&& action == TradeAction::Sell ==> p.shares.0 == amount_micro
            &&& p.gross.0 * fee.0 <= 10_000 * p.fee.0 < p.gross.0 * fee.0 + 10_000
            &&& action == TradeAction::Buy ==> p.avg_price_micro * p.shares.0 <= p.gross.0
                * 1_000_000 < (p.avg_price_micro + 1) * p.shares.0
            &&& action == TradeAction::Sell ==> p.avg_price_micro * p.shares.0 <= p.gross.0
                * 1_000_000 < (p.avg_price_micro + 1) * p.shares.0
        }),
{
    match action {
        TradeAction::Buy => {
            amm::lemma_buy_facts(pool, side, MicroUsd(amount_micro), fee);
            amm::law_buy_follows_the_curve(pool, side, MicroUsd(amount_micro), fee);
        },
        TradeAction::Sell => {
            let shares = MicroShares(amount_micro);
            amm::lemma_sell_facts(pool, side, shares, fee);
            amm::law_sell_follows_the_curve(pool, side, shares, fee);
            if let Ok(q) = amm::sell_quote(pool, side, shares, fee) {
                let gross = q.collateral_out.0 + q.fee.0;
                crate::money::lemma_floor(gross * 1_000_000, amount_micro as int);
                assert(0 <= average_price(gross, amount_micro as int) <= 1_000_000)
                    by (nonlinear_arith)
                    requires
                        0 < gross <= amount_micro,
                        average_price(gross, amount_micro as int) == gross * 1_000_000int / (
                        amount_micro as int),
                ;
            }
        },
    }
}

/// A preview is refused for a voting pause exactly where the market is live
/// before its tally is hidden and the flag reads `true`; a market in any other
/// state is quoted all the same.
pub proof fn law_when_a_preview_is_paused(
    cmd: PreviewTradeCmd,
    facts: PreviewFacts,
    rep: RepConfig,
    generation: i64,
    row: MarketRow,
    now: Timestamp,
    pool: Pool,
    tier: u8,
)
    requires
        facts.generation == Some(generation),
        facts.market == Some((row, now)),
        facts.pool == Some(pool),
        facts.tier == Some(tier),
        facts.last_buy_at is Some,
        facts.fee_override == Some(None::<Json>),
        facts.voting_paused is Some,
    ensures
        preview_step(cmd, facts, rep) == PreviewVerdict::Refuse(Fault::VotingPaused) <==> row.state
            == MarketState::Live && now.0 < row.tally_hidden_at.0 && (
        facts.voting_paused matches Some(Some(v)) && v@ == json::JsonView::Bool(true)),
        preview_step(cmd, facts, rep) != PreviewVerdict::Refuse(Fault::VotingPaused) ==> (
        match quoted(
            row.id,
            cmd.side,
            cmd.action,
            cmd.amount_micro,
            pool,
            pricing::trade_fee(
                cmd.action,
                rep,
                tier,
                pool.fee.0,
                facts.last_buy_at.unwrap().0,
                facts.last_buy_at.unwrap().1,
            ),
            generation,
        ) {
            Ok(p) => preview_step(cmd, facts, rep) == PreviewVerdict::Quote(p),
            Err(f) => preview_step(cmd, facts, rep) == PreviewVerdict::Refuse(f),
        }),
{
}

} // verus!
