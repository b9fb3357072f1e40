//! The money-moving write path of a trade. The sequence is fixed and
//! guard-first: serialize the key, look for a replay (a hit writes nothing),
//! lock the user and the market, validate under the row lock, check the vote,
//! price, check the cap, take the fences, check pauses and drift, quote, and
//! only then write. Nothing is written on a refusal.
//!
//! [`TradeFacts`] collects what a transaction has read so far;
//! [`PlaceTrade::execute`] says what to read next, or what becomes of the
//! trade.

use crate::amm;
use crate::amm::{Pool, Side};
use crate::clock;
use crate::clock::Timestamp;
use crate::error::{AppError, Fault, StoreError, StoreFault};
use crate::identity;
use crate::json;
use crate::json::{Json, JsonView};
use crate::ledger;
use crate::ledger::{AccountId, Entry};
use crate::market::MarketState;
use crate::model;
use crate::model::{
    ConfigChange, Event, EventView, LedgerTxnId, MarketId, MarketRow, NewTrade, OutcomeId,
    PositionRow, RealizationFact, RealizationSource, RepConfig, TradeAction, TradeId, TradeReceipt,
    UserId,
};
use crate::money;
use crate::money::{BasisPoints, MicroShares, MicroUsd};
use crate::ops::fee_override;
use crate::ops::fee_override::FeeBpsOverride;
use crate::ops::fences;
use crate::ops::fingerprint;
use crate::ops::staleness;
use crate::ops::staleness::StalenessContext;
use crate::preview_trade;
use crate::pricing;
use crate::text;
use vstd::prelude::*;

verus! {

/// A request to trade.
#[derive(Debug, Clone, PartialEq, Eq)]
pub struct PlaceTradeCmd {
    pub market: MarketId,
    pub user: UserId,
    pub side: Side,
    pub action: TradeAction,
    /// Collateral micro-USD for buys; micro-shares for sells.
    pub amount_micro: i64,
    /// Idempotency key: replays return the original receipt.
    pub idempotency_key: String,
    /// Agent causal chain, passed through to the trade row when supplied.
    pub run_id: Option<u128>,
    pub pending_action_id: Option<u128>,
    /// The configuration version that the preview was made under.
    pub expected_config_version: Option<i64>,
}

/// One quoted trade, normalized across buys and sells.
#[derive(Debug, Clone, Copy, PartialEq, Eq, Structural)]
pub struct QuotedLegs {
    pub shares: MicroShares,
    pub gross: MicroUsd,
    pub fee: MicroUsd,
    pub avg_price_micro: i64,
    pub pool_after: Pool,
    /// What the trade moves on the user's, the escrow's and the fee account.
    pub user_delta: i64,
    pub escrow_delta: i64,
    pub fee_delta: i64,
    pub position: PositionRow,
    pub realized_delta: Option<MicroUsd>,
}

/// `n / d` rounded toward zero, for a positive `d`.
pub open spec fn toward_zero(n: int, d: int) -> int {
    if n >= 0 {
        n / d
    } else {
        -((-n) / d)
    }
}

/// The position before the trade; nothing held is an empty position.
pub open spec fn position_before(
    user: UserId,
    outcome: OutcomeId,
    held: Option<PositionRow>,
) -> PositionRow {
    match held {
        Some(p) => p,
        None => PositionRow {
            user,
            outcome,
            shares: MicroShares(0),
            cost: MicroUsd(0),
            realized_pnl: MicroUsd(0),
        },
    }
}

/// The legs of a buy: the position grows by the shares that come out and costs
/// the gross amount more; the user pays the gross amount, of which the net goes
/// to escrow and the fee to the house.
pub open spec fn buy_legs(
    before: PositionRow,
    pool: Pool,
    side: Side,
    gross: MicroUsd,
    fee: BasisPoints,
) -> Result<QuotedLegs, Fault> {
    match amm::buy_quote(pool, side, gross, fee) {
        Err(e) => Err(Fault::Amm(e)),
        Ok(q) => if !money::fits(before.shares.0 + q.shares_out.0) || !money::fits(before.cost.0 + gross.0) {
            Err(Fault::Overflow)
        } else {
            Ok(
                QuotedLegs {
                    shares: q.shares_out,
                    gross,
                    fee: q.fee,
                    avg_price_micro: q.avg_price_micro_per_share,
                    pool_after: q.pool_after,
                    user_delta: (-gross.0) as i64,
                    escrow_delta: (gross.0 - q.fee.0) as i64,
                    fee_delta: q.fee.0,
                    position: PositionRow {
                        shares: MicroShares((before.shares.0 + q.shares_out.0) as i64),
                        cost: MicroUsd((before.cost.0 + gross.0) as i64),
                        ..before
                    },
                    realized_delta: None,
                },
            )
        },
    }
}

/// The cost that selling `sold` of `held` shares relieves: its proportional
/// part, rounded toward zero.
pub open spec fn cost_relieved(cost: int, sold: int, held: int) -> int {
    toward_zero(cost * sold, held)
}

/// The legs of a sell: the position gives up the shares and the proportional
/// part of its cost; what the proceeds are above that part is realized.
pub open spec fn sell_legs(
    before: PositionRow,
    pool: Pool,
    side: Side,
    shares: MicroShares,
    fee: BasisPoints,
) -> Result<QuotedLegs, Fault> {
    if before.shares.0 < shares.0 || shares.0 <= 0 {
        Err(Fault::InsufficientShares)
    } else {
        match amm::sell_quote(pool, side, shares, fee) {
            Err(e) => Err(Fault::Amm(e)),
            Ok(q) => {
                let proceeds = q.collateral_out.0 + q.fee.0;
                let relieved = cost_relieved(
                    before.cost.0 as int,
                    shares.0 as int,
                    before.shares.0 as int,
                );
                let pnl = q.collateral_out.0 - relieved;
                let average = preview_trade::average_price(proceeds, shares.0 as int);
                if !money::fits(pnl) || !money::fits(before.realized_pnl.0 + pnl) || !money::fits(average) {
                    Err(Fault::Overflow)
                } else {
                    Ok(
                        QuotedLegs {
                            shares,
                            gross: MicroUsd(proceeds as i64),
                            fee: q.fee,
                            avg_price_micro: average as i64,
                            pool_after: q.pool_after,
                            user_delta: q.collateral_out.0,
                            escrow_delta: (-proceeds) as i64,
                            fee_delta: q.fee.0,
                            position: PositionRow {
                                shares: MicroShares((before.shares.0 - shares.0) as i64),
                                cost: MicroUsd((before.cost.0 - relieved) as i64),
                                realized_pnl: MicroUsd((before.realized_pnl.0 + pnl) as i64),
                                ..before
                            },
                            realized_delta: Some(MicroUsd(pnl as i64)),
                        },
                    )
                }
            },
        }
    }
}

/// The legs of a request against a pool.
pub open spec fn legs_of(
    cmd: PlaceTradeCmd,
    pool: Pool,
    outcome: OutcomeId,
    held: Option<PositionRow>,
    fee: BasisPoints,
) -> Result<QuotedLegs, Fault> {
    let before = position_before(cmd.user, outcome, held);
    match cmd.action {
        TradeAction::Buy => buy_legs(before, pool, cmd.side, MicroUsd(cmd.amount_micro), fee),
        TradeAction::Sell => sell_legs(before, pool, cmd.side, MicroShares(cmd.amount_micro), fee),
    }
}

/// The part of a cost that is relieved lies between nothing and the cost.
proof fn lemma_relieved_bounds(cost: int, sold: int, held: int)
    requires
        0 < sold <= held,
    ensures
        cost >= 0 ==> 0 <= cost_relieved(cost, sold, held) <= cost,
        cost <= 0 ==> cost <= cost_relieved(cost, sold, held) <= 0,
        sold == held ==> cost_relieved(cost, sold, held) == cost,
{
    let n = cost * sold;
    if cost >= 0 {
        assert(0 <= n / held <= cost) by (nonlinear_arith)
            requires
                0 < sold <= held,
                cost >= 0,
                n == cost * sold,
        ;
        assert(n >= 0) by (nonlinear_arith)
            requires
                0 < sold,
                cost >= 0,
                n == cost * sold,
        ;
        if sold == held {
            assert(n / held == cost) by (nonlinear_arith)
                requires
                    0 < held,
                    n == cost * held,
            ;
        }
    } else {
        let m = -cost;
        assert(-n == m * sold && n < 0) by (nonlinear_arith)
            requires
                n == cost * sold,
                m == -cost,
                m > 0,
                sold > 0,
        ;
        assert(0 <= (-n) / held <= m) by (nonlinear_arith)
            requires
                0 < sold <= held,
                m >= 0,
                -n == m * sold,
        ;
        if sold == held {
            assert((-n) / held == m) by (nonlinear_arith)
                requires
                    0 < held,
                    -n == m * held,
            ;
        }
    }
}

/// Every quoted trade is balanced: what it moves on the user's, the escrow's
/// and the fee account sums to zero.
pub proof fn law_legs_balance(
    cmd: PlaceTradeCmd,
    pool: Pool,
    outcome: OutcomeId,
    held: Option<PositionRow>,
    fee: BasisPoints,
)
    requires
        pool.wf(),
    ensures
        legs_of(cmd, pool, outcome, held, fee) matches Ok(legs) ==> {
            &&& legs.user_delta + legs.escrow_delta + legs.fee_delta == 0
            &&& legs.fee_delta >= 0
            &&& legs.escrow_delta != 0
            &&& legs.pool_after.wf()
        },
{
    if legs_of(cmd, pool, outcome, held, fee) is Ok {
        match cmd.action {
            TradeAction::Buy => {
                let gross = MicroUsd(cmd.amount_micro);
                amm::lemma_buy_facts(pool, cmd.side, gross, fee);
            },
            TradeAction::Sell => {
                let shares = MicroShares(cmd.amount_micro);
                amm::lemma_sell_facts(pool, cmd.side, shares, fee);
            },
        }
    }
}

/// Selling a whole position relieves its whole cost and leaves none; selling
/// part of it never relieves more than it cost.
pub proof fn law_sells_relieve_cost_in_proportion(
    before: PositionRow,
    pool: Pool,
    side: Side,
    shares: MicroShares,
    fee: BasisPoints,
)
    requires
        before.cost.0 >= 0,
    ensures
        sell_legs(before, pool, side, shares, fee) matches Ok(legs) ==> {
            &&& 0 <= legs.position.cost.0 <= before.cost.0
            &&& shares.0 == before.shares.0 ==> legs.position.cost.0 == 0
                && legs.position.shares.0 == 0
            &&& legs.position.realized_pnl.0 - before.realized_pnl.0 == legs.user_delta - (
            before.cost.0 - legs.position.cost.0)
        },
{
    if sell_legs(before, pool, side, shares, fee) is Ok {
        lemma_relieved_bounds(before.cost.0 as int, shares.0 as int, before.shares.0 as int);
    }
}

/// Applies the quote and the position formula for one request.
///
/// # Errors
///
/// [`AppError::Amm`] where the quote is refused,
/// [`AppError::InsufficientShares`] for a sell of more than is held, and
/// [`AppError::Overflow`] where a position does not fit.
pub fn quote_legs(
    cmd: &PlaceTradeCmd,
    pool: &Pool,
    outcome: OutcomeId,
    held: Option<PositionRow>,
    fee: BasisPoints,
) -> (r: Result<QuotedLegs, AppError>)
    requires
        pool.wf(),
    ensures
        match legs_of(*cmd, *pool, outcome, held, fee) {
            Ok(legs) => r == Ok::<QuotedLegs, AppError>(legs),
            Err(f) => r matches Err(e) && e@ == f,
        },
        r matches Ok(legs) ==> ({
            let (shares, cost) = match held {
                Some(p) => (p.shares.0, p.cost.0),
                None => (0i64, 0i64),
            };
            match cmd.action {
                TradeAction::Buy => legs.position.shares.0 == shares + legs.shares.0
                    && legs.position.cost.0 == cost + legs.gross.0 && legs.gross.0
                    == cmd.amount_micro,
                TradeAction::Sell => legs.position.shares.0 == shares - legs.shares.0
                    && legs.shares.0 == cmd.amount_micro,
            }
        }),
{
    proof {
        match cmd.action {
            TradeAction::Buy => law_buys_add_to_the_position(*cmd, *pool, outcome, held, fee),
            TradeAction::Sell => law_sells_take_from_the_position(*cmd, *pool, outcome, held, fee),
        }
    }
    let before = match held {
        Some(p) => p,
        None => PositionRow {
            user: cmd.user,
            outcome,
            shares: MicroShares(0),
            cost: MicroUsd(0),
            realized_pnl: MicroUsd(0),
        },
    };
    match cmd.action {
        TradeAction::Buy => {
            let gross = MicroUsd(cmd.amount_micro);
            proof {
                amm::lemma_buy_facts(*pool, cmd.side, gross, fee);
            }
            let q = match amm::quote_buy(pool, cmd.side, gross, fee) {
                Ok(q) => q,
                Err(e) => return Err(AppError::Amm(e)),
            };
            let shares: i64 = match before.shares.0.checked_add(q.shares_out.0) {
                Some(n) => n,
                None => return Err(AppError::Overflow),
            };
            let cost: i64 = match before.cost.0.checked_add(gross.0) {
                Some(n) => n,
                None => return Err(AppError::Overflow),
            };
            Ok(
                QuotedLegs {
                    shares: q.shares_out,
                    gross,
                    fee: q.fee,
                    avg_price_micro: q.avg_price_micro_per_share,
                    pool_after: q.pool_after,
                    user_delta: -gross.0,
                    escrow_delta: gross.0 - q.fee.0,
                    fee_delta: q.fee.0,
                    position: PositionRow {
                        user: before.user,
                        outcome: before.outcome,
                        shares: MicroShares(shares),
                        cost: MicroUsd(cost),
                        realized_pnl: before.realized_pnl,
                    },
                    realized_delta: None,
                },
            )
        },
        TradeAction::Sell => {
            let shares = MicroShares(cmd.amount_micro);
            if before.shares.0 < shares.0 || shares.0 <= 0 {
                return Err(AppError::InsufficientShares);
            }
            proof {
                amm::lemma_sell_facts(*pool, cmd.side, shares, fee);
                lemma_relieved_bounds(
                    before.cost.0 as int,
                    shares.0 as int,
                    before.shares.0 as int,
                );
            }
            let q = match amm::quote_sell(pool, cmd.side, shares, fee) {
                Ok(q) => q,
                Err(e) => return Err(AppError::Amm(e)),
            };
            let proceeds = MicroUsd(q.collateral_out.0 + q.fee.0);
            let relieved: i64 = relieved_cost(before.cost.0, shares.0, before.shares.0);
            let pnl: i64 = match q.collateral_out.0.checked_sub(relieved) {
                Some(n) => n,
                None => return Err(AppError::Overflow),
            };
            let realized: i64 = match before.realized_pnl.0.checked_add(pnl) {
                Some(n) => n,
                None => return Err(AppError::Overflow),
            };
            let average: i64 = match preview_trade::avg_price_micro(proceeds, shares) {
                Ok(n) => n,
                Err(e) => return Err(e),
            };
            Ok(
                QuotedLegs {
                    shares,
                    gross: proceeds,
                    fee: q.fee,
                    avg_price_micro: average,
                    pool_after: q.pool_after,
                    user_delta: q.collateral_out.0,
                    escrow_delta: -proceeds.0,
                    fee_delta: q.fee.0,
                    position: PositionRow {
                        user: before.user,
                        outcome: before.outcome,
                        shares: MicroShares(before.shares.0 - shares.0),
                        cost: MicroUsd(before.cost.0 - relieved),
                        realized_pnl: MicroUsd(realized),
                    },
                    realized_delta: Some(MicroUsd(pnl)),
                },
            )
        },
    }
}

/// The cost that selling part of a position relieves.
fn relieved_cost(cost: i64, sold: i64, held: i64) -> (r: i64)
    requires
        0 < sold <= held,
    ensures
        r == cost_relieved(cost as int, sold as int, held as int),
{
    proof {
        lemma_relieved_bounds(cost as int, sold as int, held as int);
        assert(-0x8000_0000_0000_0000 * 0x7fff_ffff_ffff_ffff <= cost * sold
            <= 0x7fff_ffff_ffff_ffff * 0x7fff_ffff_ffff_ffff) by (nonlinear_arith)
            requires
                -0x8000_0000_0000_0000 <= cost <= 0x7fff_ffff_ffff_ffff,
                0 < sold <= 0x7fff_ffff_ffff_ffff,
        ;
    }
    let product: i128 = cost as i128 * sold as i128;
    if product >= 0 {
        (product / held as i128) as i64
    } else {
        (-(-product / held as i128)) as i64
    }
}

/// What the transaction has read so far. Every reading that a time matters to
/// comes with the time at which it was taken.
#[derive(Debug, PartialEq, Eq)]
pub struct TradeFacts {
    pub key_serialized: bool,
    /// The ledger transaction committed under the key, if there is one.
    pub existing: Option<Option<LedgerTxnId>>,
    pub stored_fingerprint: Option<Option<String>>,
    pub stored_receipt: Option<Option<TradeReceipt>>,
    pub user_locked: bool,
    pub collected: bool,
    pub enforced: bool,
    pub tier: Option<u8>,
    pub market: Option<(MarketRow, Timestamp)>,
    pub voted: Option<bool>,
    pub pool: Option<Pool>,
    pub last_buy_at: Option<(Option<Timestamp>, Timestamp)>,
    pub fee_override: Option<Option<Json>>,
    pub position_cost: Option<MicroUsd>,
    pub held: Option<Option<PositionRow>>,
    pub fenced: bool,
    pub trading_paused: Option<Option<Json>>,
    pub market_paused: Option<Option<Json>>,
    pub voting_paused: Option<Option<Json>>,
    /// The current generation, the changes since the previewed one (nothing
    /// where that history is pruned), and when they were read.
    pub drift: Option<(i64, Option<Vec<ConfigChange>>, Timestamp)>,
}

/// What the transaction reads or does next.
#[derive(Debug, Clone, Copy, PartialEq, Eq, Structural)]
pub enum TradeNeed {
    SerializeKey,
    TxnByKey,
    RequestFingerprint,
    TradeByLedgerTxn(LedgerTxnId),
    LockUser,
    ConvertThenCollect,
    EnforceMoneyMutation,
    UserTier,
    MarketForUpdate,
    UserVoted,
    PoolForUpdate,
    LastBuyAt(OutcomeId),
    FeeOverride,
    PositionCost,
    PositionForUpdate(OutcomeId),
    SharedFences,
    TradingPaused,
    MarketPaused,
    VotingPaused,
    ChangesSince(i64),
}

/// A trade that passed every check.
#[derive(Debug, Clone, Copy, PartialEq, Eq, Structural)]
pub struct TradePlan {
    pub outcome: OutcomeId,
    pub fee_rate: BasisPoints,
    pub legs: QuotedLegs,
}

/// What becomes of a trade next.
#[derive(Debug, PartialEq, Eq)]
pub enum TradeStep {
    Need(TradeNeed),
    Refuse(AppError),
    /// The key was used for this very request: the original receipt.
    Replay(TradeReceipt),
    Apply(TradePlan),
}

/// What becomes of a trade next, refusals as plain values.
pub enum TradeVerdict {
    Need(TradeNeed),
    Refuse(Fault),
    Replay(TradeReceipt),
    Apply(TradePlan),
}

impl View for TradeStep {
    type V = TradeVerdict;

    open spec fn view(&self) -> TradeVerdict {
        match self {
            TradeStep::Need(n) => TradeVerdict::Need(*n),
            TradeStep::Refuse(e) => TradeVerdict::Refuse(e@),
            TradeStep::Replay(receipt) => TradeVerdict::Replay(*receipt),
            TradeStep::Apply(plan) => TradeVerdict::Apply(*plan),
        }
    }
}

impl TradeFacts {
    /// Nothing read yet.
    pub fn new() -> (r: Self)
        ensures
            r.wf(),
            !r.key_serialized && r.existing is None && r.stored_fingerprint is None
                && r.stored_receipt is None && !r.user_locked && !r.collected && !r.enforced
                && r.tier is None && r.market is None && r.voted is None && r.pool is None
                && r.last_buy_at is None && r.fee_override is None && r.position_cost is None
                && r.held is None && !r.fenced && r.trading_paused is None && r.market_paused is None
                && r.voting_paused is None && r.drift is None,
    {
        TradeFacts {
            key_serialized: false,
            existing: None,
            stored_fingerprint: None,
            stored_receipt: None,
            user_locked: false,
            collected: false,
            enforced: false,
            tier: None,
            market: None,
            voted: None,
            pool: None,
            last_buy_at: None,
            fee_override: None,
            position_cost: None,
            held: None,
            fenced: false,
            trading_paused: None,
            market_paused: None,
            voting_paused: None,
            drift: None,
        }
    }

    /// Pools are valid and times lie within the calendar.
    pub open spec fn wf(&self) -> bool {
        &&& self.pool matches Some(pool) ==> pool.wf()
        &&& self.last_buy_at matches Some(read) ==> read.1.wf() && (read.0 matches Some(last)
            ==> last.wf())
        &&& self.drift matches Some(read) ==> read.2.wf()
    }
}

/// Why a market takes no trades now, if it takes none: only a live market
/// before its tally is hidden does.
pub open spec fn market_fault(row: MarketRow, now: Timestamp) -> Option<Fault> {
    match row.state {
        MarketState::Closing => Some(Fault::TradingFrozen),
        MarketState::Live => if now.0 >= row.tally_hidden_at.0 {
            Some(Fault::TradingFrozen)
        } else {
            None
        },
        _ => Some(Fault::MarketNotOpen),
    }
}

/// Why a buy breaks the position cap of its tier, if it does. The cap counts
/// both sides of a market and is inclusive.
pub open spec fn cap_fault(
    current_cost: int,
    amount: int,
    rep: RepConfig,
    tier: u8,
) -> Option<Fault> {
    let cap = rep.position_cap_micro_by_tier[staleness::tier_index(tier)] as int;
    if !money::fits(current_cost + amount) {
        Some(Fault::Overflow)
    } else if current_cost + amount > cap {
        Some(Fault::PositionCapExceeded { cap_micro: cap, tier: tier as int })
    } else {
        None
    }
}

/// Placing trades under the committed economy values.
#[derive(Debug, Clone, Copy, PartialEq, Eq)]
pub struct PlaceTrade {
    pub rep_config: RepConfig,
}

impl PlaceTrade {
    /// What to read next, or what becomes of the trade: the whole sequence of a
    /// trade, one step at a time.
    pub fn execute(&self, cmd: &PlaceTradeCmd, facts: &TradeFacts) -> (r: TradeStep)
        requires
            facts.wf(),
        ensures
            r@ == trade_step(*cmd, *facts, self.rep_config),
    {
        let version: i64 = match cmd.expected_config_version {
            Some(v) => v,
            None => return TradeStep::Refuse(AppError::ExpectedConfigVersionRequired),
        };
        if !facts.key_serialized {
            return TradeStep::Need(TradeNeed::SerializeKey);
        }
        match facts.existing {
            None => TradeStep::Need(TradeNeed::TxnByKey),
            Some(Some(txn)) => cmd.replay(facts, txn),
            Some(None) => cmd.fresh(version, facts, &self.rep_config),
        }
    }
}

impl PlaceTradeCmd {
    /// The canonical fingerprint of this request.
    pub open spec fn print(&self) -> Seq<char> {
        fingerprint::trade_print(
            self.market,
            self.user,
            self.side,
            self.action,
            self.amount_micro,
            self.expected_config_version,
        )
    }
}

/// The step of a request whose key was used before. The persisted fingerprint
/// is compared first; a match returns the original receipt without any pause or
/// configuration check.
pub open spec fn replay_step(
    cmd: PlaceTradeCmd,
    facts: TradeFacts,
    txn: LedgerTxnId,
) -> TradeVerdict {
    match facts.stored_fingerprint {
        None => TradeVerdict::Need(TradeNeed::RequestFingerprint),
        Some(stored) => match fingerprint::replay_fault(text::option_view(stored), cmd.print()) {
            Some(f) => TradeVerdict::Refuse(f),
            None => match facts.stored_receipt {
                None => TradeVerdict::Need(TradeNeed::TradeByLedgerTxn(txn)),
                Some(None) => TradeVerdict::Refuse(
                    Fault::Store(
                        StoreFault::Invariant("idempotency key exists without a trade row"@),
                    ),
                ),
                Some(Some(receipt)) => TradeVerdict::Replay(
                    TradeReceipt { replayed: true, ..receipt },
                ),
            },
        },
    }
}

/// What the fence point knows about the request.
pub open spec fn staleness_context(
    cmd: PlaceTradeCmd,
    rep: RepConfig,
    tier: u8,
    pool: Pool,
    active: FeeBpsOverride,
    last_buy_at: Option<Timestamp>,
    now: Timestamp,
) -> StalenessContext {
    StalenessContext {
        user_tier: tier,
        pool_fee_bps: pool.fee.0,
        active_fee_override: active,
        rep,
        action: cmd.action,
        secs_since_last_buy: match last_buy_at {
            Some(last) => Some(clock::whole_secs(now.0 - last.0) as i64),
            None => None,
        },
        market: Some(cmd.market),
    }
}

/// The step at and after the fence point: pauses, drift, quote.
pub open spec fn fence_step(
    cmd: PlaceTradeCmd,
    version: i64,
    facts: TradeFacts,
    rep: RepConfig,
    tier: u8,
    pool: Pool,
    outcome: OutcomeId,
    last_buy_at: Option<Timestamp>,
    active: FeeBpsOverride,
    fee: BasisPoints,
    held: Option<PositionRow>,
) -> TradeVerdict {
    if !facts.fenced {
        TradeVerdict::Need(TradeNeed::SharedFences)
    } else if facts.trading_paused is None {
        TradeVerdict::Need(TradeNeed::TradingPaused)
    } else if fences::paused(json::option_view(facts.trading_paused.unwrap())) {
        TradeVerdict::Refuse(Fault::TradingPaused)
    } else if facts.market_paused is None {
        TradeVerdict::Need(TradeNeed::MarketPaused)
    } else if fences::paused(json::option_view(facts.market_paused.unwrap())) {
        TradeVerdict::Refuse(Fault::TradingPaused)
    } else if facts.voting_paused is None {
        TradeVerdict::Need(TradeNeed::VotingPaused)
    } else if fences::paused(json::option_view(facts.voting_paused.unwrap())) {
        TradeVerdict::Refuse(Fault::VotingPaused)
    } else {
        match facts.drift {
            None => TradeVerdict::Need(TradeNeed::ChangesSince(version)),
            Some(read) => {
                let ctx = staleness_context(cmd, rep, tier, pool, active, last_buy_at, read.2);
                let stale = match read.1 {
                    None => true,
                    Some(changes) => staleness::stale(ctx, model::changes_view(changes@)),
                };
                if stale {
                    TradeVerdict::Refuse(
                        Fault::StaleConfig {
                            preview_generation: version as int,
                            current_generation: read.0 as int,
                        },
                    )
                } else {
                    match legs_of(cmd, pool, outcome, held, fee) {
                        Err(f) => TradeVerdict::Refuse(f),
                        Ok(legs) => TradeVerdict::Apply(TradePlan { outcome, fee_rate: fee, legs }),
                    }
                }
            },
        }
    }
}

/// The step from the locked pool to the fence point: fee and position cap.
pub open spec fn price_step(
    cmd: PlaceTradeCmd,
    version: i64,
    facts: TradeFacts,
    rep: RepConfig,
    tier: u8,
    row: MarketRow,
) -> TradeVerdict {
    let outcome = row.outcome_of(cmd.side);
    match facts.pool {
        None => TradeVerdict::Need(TradeNeed::PoolForUpdate),
        Some(pool) => match facts.last_buy_at {
            None => TradeVerdict::Need(TradeNeed::LastBuyAt(outcome)),
            Some(read) => match facts.fee_override {
                None => TradeVerdict::Need(TradeNeed::FeeOverride),
                Some(stored) => match fee_override::stored_override(json::option_view(stored)) {
                    None => TradeVerdict::Refuse(fee_override::malformed_override()),
                    Some(active) => {
                        let fee = pricing::trade_fee(
                            cmd.action,
                            rep,
                            tier,
                            active.base(pool.fee.0),
                            read.0,
                            read.1,
                        );
                        if cmd.action == TradeAction::Buy && facts.position_cost is None {
                            TradeVerdict::Need(TradeNeed::PositionCost)
                        } else if cmd.action == TradeAction::Buy && cap_fault(
                            facts.position_cost.unwrap().0 as int,
                            cmd.amount_micro as int,
                            rep,
                            tier,
                        ) is Some {
                            TradeVerdict::Refuse(
                                cap_fault(
                                    facts.position_cost.unwrap().0 as int,
                                    cmd.amount_micro as int,
                                    rep,
                                    tier,
                                ).unwrap(),
                            )
                        } else {
                            match facts.held {
                                None => TradeVerdict::Need(TradeNeed::PositionForUpdate(outcome)),
                                Some(held) => fence_step(
                                    cmd,
                                    version,
                                    facts,
                                    rep,
                                    tier,
                                    pool,
                                    outcome,
                                    read.0,
                                    active,
                                    fee,
                                    held,
                                ),
                            }
                        }
                    },
                },
            },
        },
    }
}

/// The step of a fresh request: locks, market gate and vote gate.
pub open spec fn fresh_step(
    cmd: PlaceTradeCmd,
    version: i64,
    facts: TradeFacts,
    rep: RepConfig,
) -> TradeVerdict {
    if !facts.user_locked {
        TradeVerdict::Need(TradeNeed::LockUser)
    } else if !facts.collected {
        TradeVerdict::Need(TradeNeed::ConvertThenCollect)
    } else if !facts.enforced {
        TradeVerdict::Need(TradeNeed::EnforceMoneyMutation)
    } else {
        match facts.tier {
            None => TradeVerdict::Need(TradeNeed::UserTier),
            Some(tier) => match facts.market {
                None => TradeVerdict::Need(TradeNeed::MarketForUpdate),
                Some(read) => match market_fault(read.0, read.1) {
                    Some(f) => TradeVerdict::Refuse(f),
                    None => match facts.voted {
                        None => TradeVerdict::Need(TradeNeed::UserVoted),
                        Some(false) => TradeVerdict::Refuse(Fault::VoteRequired),
                        Some(true) => price_step(cmd, version, facts, rep, tier, read.0),
                    },
                },
            },
        }
    }
}

/// What becomes of a trade after what was read so far.
pub open spec fn trade_step(
    cmd: PlaceTradeCmd,
    facts: TradeFacts,
    rep: RepConfig,
) -> TradeVerdict {
    match cmd.expected_config_version {
        None => TradeVerdict::Refuse(Fault::ExpectedConfigVersionRequired),
        Some(version) => if !facts.key_serialized {
            TradeVerdict::Need(TradeNeed::SerializeKey)
        } else {
            match facts.existing {
                None => TradeVerdict::Need(TradeNeed::TxnByKey),
                Some(Some(txn)) => replay_step(cmd, facts, txn),
                Some(None) => fresh_step(cmd, version, facts, rep),
            }
        },
    }
}

impl PlaceTradeCmd {
    /// The canonical fingerprint of this request.
    pub fn fingerprint(&self) -> (r: String)
        ensures
            r@ == self.print(),
    {
        fingerprint::trade_fingerprint(
            self.market,
            self.user,
            self.side,
            self.action,
            self.amount_micro,
            self.expected_config_version,
        )
    }

    /// The shared fences that a trade holds, in canonical order.
    pub fn shared_fences(&self) -> (r: Vec<String>)
        ensures
            text::texts(r@) == seq![
                "trading-global"@,
                fences::trading_market_name(self.market),
            ],
    {
        let r = vec![fences::trading_global_fence(), fences::trading_market_fence(self.market)];
        assert(text::texts(r@) =~= seq![
            "trading-global"@,
            fences::trading_market_name(self.market),
        ]);
        r
    }

    fn replay(&self, facts: &TradeFacts, txn: LedgerTxnId) -> (r: TradeStep)
        ensures
            r@ == replay_step(*self, *facts, txn),
    {
        let stored: Option<&str> = match &facts.stored_fingerprint {
            None => return TradeStep::Need(TradeNeed::RequestFingerprint),
            Some(None) => None,
            Some(Some(s)) => Some(s.as_str()),
        };
        let expected = self.fingerprint();
        match fingerprint::validate_replay_fingerprint(stored, expected.as_str()) {
            Ok(()) => {},
            Err(e) => return TradeStep::Refuse(e),
        }
        match facts.stored_receipt {
            None => TradeStep::Need(TradeNeed::TradeByLedgerTxn(txn)),
            Some(None) => TradeStep::Refuse(
                AppError::Store(
                    StoreError::Invariant("idempotency key exists without a trade row"),
                ),
            ),
            Some(Some(receipt)) => TradeStep::Replay(
                TradeReceipt {
                    trade_id: receipt.trade_id,
                    ledger_txn: receipt.ledger_txn,
                    side: receipt.side,
                    action: receipt.action,
                    shares: receipt.shares,
                    gross: receipt.gross,
                    fee: receipt.fee,
                    avg_price_micro: receipt.avg_price_micro,
                    replayed: true,
                },
            ),
        }
    }

    fn fresh(&self, version: i64, facts: &TradeFacts, rep: &RepConfig) -> (r: TradeStep)
        requires
            facts.wf(),
        ensures
            r@ == fresh_step(*self, version, *facts, *rep),
    {
        if !facts.user_locked {
            return TradeStep::Need(TradeNeed::LockUser);
        }
        if !facts.collected {
            return TradeStep::Need(TradeNeed::ConvertThenCollect);
        }
        if !facts.enforced {
            return TradeStep::Need(TradeNeed::EnforceMoneyMutation);
        }
        let tier: u8 = match facts.tier {
            Some(tier) => tier,
            None => return TradeStep::Need(TradeNeed::UserTier),
        };
        let row: MarketRow = match facts.market {
            None => return TradeStep::Need(TradeNeed::MarketForUpdate),
            Some((row, now)) => {
                match row.state {
                    MarketState::Closing => return TradeStep::Refuse(AppError::TradingFrozen),
                    MarketState::Live => {
                        if !now.before(row.tally_hidden_at) {
                            return TradeStep::Refuse(AppError::TradingFrozen);
                        }
                    },
                    _ => return TradeStep::Refuse(AppError::MarketNotOpen),
                }
                row
            },
        };
        match facts.voted {
            None => TradeStep::Need(TradeNeed::UserVoted),
            Some(voted) => if voted {
                self.priced(version, facts, rep, tier, row)
            } else {
                TradeStep::Refuse(AppError::VoteRequired)
            },
        }
    }

    fn priced(
        &self,
        version: i64,
        facts: &TradeFacts,
        rep: &RepConfig,
        tier: u8,
        row: MarketRow,
    ) -> (r: TradeStep)
        requires
            facts.wf(),
        ensures
            r@ == price_step(*self, version, *facts, *rep, tier, row),
    {
        let outcome = row.outcome(self.side);
        let pool: Pool = match facts.pool {
            Some(pool) => pool,
            None => return TradeStep::Need(TradeNeed::PoolForUpdate),
        };
        let (last_buy_at, now) = match facts.last_buy_at {
            Some(read) => read,
            None => return TradeStep::Need(TradeNeed::LastBuyAt(outcome)),
        };
        let stored: Option<&Json> = match &facts.fee_override {
            None => return TradeStep::Need(TradeNeed::FeeOverride),
            Some(None) => None,
            Some(Some(v)) => Some(v),
        };
        let active = match FeeBpsOverride::parse(stored) {
            Ok(active) => active,
            Err(e) => return TradeStep::Refuse(e),
        };
        let fee = pricing::fee_for_trade(
            self.action,
            rep,
            tier,
            active.base_bps(pool.fee.0),
            last_buy_at,
            now,
        );
        if self.action == TradeAction::Buy {
            let current: MicroUsd = match facts.position_cost {
                Some(cost) => cost,
                None => return TradeStep::Need(TradeNeed::PositionCost),
            };
            let at: usize = if tier > 4 {
                4
            } else {
                tier as usize
            };
            let cap: i64 = rep.position_cap_micro_by_tier[at];
            match current.0.checked_add(self.amount_micro) {
                None => return TradeStep::Refuse(AppError::Overflow),
                Some(projected) => {
                    if projected > cap {
                        return TradeStep::Refuse(
                            AppError::PositionCapExceeded { cap_micro: cap, tier },
                        );
                    }
                },
            }
        }
        let held = match facts.held {
            Some(held) => held,
            None => return TradeStep::Need(TradeNeed::PositionForUpdate(outcome)),
        };
        self.fenced(version, facts, rep, tier, pool, outcome, last_buy_at, active, fee, held)
    }

    fn fenced(
        &self,
        version: i64,
        facts: &TradeFacts,
        rep: &RepConfig,
        tier: u8,
        pool: Pool,
        outcome: OutcomeId,
        last_buy_at: Option<Timestamp>,
        active: FeeBpsOverride,
        fee: BasisPoints,
        held: Option<PositionRow>,
    ) -> (r: TradeStep)
        requires
            facts.wf(),
            pool.wf(),
            last_buy_at matches Some(last) ==> last.wf(),
        ensures
            r@ == fence_step(
                *self,
                version,
                *facts,
                *rep,
                tier,
                pool,
                outcome,
                last_buy_at,
                active,
                fee,
                held,
            ),
    {
        if !facts.fenced {
            return TradeStep::Need(TradeNeed::SharedFences);
        }
        match &facts.trading_paused {
            None => return TradeStep::Need(TradeNeed::TradingPaused),
            Some(v) => if flag_set(v) {
                return TradeStep::Refuse(AppError::TradingPaused);
            },
        }
        match &facts.market_paused {
            None => return TradeStep::Need(TradeNeed::MarketPaused),
            Some(v) => if flag_set(v) {
                return TradeStep::Refuse(AppError::TradingPaused);
            },
        }
        match &facts.voting_paused {
            None => return TradeStep::Need(TradeNeed::VotingPaused),
            Some(v) => if flag_set(v) {
                return TradeStep::Refuse(AppError::VotingPaused);
            },
        }
        let (generation, stale) = match &facts.drift {
            None => return TradeStep::Need(TradeNeed::ChangesSince(version)),
            Some((generation, changes, now)) => {
                let ctx = StalenessContext {
                    user_tier: tier,
                    pool_fee_bps: pool.fee.0,
                    active_fee_override: active,
                    rep: *rep,
                    action: self.action,
                    secs_since_last_buy: match last_buy_at {
                        Some(last) => Some(clock::secs_between(last, *now)),
                        None => None,
                    },
                    market: Some(self.market),
                };
                assert(ctx == staleness_context(
                    *self,
                    *rep,
                    tier,
                    pool,
                    active,
                    last_buy_at,
                    *now,
                ));
                let stale = match changes {
                    None => true,
                    Some(changes) => staleness::preview_relevant_drift(changes.as_slice(), &ctx),
                };
                (*generation, stale)
            },
        };
        if stale {
            return TradeStep::Refuse(
                AppError::StaleConfig {
                    preview_generation: version,
                    current_generation: generation,
                },
            );
        }
        match quote_legs(self, &pool, outcome, held, fee) {
            Ok(legs) => TradeStep::Apply(TradePlan { outcome, fee_rate: fee, legs }),
            Err(e) => TradeStep::Refuse(e),
        }
    }
}

fn flag_set(v: &Option<Json>) -> (r: bool)
    ensures
        r == fences::paused(json::option_view(*v)),
{
    match v {
        Some(doc) => fences::pause_in_force(Some(doc)),
        None => fences::pause_in_force(None),
    }
}

/// A replay takes precedence over every other check: once the key is known to
/// have been used for this very request, the original receipt comes back,
/// whatever the pauses, the configuration and the market are.
pub proof fn law_replay_precedes_every_check(
    cmd: PlaceTradeCmd,
    facts: TradeFacts,
    rep: RepConfig,
    txn: LedgerTxnId,
    receipt: TradeReceipt,
)
    requires
        cmd.expected_config_version is Some,
        facts.key_serialized,
        facts.existing == Some(Some(txn)),
        facts.stored_fingerprint matches Some(stored) && (text::option_view(stored) is None
            || text::option_view(stored) == Some(cmd.print())),
        facts.stored_receipt == Some(Some(receipt)),
    ensures
        trade_step(cmd, facts, rep) == TradeVerdict::Replay(
            TradeReceipt { replayed: true, ..receipt },
        ),
{
}

/// A key that was used for another request is refused and never applied.
pub proof fn law_reused_key_is_a_conflict(
    cmd: PlaceTradeCmd,
    facts: TradeFacts,
    rep: RepConfig,
    txn: LedgerTxnId,
)
    requires
        cmd.expected_config_version is Some,
        facts.key_serialized,
        facts.existing == Some(Some(txn)),
        facts.stored_fingerprint matches Some(Some(stored)) && stored@ != cmd.print(),
    ensures
        trade_step(cmd, facts, rep) == TradeVerdict::Refuse(Fault::IdempotencyConflict),
{
}

/// A trade is applied only after every check has passed: a fresh key, a live
/// market before its tally is hidden, a vote, the position cap, the fences, no
/// pause in force and no relevant drift.
pub proof fn law_applied_trades_passed_every_check(
    cmd: PlaceTradeCmd,
    facts: TradeFacts,
    rep: RepConfig,
    plan: TradePlan,
)
    requires
        trade_step(cmd, facts, rep) == TradeVerdict::Apply(plan),
    ensures
        cmd.expected_config_version is Some,
        facts.key_serialized && facts.existing == Some(None::<LedgerTxnId>),
        facts.user_locked && facts.collected && facts.enforced,
        facts.market matches Some(read) && read.0.state == MarketState::Live && read.1.0
            < read.0.tally_hidden_at.0 && plan.outcome == read.0.outcome_of(cmd.side),
        facts.voted == Some(true),
        cmd.action == TradeAction::Buy ==> (facts.position_cost matches Some(cost)
            && facts.tier matches Some(tier) && cost.0 + cmd.amount_micro
            <= rep.position_cap_micro_by_tier[staleness::tier_index(tier)]),
        facts.fenced,
        facts.trading_paused matches Some(v) && !fences::paused(json::option_view(v)),
        facts.market_paused matches Some(v) && !fences::paused(json::option_view(v)),
        facts.voting_paused matches Some(v) && !fences::paused(json::option_view(v)),
        facts.drift matches Some(read) && read.1 is Some,
        facts.pool matches Some(pool) && facts.held matches Some(held) && legs_of(
            cmd,
            pool,
            plan.outcome,
            held,
            plan.fee_rate,
        ) == Ok::<QuotedLegs, Fault>(plan.legs),
{
}

impl TradePlan {
    /// The ledger entries of this trade: the user's, the escrow's and, unless it
    /// is nothing, the fee's.
    pub open spec fn entry_list(
        &self,
        user: AccountId,
        escrow: AccountId,
        fees: AccountId,
    ) -> Seq<Entry> {
        let both = seq![
            Entry { account: user, amount: MicroUsd(self.legs.user_delta) },
            Entry { account: escrow, amount: MicroUsd(self.legs.escrow_delta) },
        ];
        if self.legs.fee_delta != 0 {
            both.push(Entry { account: fees, amount: MicroUsd(self.legs.fee_delta) })
        } else {
            both
        }
    }

    /// Whether the fee account takes part in this trade.
    #[must_use]
    pub fn moves_fee(&self) -> (r: bool)
        ensures
            r == (self.legs.fee_delta != 0),
    {
        self.legs.fee_delta != 0
    }

    /// Whether a collected fee is spread over the user's credit lots: only one
    /// that is above zero is.
    #[must_use]
    pub fn allocates_fee(&self) -> (r: bool)
        ensures
            r == (self.legs.fee.0 > 0),
    {
        self.legs.fee.0 > 0
    }

    /// The ledger entries of this trade. The fee account is needed only where
    /// the fee is not nothing.
    pub fn entries(&self, user: AccountId, escrow: AccountId, fees: Option<AccountId>) -> (r: Vec<
        Entry,
    >)
        requires
            self.legs.fee_delta != 0 ==> fees is Some,
        ensures
            r@ == self.entry_list(
                user,
                escrow,
                match fees {
                    Some(account) => account,
                    None => user,
                },
            ),
    {
        let mut out = vec![
            Entry { account: user, amount: MicroUsd(self.legs.user_delta) },
            Entry { account: escrow, amount: MicroUsd(self.legs.escrow_delta) },
        ];
        if self.legs.fee_delta != 0 {
            if let Some(account) = fees {
                out.push(Entry { account, amount: MicroUsd(self.legs.fee_delta) });
            }
        }
        assert(out@ =~= self.entry_list(
            user,
            escrow,
            match fees {
                Some(account) => account,
                None => user,
            },
        ));
        out
    }

    /// What a sell realizes.
    pub fn realization(&self, cmd: &PlaceTradeCmd, ledger_txn: LedgerTxnId, now: Timestamp) -> (r:
        Option<RealizationFact>)
        ensures
            r == (match self.legs.realized_delta {
                Some(realized_delta) => Some(
                    RealizationFact {
                        user: cmd.user,
                        market: cmd.market,
                        outcome: self.outcome,
                        source: RealizationSource::Sell,
                        realized_delta,
                        payout: MicroUsd(self.legs.user_delta),
                        ledger_txn,
                        created_at: now,
                    },
                ),
                None => None,
            }),
    {
        match self.legs.realized_delta {
            Some(realized_delta) => Some(
                RealizationFact {
                    user: cmd.user,
                    market: cmd.market,
                    outcome: self.outcome,
                    source: RealizationSource::Sell,
                    realized_delta,
                    payout: MicroUsd(self.legs.user_delta),
                    ledger_txn,
                    created_at: now,
                },
            ),
            None => None,
        }
    }

    /// The trade row.
    pub fn new_trade(&self, cmd: &PlaceTradeCmd, ledger_txn: LedgerTxnId) -> (r: NewTrade)
        ensures
            r == (NewTrade {
                market: cmd.market,
                user: cmd.user,
                outcome: self.outcome,
                side: cmd.side,
                action: cmd.action,
                shares: self.legs.shares,
                gross: self.legs.gross,
                fee: self.legs.fee,
                avg_price_micro: self.legs.avg_price_micro,
                ledger_txn,
                run_id: cmd.run_id,
                pending_action_id: cmd.pending_action_id,
            }),
    {
        NewTrade {
            market: cmd.market,
            user: cmd.user,
            outcome: self.outcome,
            side: cmd.side,
            action: cmd.action,
            shares: self.legs.shares,
            gross: self.legs.gross,
            fee: self.legs.fee,
            avg_price_micro: self.legs.avg_price_micro,
            ledger_txn,
            run_id: cmd.run_id,
            pending_action_id: cmd.pending_action_id,
        }
    }

    /// The receipt of this trade.
    pub fn receipt(&self, cmd: &PlaceTradeCmd, trade_id: TradeId, ledger_txn: LedgerTxnId) -> (r:
        TradeReceipt)
        ensures
            r == (TradeReceipt {
                trade_id,
                ledger_txn,
                side: cmd.side,
                action: cmd.action,
                shares: self.legs.shares,
                gross: self.legs.gross,
                fee: self.legs.fee,
                avg_price_micro: self.legs.avg_price_micro,
                replayed: false,
            }),
    {
        TradeReceipt {
            trade_id,
            ledger_txn,
            side: cmd.side,
            action: cmd.action,
            shares: self.legs.shares,
            gross: self.legs.gross,
            fee: self.legs.fee,
            avg_price_micro: self.legs.avg_price_micro,
            replayed: false,
        }
    }
}

/// The ledger takes the entries of every applied trade that pays the user
/// anything: they form a balanced transaction. A sell whose whole proceeds are
/// the fee pays nothing and is refused by the ledger for its zero entry.
pub proof fn law_trade_entries_form_a_transaction(
    cmd: PlaceTradeCmd,
    facts: TradeFacts,
    rep: RepConfig,
    plan: TradePlan,
    user: AccountId,
    escrow: AccountId,
    fees: AccountId,
)
    requires
        facts.wf(),
        trade_step(cmd, facts, rep) == TradeVerdict::Apply(plan),
    ensures
        plan.legs.user_delta != 0 ==> ledger::transaction_error(
            plan.entry_list(user, escrow, fees),
        ) is None,
        plan.legs.user_delta == 0 ==> ledger::transaction_error(
            plan.entry_list(user, escrow, fees),
        ) == Some(ledger::LedgerError::ZeroEntry),
{
    law_applied_trades_passed_every_check(cmd, facts, rep, plan);
    let pool = facts.pool.unwrap();
    law_legs_balance(cmd, pool, plan.outcome, facts.held.unwrap(), plan.fee_rate);
    let list = plan.entry_list(user, escrow, fees);
    let both = seq![
        Entry { account: user, amount: MicroUsd(plan.legs.user_delta) },
        Entry { account: escrow, amount: MicroUsd(plan.legs.escrow_delta) },
    ];
    let one = both.drop_last();
    assert(one.drop_last() =~= Seq::<Entry>::empty());
    assert(ledger::entries_sum(Seq::<Entry>::empty()) == 0);
    assert(ledger::entries_sum(one) == plan.legs.user_delta);
    assert(ledger::entries_sum(both) == plan.legs.user_delta + plan.legs.escrow_delta);
    if plan.legs.fee_delta != 0 {
        assert(list.drop_last() =~= both);
    }
    assert(ledger::entries_sum(list) == 0);
    if plan.legs.user_delta == 0 {
        assert(list[0].amount.0 == 0);
    } else {
        assert forall|i: int| 0 <= i < list.len() implies (#[trigger] list[i]).amount.0 != 0 by {
            if i == 0 {
            } else if i == 1 {
            } else {
            }
        }
    }
}

/// The payload of the event that announces a trade.
pub open spec fn trade_placed_payload(
    cmd: PlaceTradeCmd,
    handle: Seq<char>,
    trade_id: TradeId,
    trade_seq: i64,
    created_at: JsonView,
    legs: QuotedLegs,
) -> JsonView {
    JsonView::Object(
        seq![
            ("trade_id"@, JsonView::Text(identity::uuid_text(trade_id.0))),
            ("market_id"@, JsonView::Text(identity::uuid_text(cmd.market.0))),
            ("user_id"@, JsonView::Text(identity::uuid_text(cmd.user.0))),
            ("handle"@, JsonView::Text(handle)),
            ("side"@, JsonView::Text(fingerprint::side_name(cmd.side))),
            ("action"@, JsonView::Text(fingerprint::action_name(cmd.action))),
            ("shares_micro"@, JsonView::Int(legs.shares.0 as int)),
            ("collateral_micro"@, JsonView::Int(legs.gross.0 as int)),
            ("fee_micro"@, JsonView::Int(legs.fee.0 as int)),
            ("trade_seq"@, JsonView::Int(trade_seq as int)),
            ("created_at"@, created_at),
        ],
    )
}

/// The event that announces a trade. `created_at` is the stored time as the
/// outbox writes it.
pub fn trade_placed_event(
    cmd: &PlaceTradeCmd,
    handle: &str,
    trade_id: TradeId,
    trade_seq: i64,
    created_at: &Json,
    legs: &QuotedLegs,
) -> (r: Event)
    ensures
        r@ == (EventView {
            event_type: "TradePlaced"@,
            aggregate_type: "market"@,
            aggregate_id: cmd.market.0,
            payload: trade_placed_payload(*cmd, handle@, trade_id, trade_seq, created_at@, *legs),
        }),
{
    let members: Vec<(String, Json)> = vec![
        json::member("trade_id", Json::Text(identity::format_uuid(trade_id.0))),
        json::member("market_id", Json::Text(identity::format_uuid(cmd.market.0))),
        json::member("user_id", Json::Text(identity::format_uuid(cmd.user.0))),
        json::member("handle", Json::text(handle)),
        json::member("side", Json::text(fingerprint::name_of_side(cmd.side))),
        json::member("action", Json::text(fingerprint::name_of_action(cmd.action))),
        json::member("shares_micro", Json::Int(legs.shares.0)),
        json::member("collateral_micro", Json::Int(legs.gross.0)),
        json::member("fee_micro", Json::Int(legs.fee.0)),
        json::member("trade_seq", Json::Int(trade_seq)),
        json::member("created_at", created_at.clone()),
    ];
    assert(json::members_view(members@) =~= trade_placed_payload(
        *cmd,
        handle@,
        trade_id,
        trade_seq,
        created_at@,
        *legs,
    )->Object_0);
    Event {
        event_type: "TradePlaced",
        aggregate_type: "market",
        aggregate_id: cmd.market.0,
        payload: Json::object(members),
    }
}

/// What a buy does to the buyer: the position grows by the shares bought and by
/// the whole gross amount, which the buyer pays; the escrow gets it less the fee.
/// Nothing is realized. A position of an outcome is so the running sum of its
/// trades.
pub proof fn law_buys_add_to_the_position(
    cmd: PlaceTradeCmd,
    pool: Pool,
    outcome: OutcomeId,
    held: Option<PositionRow>,
    fee: BasisPoints,
)
    requires
        pool.wf(),
        cmd.action == TradeAction::Buy,
    ensures
        legs_of(cmd, pool, outcome, held, fee) matches Ok(legs) ==> ({
            let (shares, cost, pnl, user, of) = match held {
                Some(p) => (p.shares.0, p.cost.0, p.realized_pnl.0, p.user, p.outcome),
                None => (0i64, 0i64, 0i64, cmd.user, outcome),
            };
            &&& legs.position.shares.0 == shares + legs.shares.0
            &&& legs.position.cost.0 == cost + cmd.amount_micro
            &&& legs.position.realized_pnl.0 == pnl
            &&& legs.position.user == user && legs.position.outcome == of
            &&& legs.realized_delta is None
            &&& legs.gross.0 == cmd.amount_micro
            &&& legs.user_delta == -cmd.amount_micro
            &&& legs.escrow_delta == cmd.amount_micro - legs.fee.0
            &&& legs.fee_delta == legs.fee.0
            &&& cmd.amount_micro * fee.0 <= 10_000 * legs.fee.0 < cmd.amount_micro * fee.0 + 10_000
            &&& legs.avg_price_micro * legs.shares.0 <= cmd.amount_micro * 1_000_000 < (
            legs.avg_price_micro + 1) * legs.shares.0
            &&& match cmd.side {
                Side::Yes => legs.pool_after.no.0 == pool.no.0 + legs.escrow_delta
                    && legs.pool_after.yes.0 + legs.shares.0 == pool.yes.0 + legs.escrow_delta,
                Side::No => legs.pool_after.yes.0 == pool.yes.0 + legs.escrow_delta
                    && legs.pool_after.no.0 + legs.shares.0 == pool.no.0 + legs.escrow_delta,
            }
        }),
        amm::buy_quote(pool, cmd.side, MicroUsd(cmd.amount_micro), fee) matches Ok(q) ==> ({
            let (shares, cost) = match held {
                Some(p) => (p.shares.0, p.cost.0),
                None => (0i64, 0i64),
            };
            legs_of(cmd, pool, outcome, held, fee) is Ok <==> shares + q.shares_out.0 <= i64::MAX
                && cost + cmd.amount_micro <= i64::MAX
        }),
        amm::buy_quote(pool, cmd.side, MicroUsd(cmd.amount_micro), fee) matches Err(e) ==> legs_of(
            cmd,
            pool,
            outcome,
            held,
            fee,
        ) == Err::<QuotedLegs, Fault>(Fault::Amm(e)),
{
    amm::lemma_buy_facts(pool, cmd.side, MicroUsd(cmd.amount_micro), fee);
    amm::law_buy_follows_the_curve(pool, cmd.side, MicroUsd(cmd.amount_micro), fee);
}

/// What a sell does to the seller: the position shrinks by the shares sold and by
/// their proportional part of its cost, rounded toward zero; the seller gets what
/// the shares brought less the fee, and realizes what that is above the cost
/// given up.
pub proof fn law_sells_take_from_the_position(
    cmd: PlaceTradeCmd,
    pool: Pool,
    outcome: OutcomeId,
    held: Option<PositionRow>,
    fee: BasisPoints,
)
    requires
        pool.wf(),
        cmd.action == TradeAction::Sell,
    ensures
        legs_of(cmd, pool, outcome, held, fee) matches Ok(legs) ==> (held matches Some(p) && ({
            let given_up = p.cost.0 - legs.position.cost.0;
            &&& legs.shares.0 == cmd.amount_micro
            &&& legs.position.shares.0 == p.shares.0 - cmd.amount_micro
            &&& p.cost.0 >= 0 ==> given_up * p.shares.0 <= p.cost.0 * cmd.amount_micro < (given_up
                + 1) * p.shares.0
            &&& p.cost.0 <= 0 ==> (given_up - 1) * p.shares.0 < p.cost.0 * cmd.amount_micro
                <= given_up * p.shares.0
            &&& legs.user_delta == legs.gross.0 - legs.fee.0
            &&& legs.escrow_delta == -legs.gross.0
            &&& legs.fee_delta == legs.fee.0
            &&& legs.gross.0 * fee.0 <= 10_000 * legs.fee.0 < legs.gross.0 * fee.0 + 10_000
            &&& legs.realized_delta matches Some(d) && d.0 == legs.user_delta - given_up
                && legs.position.realized_pnl.0 == p.realized_pnl.0 + d.0
            &&& legs.position.user == p.user && legs.position.outcome == p.outcome
            &&& legs.avg_price_micro * cmd.amount_micro <= legs.gross.0 * 1_000_000 < (
            legs.avg_price_micro + 1) * cmd.amount_micro
            &&& match cmd.side {
                Side::Yes => legs.pool_after.no.0 == pool.no.0 - legs.gross.0
                    && legs.pool_after.yes.0 == pool.yes.0 + cmd.amount_micro - legs.gross.0,
                Side::No => legs.pool_after.yes.0 == pool.yes.0 - legs.gross.0
                    && legs.pool_after.no.0 == pool.no.0 + cmd.amount_micro - legs.gross.0,
            }
        })),
        legs_of(cmd, pool, outcome, held, fee) == Err::<QuotedLegs, Fault>(
            Fault::InsufficientShares,
        ) <==> (cmd.amount_micro <= 0 || match held {
            Some(p) => p.shares.0 < cmd.amount_micro,
            None => true,
        }),
{
    let shares = MicroShares(cmd.amount_micro);
    amm::lemma_sell_facts(pool, cmd.side, shares, fee);
    amm::law_sell_follows_the_curve(pool, cmd.side, shares, fee);
    if let Ok(legs) = legs_of(cmd, pool, outcome, held, fee) {
        let p = held.unwrap();
        let n = p.cost.0 * shares.0;
        let d = p.shares.0 as int;
        lemma_relieved_bounds(p.cost.0 as int, shares.0 as int, d);
        assert(p.cost.0 >= 0 ==> n >= 0) by (nonlinear_arith)
            requires
                n == p.cost.0 * shares.0,
                shares.0 > 0,
        ;
        assert(p.cost.0 <= 0 ==> n <= 0) by (nonlinear_arith)
            requires
                n == p.cost.0 * shares.0,
                shares.0 > 0,
        ;
        if n >= 0 {
            money::lemma_floor(n, d);
        } else {
            money::lemma_floor(-n, d);
            let up = (-n) / d;
            assert((-up - 1) * d == -((up + 1) * d) && (-up) * d == -(up * d)) by (nonlinear_arith);
        }
        if n == 0 {
            let none = n / d;
            assert(none == 0 && (none - 1) * d < 0 && none * d == 0) by (nonlinear_arith)
                requires
                    n == 0,
                    d > 0,
                    none == n / d,
            ;
        }
        money::lemma_floor(legs.gross.0 * 1_000_000, cmd.amount_micro as int);
    }
}

/// Trades of one outcome add up: buying and then selling leaves what was held,
/// plus what was bought, less what was sold.
pub proof fn law_positions_are_running_sums(
    buy: PlaceTradeCmd,
    sell: PlaceTradeCmd,
    pool: Pool,
    later: Pool,
    outcome: OutcomeId,
    held: PositionRow,
    fee: BasisPoints,
)
    requires
        pool.wf(),
        later.wf(),
        buy.action == TradeAction::Buy,
        sell.action == TradeAction::Sell,
    ensures
        legs_of(buy, pool, outcome, Some(held), fee) matches Ok(bought) ==> (legs_of(
            sell,
            later,
            outcome,
            Some(bought.position),
            fee,
        ) matches Ok(sold) ==> sold.position.shares.0 == held.shares.0 + bought.shares.0
            - sell.amount_micro),
{
    law_buys_add_to_the_position(buy, pool, outcome, Some(held), fee);
    if let Ok(bought) = legs_of(buy, pool, outcome, Some(held), fee) {
        law_sells_take_from_the_position(sell, later, outcome, Some(bought.position), fee);
    }
}

/// What a fresh trade on a market is refused for, in order: a market that is not
/// live, one whose tally is hidden or that is closing, a user who has not voted,
/// and a buy that takes the user's cost in the market above the cap of their
/// tier.
pub proof fn law_fresh_trades_are_refused_for(
    cmd: PlaceTradeCmd,
    facts: TradeFacts,
    rep: RepConfig,
    tier: u8,
    row: MarketRow,
    now: Timestamp,
)
    requires
        cmd.expected_config_version is Some,
        facts.key_serialized,
        facts.existing == Some(None::<LedgerTxnId>),
        facts.user_locked && facts.collected && facts.enforced,
        facts.tier == Some(tier),
        tier <= 4,
        facts.market == Some((row, now)),
    ensures
        row.state == MarketState::Closing || (row.state == MarketState::Live && now.0
            >= row.tally_hidden_at.0) ==> trade_step(cmd, facts, rep) == TradeVerdict::Refuse(
            Fault::TradingFrozen,
        ),
        row.state != MarketState::Closing && row.state != MarketState::Live ==> trade_step(
            cmd,
            facts,
            rep,
        ) == TradeVerdict::Refuse(Fault::MarketNotOpen),
        row.state == MarketState::Live && now.0 < row.tally_hidden_at.0 && facts.voted == Some(
            false,
        ) ==> trade_step(cmd, facts, rep) == TradeVerdict::Refuse(Fault::VoteRequired),
        row.state == MarketState::Live && now.0 < row.tally_hidden_at.0 && facts.voted == Some(true)
            && cmd.action == TradeAction::Buy && facts.pool is Some && facts.last_buy_at is Some
            && facts.fee_override == Some(None::<Json>) ==> (facts.position_cost matches Some(cost)
            ==> cost.0 + cmd.amount_micro <= i64::MAX && cost.0 + cmd.amount_micro
            > rep.position_cap_micro_by_tier@[tier as int] && cost.0 + cmd.amount_micro >= i64::MIN
            ==> trade_step(cmd, facts, rep) == TradeVerdict::Refuse(
            Fault::PositionCapExceeded {
                cap_micro: rep.position_cap_micro_by_tier@[tier as int] as int,
                tier: tier as int,
            },
        )),
{
}

/// What an applied trade rests on, in the facts' own numbers: a market that is
/// live before its tally is hidden, a vote, no pause that reads `true`, and for a
/// buy a cost that stays within the cap; it is quoted for the outcome of its side
/// from the locked pool and position.
pub proof fn law_what_an_applied_trade_rests_on(
    cmd: PlaceTradeCmd,
    facts: TradeFacts,
    rep: RepConfig,
    plan: TradePlan,
)
    requires
        trade_step(cmd, facts, rep) == TradeVerdict::Apply(plan),
    ensures
        facts.existing == Some(None::<LedgerTxnId>),
        facts.market matches Some(read) && read.0.state == MarketState::Live && read.1.0
            < read.0.tally_hidden_at.0 && plan.outcome == (match cmd.side {
            Side::Yes => read.0.yes_outcome,
            Side::No => read.0.no_outcome,
        }),
        facts.voted == Some(true),
        facts.trading_paused matches Some(Some(v)) ==> v@ != JsonView::Bool(true),
        facts.market_paused matches Some(Some(v)) ==> v@ != JsonView::Bool(true),
        facts.voting_paused matches Some(Some(v)) ==> v@ != JsonView::Bool(true),
        facts.tier matches Some(tier) && (cmd.action == TradeAction::Buy ==> (
        facts.position_cost matches Some(cost) && cost.0 + cmd.amount_micro
            <= rep.position_cap_micro_by_tier@[if tier > 4 {
            4
        } else {
            tier as int
        }])),
        facts.pool matches Some(pool) && facts.held matches Some(held) && legs_of(
            cmd,
            pool,
            plan.outcome,
            held,
            plan.fee_rate,
        ) == Ok::<QuotedLegs, Fault>(plan.legs),
        facts.fee_override == Some(None::<Json>) ==> (facts.tier matches Some(tier) && (
        facts.last_buy_at matches Some(read) && plan.fee_rate == pricing::trade_fee(
            cmd.action,
            rep,
            tier,
            facts.pool.unwrap().fee.0,
            read.0,
            read.1,
        ))),
{
}

/// A trade that meets every condition is applied: nothing else refuses it but a
/// configuration that has drifted since its preview, or its own quote.
pub proof fn law_trades_that_meet_every_condition_are_quoted(
    cmd: PlaceTradeCmd,
    facts: TradeFacts,
    rep: RepConfig,
    tier: u8,
    row: MarketRow,
    now: Timestamp,
)
    requires
        cmd.expected_config_version is Some,
        facts.key_serialized,
        facts.existing == Some(None::<LedgerTxnId>),
        facts.user_locked && facts.collected && facts.enforced && facts.fenced,
        facts.tier == Some(tier),
        tier <= 4,
        facts.market == Some((row, now)),
        row.state == MarketState::Live,
        now.0 < row.tally_hidden_at.0,
        facts.voted == Some(true),
        facts.pool is Some,
        facts.held is Some,
        facts.last_buy_at is Some,
        facts.fee_override == Some(None::<Json>),
        facts.position_cost matches Some(cost) && i64::MIN <= cost.0 + cmd.amount_micro
            <= rep.position_cap_micro_by_tier@[tier as int],
        facts.trading_paused == Some(None::<Json>),
        facts.market_paused == Some(None::<Json>),
        facts.voting_paused == Some(None::<Json>),
        facts.drift matches Some(read) && read.1 is Some,
    ensures
        ({
            let outcome = match cmd.side {
                Side::Yes => row.yes_outcome,
                Side::No => row.no_outcome,
            };
            ||| trade_step(cmd, facts, rep) matches TradeVerdict::Refuse(
                Fault::StaleConfig { preview_generation, current_generation },
            ) && cmd.expected_config_version == Some(preview_generation as i64)
                && current_generation == facts.drift.unwrap().0
            ||| ({
                let fee = pricing::trade_fee(
                    cmd.action,
                    rep,
                    tier,
                    facts.pool.unwrap().fee.0,
                    facts.last_buy_at.unwrap().0,
                    facts.last_buy_at.unwrap().1,
                );
                match legs_of(cmd, facts.pool.unwrap(), outcome, facts.held.unwrap(), fee) {
                    Ok(legs) => trade_step(cmd, facts, rep) == TradeVerdict::Apply(
                        TradePlan { outcome, fee_rate: fee, legs },
                    ),
                    Err(f) => trade_step(cmd, facts, rep) == TradeVerdict::Refuse(f),
                }
            })
        }),
{
}

/// The ledger entries of a trade: the user's, the escrow's, and the fee's where
/// there is one, each with what the trade moves on it.
pub proof fn law_trades_post_their_legs(
    plan: TradePlan,
    user: AccountId,
    escrow: AccountId,
    fees: AccountId,
)
    ensures
        ({
            let list = plan.entry_list(user, escrow, fees);
            &&& list.len() == if plan.legs.fee_delta == 0 {
                2int
            } else {
                3
            }
            &&& list[0].account == user && list[0].amount.0 == plan.legs.user_delta
            &&& list[1].account == escrow && list[1].amount.0 == plan.legs.escrow_delta
            &&& plan.legs.fee_delta != 0 ==> list[2].account == fees && list[2].amount.0
                == plan.legs.fee_delta
        }),
{
}

} // verus!
