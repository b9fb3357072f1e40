//! Market creation. A market is created as a draft, approved at once and left
//! scheduled; the seed transaction (house down, escrow up by the seed) backs
//! the minted pool inventory: the seed in micro-USD backs as many complete sets
//! held by the pool.

use crate::amm::{AmmError, Pool};
use crate::clock::Timestamp;
use crate::error::{AppError, Fault, StoreError};
use crate::json;
use crate::json::{Json, JsonView};
use crate::ledger;
use crate::ledger::{AccountId, Entry, LedgerError};
use crate::market;
use crate::market::{transition, MarketEvent, MarketState};
use crate::model::{Event, EventView, MarketId, RepConfig};
use crate::money::{BasisPoints, MicroShares, MicroUsd};
use vstd::prelude::*;

verus! {

/// A request to create and seed a market.
#[derive(Debug, Clone, PartialEq, Eq)]
pub struct SeedMarketCmd {
    /// Caller-generated market id.
    pub market_id: MarketId,
    pub slug: String,
    pub min_votes_to_resolve: i32,
    pub closes_at: Timestamp,
    pub tally_hidden_at: Timestamp,
    pub fee: BasisPoints,
    /// The seed collateral in micro-USD; also the minted reserves in
    /// micro-shares per side.
    pub seed: MicroUsd,
    pub idempotency_key: String,
    /// Explicit admin override for the seed-time-only loss breaker.
    pub force: bool,
}

/// What seeding gives back.
#[derive(Debug, Clone, Copy, PartialEq, Eq, Structural)]
pub struct SeedReceipt {
    pub market: MarketId,
    pub replayed: bool,
}

/// The loss breaker: how much liquidity provision may lose in how many days.
#[derive(Debug, Clone, Copy, PartialEq, Eq, Structural)]
pub struct LpKillConfig {
    pub max_loss_micro: i64,
    pub window_days: u32,
}

/// What seeding has read so far.
#[derive(Debug, Clone, Copy, PartialEq, Eq, Structural)]
pub struct SeedFacts {
    pub key_serialized: bool,
    pub seeded: Option<Option<MarketId>>,
    pub kill_switch_locked: bool,
    /// The profit or loss of liquidity provision within the window.
    pub lp_pnl: Option<MicroUsd>,
}

/// What seeding reads or does next.
#[derive(Debug, Clone, Copy, PartialEq, Eq, Structural)]
pub enum SeedNeed {
    SerializeKey,
    SeededMarketByKey,
    LockLpKillSwitch,
    /// The profit or loss since this many days ago.
    LpPnlSum { window_days: u32 },
}

/// What becomes of a seed next.
#[derive(Debug, PartialEq, Eq)]
pub enum SeedStep {
    Need(SeedNeed),
    Refuse(AppError),
    Replay(SeedReceipt),
    /// Create the market; the breaker had tripped and was overridden, or had
    /// not.
    Create { breaker_overridden: bool },
}

/// What becomes of a seed next, refusals as plain values.
pub enum SeedVerdict {
    Need(SeedNeed),
    Refuse(Fault),
    Replay(SeedReceipt),
    Create { breaker_overridden: bool },
}

impl View for SeedStep {
    type V = SeedVerdict;

    open spec fn view(&self) -> SeedVerdict {
        match self {
            SeedStep::Need(n) => SeedVerdict::Need(*n),
            SeedStep::Refuse(e) => SeedVerdict::Refuse(e@),
            SeedStep::Replay(receipt) => SeedVerdict::Replay(*receipt),
            SeedStep::Create { breaker_overridden } => SeedVerdict::Create {
                breaker_overridden: *breaker_overridden,
            },
        }
    }
}

/// The breaker has tripped: the loss reaches the limit.
pub open spec fn breaker_tripped(lp_pnl: int, max_loss: int) -> bool {
    lp_pnl <= -max_loss
}

/// What becomes of a seed after what was read so far.
pub open spec fn seed_step(
    cmd: SeedMarketCmd,
    facts: SeedFacts,
    min_fee_bps: u16,
    breaker: LpKillConfig,
) -> SeedVerdict {
    if cmd.seed.0 <= 0 {
        SeedVerdict::Refuse(Fault::Amm(AmmError::EmptyPool))
    } else if cmd.fee.0 < min_fee_bps {
        SeedVerdict::Refuse(
            Fault::SeedFeeBelowMinimum { base_bps: cmd.fee.0 as int, min_bps: min_fee_bps as int },
        )
    } else if !facts.key_serialized {
        SeedVerdict::Need(SeedNeed::SerializeKey)
    } else {
        match facts.seeded {
            None => SeedVerdict::Need(SeedNeed::SeededMarketByKey),
            Some(Some(market)) => SeedVerdict::Replay(SeedReceipt { market, replayed: true }),
            Some(None) => if !facts.kill_switch_locked {
                SeedVerdict::Need(SeedNeed::LockLpKillSwitch)
            } else {
                match facts.lp_pnl {
                    None => SeedVerdict::Need(
                        SeedNeed::LpPnlSum { window_days: breaker.window_days },
                    ),
                    Some(pnl) => {
                        let tripped = breaker_tripped(
                            pnl.0 as int,
                            breaker.max_loss_micro as int,
                        );
                        if tripped && !cmd.force {
                            SeedVerdict::Refuse(Fault::LpPaused)
                        } else {
                            SeedVerdict::Create { breaker_overridden: tripped }
                        }
                    },
                }
            },
        }
    }
}

/// The breaker is inclusive: a loss of the limit or more stops every seed that
/// is not forced and marks every seed that is; a smaller one does neither.
pub proof fn law_breaker_is_inclusive(
    cmd: SeedMarketCmd,
    facts: SeedFacts,
    min_fee_bps: u16,
    breaker: LpKillConfig,
)
    requires
        cmd.seed.0 > 0,
        cmd.fee.0 >= min_fee_bps,
        facts.key_serialized,
        facts.seeded == Some(None::<MarketId>),
        facts.kill_switch_locked,
        facts.lp_pnl is Some,
    ensures
        seed_step(cmd, facts, min_fee_bps, breaker) == (if facts.lp_pnl.unwrap().0
            > -breaker.max_loss_micro {
            SeedVerdict::Create { breaker_overridden: false }
        } else if cmd.force {
            SeedVerdict::Create { breaker_overridden: true }
        } else {
            SeedVerdict::Refuse(Fault::LpPaused)
        }),
{
}

/// A key seeds one market: once a market was seeded under it, the key only ever
/// answers with that market.
pub proof fn law_seed_key_is_used_once(
    cmd: SeedMarketCmd,
    facts: SeedFacts,
    min_fee_bps: u16,
    breaker: LpKillConfig,
    market: MarketId,
)
    requires
        cmd.seed.0 > 0,
        cmd.fee.0 >= min_fee_bps,
        facts.key_serialized,
        facts.seeded == Some(Some(market)),
    ensures
        seed_step(cmd, facts, min_fee_bps, breaker) == SeedVerdict::Replay(
            SeedReceipt { market, replayed: true },
        ),
{
}

/// The payload of the event that records an overridden breaker.
pub open spec fn override_payload(lp_pnl: int, breaker: LpKillConfig) -> JsonView {
    JsonView::Object(
        seq![
            ("lp_pnl_micro"@, JsonView::Int(lp_pnl)),
            ("max_loss_micro"@, JsonView::Int(breaker.max_loss_micro as int)),
            ("window_days"@, JsonView::Int(breaker.window_days as int)),
            ("seed_time_only"@, JsonView::Bool(true)),
        ],
    )
}

/// The payload of the event that announces a seeded market.
pub open spec fn seeded_payload(cmd: SeedMarketCmd) -> JsonView {
    JsonView::Object(
        seq![
            ("slug"@, JsonView::Text(cmd.slug@)),
            ("seed_micro"@, JsonView::Int(cmd.seed.0 as int)),
            ("fee_bps"@, JsonView::Int(cmd.fee.0 as int)),
        ],
    )
}

/// Seeding markets under the committed economy values and the loss breaker.
#[derive(Debug, Clone, Copy, PartialEq, Eq)]
pub struct SeedMarket {
    pub rep_config: RepConfig,
    pub lp_kill_config: LpKillConfig,
}

impl SeedMarket {
    /// What to read next, or what becomes of the seed.
    pub fn execute(&self, cmd: &SeedMarketCmd, facts: &SeedFacts) -> (r: SeedStep)
        ensures
            r@ == seed_step(
                *cmd,
                *facts,
                self.rep_config.min_fee_bps,
                self.lp_kill_config,
            ),
    {
        if cmd.seed.0 <= 0 {
            return SeedStep::Refuse(AppError::Amm(AmmError::EmptyPool));
        }
        if cmd.fee.0 < self.rep_config.min_fee_bps {
            return SeedStep::Refuse(
                AppError::SeedFeeBelowMinimum { base_bps: cmd.fee.0, min_bps: self.rep_config.min_fee_bps },
            );
        }
        if !facts.key_serialized {
            return SeedStep::Need(SeedNeed::SerializeKey);
        }
        match facts.seeded {
            None => return SeedStep::Need(SeedNeed::SeededMarketByKey),
            Some(Some(market)) => return SeedStep::Replay(SeedReceipt { market, replayed: true }),
            Some(None) => {},
        }
        if !facts.kill_switch_locked {
            return SeedStep::Need(SeedNeed::LockLpKillSwitch);
        }
        let pnl: MicroUsd = match facts.lp_pnl {
            None => return SeedStep::Need(
                SeedNeed::LpPnlSum { window_days: self.lp_kill_config.window_days },
            ),
            Some(pnl) => pnl,
        };
        let tripped = pnl.0 as i128 <= -(self.lp_kill_config.max_loss_micro as i128);
        if tripped && !cmd.force {
            return SeedStep::Refuse(AppError::LpPaused);
        }
        SeedStep::Create { breaker_overridden: tripped }
    }
}

impl SeedMarketCmd {
    /// The start of the breaker's window.
    pub fn window_start(&self, now: Timestamp, breaker: &LpKillConfig) -> (r: Timestamp)
        requires
            now.wf(),
            now.has_room(-86_400 * breaker.window_days),
        ensures
            r == now.later(-86_400 * breaker.window_days),
            r.0 == now.0 - 86_400_000_000_000 * breaker.window_days,
            r.wf(),
    {
        now.plus_secs(-86_400 * breaker.window_days as i64)
    }

    /// The event that records an overridden breaker.
    pub fn override_event(&self, lp_pnl: MicroUsd, breaker: &LpKillConfig) -> (r: Event)
        ensures
            r@ == (EventView {
                event_type: "LpKillOverride"@,
                aggregate_type: "market"@,
                aggregate_id: self.market_id.0,
                payload: override_payload(lp_pnl.0 as int, *breaker),
            }),
    {
        let members: Vec<(String, Json)> = vec![
            json::member("lp_pnl_micro", Json::Int(lp_pnl.0)),
            json::member("max_loss_micro", Json::Int(breaker.max_loss_micro)),
            json::member("window_days", Json::Int(breaker.window_days as i64)),
            json::member("seed_time_only", Json::Bool(true)),
        ];
        assert(json::members_view(members@) =~= override_payload(
            lp_pnl.0 as int,
            *breaker,
        )->Object_0);
        Event {
            event_type: "LpKillOverride",
            aggregate_type: "market",
            aggregate_id: self.market_id.0,
            payload: Json::object(members),
        }
    }

    /// The entries of the seed: house down, escrow up.
    pub open spec fn entry_list(&self, house: AccountId, escrow: AccountId) -> Seq<Entry> {
        seq![
            Entry { account: house, amount: MicroUsd((-self.seed.0) as i64) },
            Entry { account: escrow, amount: self.seed },
        ]
    }

    /// The entries of the seed: house down, escrow up.
    pub fn entries(&self, house: AccountId, escrow: AccountId) -> (r: Vec<Entry>)
        requires
            self.seed.0 > 0,
        ensures
            r@ == self.entry_list(house, escrow),
            ledger::transaction_error(r@) is None,
            r@.len() == 2,
            r@[0].account == house && r@[0].amount.0 == -self.seed.0,
            r@[1].account == escrow && r@[1].amount.0 == self.seed.0,
    {
        let house_delta: i64 = -self.seed.0;
        let r = vec![
            Entry { account: house, amount: MicroUsd(house_delta) },
            Entry { account: escrow, amount: self.seed },
        ];
        proof {
            assert(r@ =~= self.entry_list(house, escrow));
            law_seed_entries_balance(*self, house, escrow);
        }
        r
    }

    /// The minted pool: as many shares of each side as the seed has micro-USD.
    ///
    /// # Errors
    ///
    /// [`AppError::Amm`] where the seed or the fee is beyond the caps.
    pub fn minted_pool(&self) -> (r: Result<Pool, AppError>)
        requires
            self.seed.0 > 0,
        ensures
            if self.seed.0 > crate::amm::MAX_RESERVE || self.fee.0 > 10_000 {
                r matches Err(e) && e@ == Fault::Amm(AmmError::InputTooLarge)
            } else {
                r matches Ok(pool) && pool.wf() && pool.yes.0 == self.seed.0 && pool.no.0
                    == self.seed.0 && pool.fee == self.fee
            },
    {
        match Pool::new(MicroShares(self.seed.0), MicroShares(self.seed.0), self.fee) {
            Ok(pool) => Ok(pool),
            Err(e) => Err(AppError::Amm(e)),
        }
    }

    /// The state that a seeded market is left in.
    pub fn seeded_state(&self) -> (r: Result<MarketState, AppError>)
        ensures
            r == Ok::<MarketState, AppError>(MarketState::Scheduled),
    {
        match transition(MarketState::Draft, MarketEvent::Approve) {
            Ok(state) => Ok(state),
            Err(_) => Err(AppError::IllegalTransition),
        }
    }

    /// The event that announces the seeded market.
    pub fn seeded_event(&self, market: MarketId) -> (r: Event)
        ensures
            r@ == (EventView {
                event_type: "MarketSeeded"@,
                aggregate_type: "market"@,
                aggregate_id: market.0,
                payload: seeded_payload(*self),
            }),
    {
        let members: Vec<(String, Json)> = vec![
            json::member("slug", Json::Text(self.slug.clone())),
            json::member("seed_micro", Json::Int(self.seed.0)),
            json::member("fee_bps", Json::Int(self.fee.0 as i64)),
        ];
        assert(json::members_view(members@) =~= seeded_payload(*self)->Object_0);
        Event {
            event_type: "MarketSeeded",
            aggregate_type: "market",
            aggregate_id: market.0,
            payload: Json::object(members),
        }
    }
}

/// The seed is a balanced transaction, and it backs the minted inventory: the
/// escrow gets exactly as many micro-USD as the pool gets complete sets.
pub proof fn law_seed_entries_balance(cmd: SeedMarketCmd, house: AccountId, escrow: AccountId)
    requires
        cmd.seed.0 > 0,
    ensures
        ledger::transaction_error(cmd.entry_list(house, escrow)) is None,
        house != escrow ==> ledger::account_delta(cmd.entry_list(house, escrow), escrow)
            == cmd.seed.0,
{
    let list = cmd.entry_list(house, escrow);
    let one = list.drop_last();
    assert(one.drop_last() =~= Seq::<Entry>::empty());
    assert(ledger::entries_sum(Seq::<Entry>::empty()) == 0);
    assert(ledger::entries_sum(one) == -cmd.seed.0);
    assert(ledger::entries_sum(list) == 0);
    assert(ledger::account_delta(Seq::<Entry>::empty(), escrow) == 0);
    assert(house != escrow ==> ledger::account_delta(one, escrow) == 0);
    assert(list[0].amount.0 != 0 && list[1].amount.0 != 0);
}

/// What a failed seed posting is answered with.
pub open spec fn seed_ledger_fault(error: StoreError) -> Fault {
    match error {
        StoreError::Ledger(LedgerError::InsufficientFunds { .. }) => Fault::InsufficientFunds,
        other => Fault::Store(other@),
    }
}

/// A house that cannot cover the seed is insufficient funds; every other
/// failure stays a store error.
pub fn map_seed_ledger_error(error: StoreError) -> (r: AppError)
    ensures
        r@ == seed_ledger_fault(error),
{
    match error {
        StoreError::Ledger(LedgerError::InsufficientFunds { .. }) => AppError::InsufficientFunds,
        other => AppError::Store(other),
    }
}

/// What a seed is refused for before anything is read, and nothing else: no seed
/// at all, and a fee below the floor. What is read afterwards comes in one order.
pub proof fn law_what_a_seed_is_refused_for(
    cmd: SeedMarketCmd,
    facts: SeedFacts,
    min_fee_bps: u16,
    breaker: LpKillConfig,
)
    ensures
        seed_step(cmd, facts, min_fee_bps, breaker) == SeedVerdict::Refuse(
            Fault::Amm(AmmError::EmptyPool),
        ) <==> cmd.seed.0 <= 0,
        cmd.seed.0 > 0 && cmd.fee.0 < min_fee_bps ==> seed_step(cmd, facts, min_fee_bps, breaker)
            == SeedVerdict::Refuse(
            Fault::SeedFeeBelowMinimum { base_bps: cmd.fee.0 as int, min_bps: min_fee_bps as int },
        ),
        seed_step(cmd, facts, min_fee_bps, breaker) is Refuse ==> cmd.seed.0 <= 0 || cmd.fee.0
            < min_fee_bps || (facts.lp_pnl matches Some(pnl) && pnl.0 <= -breaker.max_loss_micro
            && !cmd.force && facts.seeded == Some(None::<MarketId>)),
        seed_step(cmd, facts, min_fee_bps, breaker) matches SeedVerdict::Create {
            breaker_overridden,
        } ==> cmd.seed.0 > 0 && cmd.fee.0 >= min_fee_bps && facts.key_serialized && facts.seeded
            == Some(None::<MarketId>) && facts.kill_switch_locked && (facts.lp_pnl matches Some(pnl)
            && (breaker_overridden <==> pnl.0 <= -breaker.max_loss_micro) && (breaker_overridden
            ==> cmd.force)),
        cmd.seed.0 > 0 && cmd.fee.0 >= min_fee_bps && !facts.key_serialized ==> seed_step(
            cmd,
            facts,
            min_fee_bps,
            breaker,
        ) == SeedVerdict::Need(SeedNeed::SerializeKey),
{
}

/// A house that cannot pay is short of funds; every other failure is the store's
/// own.
pub proof fn law_only_missing_funds_are_told_apart(error: StoreError)
    ensures
        seed_ledger_fault(error) == Fault::InsufficientFunds <==> error is Ledger
            && error->Ledger_0 is InsufficientFunds,
        !(error is Ledger && error->Ledger_0 is InsufficientFunds) ==> seed_ledger_fault(error)
            == Fault::Store(error@),
{
}

} // verus!
