//! Previewing, placing and seeding against a small market kept in memory: the
//! operations decide, and the world below only answers what they ask.

use opinions::amm::{quote_buy, quote_sell, AmmError, Pool, Side};
use opinions::clock::Timestamp;
use opinions::error::{AppError, StoreError};
use opinions::json::Json;
use opinions::ledger::{
    AccountId, Balances, Currency, Entry, LedgerError, OwnerType, Transaction, TxnKind,
};
use opinions::market::MarketState;
use opinions::model::{
    ConfigChange, Event, LedgerTxnId, MarketId, MarketRow, NewTrade, OutcomeId, PositionRow,
    RealizationFact, RealizationSource, RepConfig, TradeAction, TradeId, TradeReceipt, UserId,
};
use opinions::money::{BasisPoints, MicroShares, MicroUsd};
use opinions::ops::fee_override::override_key;
use opinions::place_trade::{
    trade_placed_event, PlaceTrade, PlaceTradeCmd, TradeFacts, TradeNeed, TradeStep,
};
use opinions::preview_trade::{
    avg_price_micro, PreviewFacts, PreviewNeed, PreviewStep, PreviewTrade, PreviewTradeCmd,
    TradePreview,
};
use opinions::seed_market::{
    map_seed_ledger_error, LpKillConfig, SeedFacts, SeedMarket, SeedMarketCmd, SeedNeed, SeedStep,
};
use std::collections::BTreeMap;

const RESERVES: i64 = 100_000_000;
const FEE_BPS: u16 = 100;
const START: i64 = 1_700_000_000;
const EXTERNAL: AccountId = AccountId(1);
const FEES: AccountId = AccountId(2);
const ESCROW: AccountId = AccountId(3);
const HOUSE: AccountId = AccountId(4);
const MARKET: MarketId = MarketId(77);
const YES: OutcomeId = OutcomeId(771);
const NO: OutcomeId = OutcomeId(772);

fn t0() -> Timestamp {
    Timestamp::from_secs(START)
}

fn after(t: Timestamp, secs: i64) -> Timestamp {
    t.plus_secs(secs)
}

fn fixture_pool() -> Pool {
    Pool::new(MicroShares(RESERVES), MicroShares(RESERVES), BasisPoints(FEE_BPS)).unwrap()
}

struct World {
    now: Timestamp,
    row: MarketRow,
    pool: Pool,
    balances: Balances,
    voters: Vec<UserId>,
    tier: u8,
    positions: Vec<PositionRow>,
    committed: BTreeMap<String, (LedgerTxnId, Option<String>, TradeReceipt)>,
    trades: Vec<NewTrade>,
    realizations: Vec<RealizationFact>,
    outbox: Vec<Event>,
    allocated: i64,
    config: BTreeMap<String, Json>,
    generation: i64,
    history: Vec<(i64, String, Option<Json>, Json)>,
    watermark: i64,
    last_buy: BTreeMap<(u128, u128), Timestamp>,
    next_id: u128,
}

fn account_of(user: UserId) -> AccountId {
    AccountId(1_000_000 + user.0)
}

impl World {
    fn new() -> World {
        let mut balances = Balances::default();
        balances.open(EXTERNAL, OwnerType::External, Currency::Usdc).unwrap();
        balances.open(FEES, OwnerType::Fees, Currency::Usdc).unwrap();
        balances.open(ESCROW, OwnerType::Escrow, Currency::Usdc).unwrap();
        balances.open(HOUSE, OwnerType::House, Currency::Usdc).unwrap();
        World {
            now: t0(),
            row: MarketRow {
                id: MARKET,
                state: MarketState::Live,
                tally_hidden_at: after(t0(), 3_600),
                closes_at: after(t0(), 7_200),
                yes_outcome: YES,
                no_outcome: NO,
            },
            pool: fixture_pool(),
            balances,
            voters: Vec::new(),
            tier: 0,
            positions: Vec::new(),
            committed: BTreeMap::new(),
            trades: Vec::new(),
            realizations: Vec::new(),
            outbox: Vec::new(),
            allocated: 0,
            config: BTreeMap::new(),
            generation: 1,
            history: Vec::new(),
            watermark: 0,
            last_buy: BTreeMap::new(),
            next_id: 500,
        }
    }

    fn with_voter() -> (World, UserId) {
        let mut world = World::new();
        let user = UserId(9);
        world.fund(user, 100_000_000);
        world.voters.push(user);
        (world, user)
    }

    fn fund(&mut self, user: UserId, amount: i64) {
        let account = account_of(user);
        if self.balances.balance(account).is_none() {
            self.balances.open(account, OwnerType::User, Currency::Usdc).unwrap();
        }
        self.post(
            TxnKind::Deposit,
            vec![
                Entry { account: EXTERNAL, amount: MicroUsd(-amount) },
                Entry { account, amount: MicroUsd(amount) },
            ],
        )
        .unwrap();
    }

    fn post(&mut self, kind: TxnKind, entries: Vec<Entry>) -> Result<LedgerTxnId, AppError> {
        let ledger = |e: LedgerError| AppError::Store(StoreError::Ledger(e));
        let txn = Transaction::new(kind, entries).map_err(ledger)?;
        self.balances.apply(&txn).map_err(ledger)?;
        self.next_id += 1;
        Ok(LedgerTxnId(self.next_id))
    }

    fn cash(&self, account: AccountId) -> i64 {
        self.balances.balance(account).unwrap().0
    }

    fn set_config(&mut self, key: &str, value: Json) {
        self.generation += 1;
        let old = self.config.insert(key.to_string(), value.clone());
        self.history.push((self.generation, key.to_string(), old, value));
    }

    fn held(&self, user: UserId, outcome: OutcomeId) -> Option<PositionRow> {
        self.positions.iter().find(|p| p.user == user && p.outcome == outcome).copied()
    }

    fn fingerprint(&self) -> String {
        format!(
            "{:?} {:?} {:?} {:?} {:?} {:?}",
            self.balances, self.pool, self.positions, self.outbox, self.trades, self.realizations
        )
    }

    fn place(&mut self, rep: RepConfig, cmd: &PlaceTradeCmd) -> Result<TradeReceipt, AppError> {
        let desk = PlaceTrade { rep_config: rep };
        let mut facts = TradeFacts::new();
        loop {
            let need = match desk.execute(cmd, &facts) {
                TradeStep::Refuse(e) => return Err(e),
                TradeStep::Replay(receipt) => return Ok(receipt),
                TradeStep::Apply(plan) => {
                    let fees = if plan.moves_fee() { Some(FEES) } else { None };
                    let entries = plan.entries(account_of(cmd.user), ESCROW, fees);
                    if plan.allocates_fee() {
                        self.allocated += plan.legs.fee.0;
                    }
                    let txn = self.post(TxnKind::Trade, entries)?;
                    self.pool = plan.legs.pool_after;
                    self.positions
                        .retain(|p| !(p.user == cmd.user && p.outcome == plan.outcome));
                    self.positions.push(plan.legs.position);
                    if let Some(fact) = plan.realization(cmd, txn, self.now) {
                        self.realizations.push(fact);
                    }
                    if cmd.action == TradeAction::Buy {
                        self.last_buy.insert((cmd.user.0, plan.outcome.0), self.now);
                    }
                    self.trades.push(plan.new_trade(cmd, txn));
                    self.next_id += 1;
                    let receipt = plan.receipt(cmd, TradeId(self.next_id), txn);
                    let sequence = i64::try_from(self.trades.len()).unwrap();
                    self.outbox.push(trade_placed_event(
                        cmd,
                        "tester",
                        receipt.trade_id,
                        sequence,
                        &Json::Int(START),
                        &plan.legs,
                    ));
                    self.committed.insert(
                        cmd.idempotency_key.clone(),
                        (txn, Some(cmd.fingerprint()), receipt),
                    );
                    return Ok(receipt);
                }
                TradeStep::Need(need) => need,
            };
            let found = self.committed.get(&cmd.idempotency_key);
            match need {
                TradeNeed::SerializeKey => facts.key_serialized = true,
                TradeNeed::TxnByKey => facts.existing = Some(found.map(|f| f.0)),
                TradeNeed::RequestFingerprint => {
                    facts.stored_fingerprint = Some(found.and_then(|f| f.1.clone()));
                }
                TradeNeed::TradeByLedgerTxn(_) => facts.stored_receipt = Some(found.map(|f| f.2)),
                TradeNeed::LockUser => facts.user_locked = true,
                TradeNeed::ConvertThenCollect => facts.collected = true,
                TradeNeed::EnforceMoneyMutation => facts.enforced = true,
                TradeNeed::UserTier => facts.tier = Some(self.tier),
                TradeNeed::MarketForUpdate => facts.market = Some((self.row, self.now)),
                TradeNeed::UserVoted => facts.voted = Some(self.voters.contains(&cmd.user)),
                TradeNeed::PoolForUpdate => facts.pool = Some(self.pool),
                TradeNeed::LastBuyAt(outcome) => {
                    let last = self.last_buy.get(&(cmd.user.0, outcome.0)).copied();
                    facts.last_buy_at = Some((last, self.now));
                }
                TradeNeed::FeeOverride => {
                    facts.fee_override = Some(self.config.get(&override_key(cmd.market)).cloned());
                }
                TradeNeed::PositionCost => {
                    let cost = self.positions.iter().filter(|p| p.user == cmd.user);
                    facts.position_cost = Some(MicroUsd(cost.map(|p| p.cost.0).sum()));
                }
                TradeNeed::PositionForUpdate(outcome) => {
                    facts.held = Some(self.held(cmd.user, outcome));
                }
                TradeNeed::SharedFences => {
                    assert_eq!(cmd.shared_fences().len(), 2);
                    facts.fenced = true;
                }
                TradeNeed::TradingPaused => {
                    facts.trading_paused = Some(self.config.get("trading_paused").cloned());
                }
                TradeNeed::MarketPaused => {
                    let key = format!("market_paused:{}", uuid::Uuid::from_u128(cmd.market.0));
                    facts.market_paused = Some(self.config.get(&key).cloned());
                }
                TradeNeed::VotingPaused => {
                    let key = format!("voting_paused:{}", uuid::Uuid::from_u128(cmd.market.0));
                    facts.voting_paused = Some(self.config.get(&key).cloned());
                }
                TradeNeed::ChangesSince(generation) => {
                    let changes = if generation < self.watermark {
                        None
                    } else {
                        let later = self.history.iter().filter(|h| h.0 > generation);
                        Some(
                            later
                                .map(|h| ConfigChange {
                                    key: h.1.clone(),
                                    old: h.2.clone(),
                                    new: h.3.clone(),
                                })
                                .collect(),
                        )
                    };
                    facts.drift = Some((self.generation, changes, self.now));
                }
            }
        }
    }

    fn preview(&self, rep: RepConfig, cmd: &PreviewTradeCmd) -> Result<TradePreview, AppError> {
        let desk = PreviewTrade { rep_config: rep };
        let mut facts = PreviewFacts::new();
        loop {
            match desk.execute(cmd, &facts) {
                PreviewStep::Refuse(e) => return Err(e),
                PreviewStep::Quote(p) => return Ok(p),
                PreviewStep::Need(need) => match need {
                    PreviewNeed::CurrentGeneration => facts.generation = Some(self.generation),
                    PreviewNeed::MarketByRef => facts.market = Some((self.row, self.now)),
                    PreviewNeed::VotingPaused(market) => {
                        let key = format!("voting_paused:{}", uuid::Uuid::from_u128(market.0));
                        facts.voting_paused = Some(self.config.get(&key).cloned());
                    }
                    PreviewNeed::Pool(_) => facts.pool = Some(self.pool),
                    PreviewNeed::UserTier => facts.tier = Some(self.tier),
                    PreviewNeed::LastBuyAt(outcome) => {
                        let last = self.last_buy.get(&(cmd.user_id.0, outcome.0)).copied();
                        facts.last_buy_at = Some((last, self.now));
                    }
                    PreviewNeed::FeeOverride(market) => {
                        facts.fee_override = Some(self.config.get(&override_key(market)).cloned());
                    }
                },
            }
        }
    }
}

fn buy_cmd(user: UserId, amount: i64, key: &str) -> PlaceTradeCmd {
    PlaceTradeCmd {
        market: MARKET,
        user,
        side: Side::Yes,
        action: TradeAction::Buy,
        amount_micro: amount,
        idempotency_key: key.to_string(),
        run_id: None,
        pending_action_id: None,
        expected_config_version: Some(1),
    }
}

fn sell_cmd(user: UserId, shares: i64, key: &str) -> PlaceTradeCmd {
    PlaceTradeCmd { action: TradeAction::Sell, ..buy_cmd(user, shares, key) }
}

fn preview_cmd(user: UserId, action: TradeAction, amount: i64) -> PreviewTradeCmd {
    PreviewTradeCmd {
        market_ref: "will-it-rain".to_string(),
        user_id: user,
        side: Side::Yes,
        action,
        amount_micro: amount,
    }
}

#[test]
fn omitted_expected_config_version_is_rejected_before_money_moves() {
    let (mut world, user) = World::with_voter();
    let before = world.fingerprint();
    let mut cmd = buy_cmd(user, 5_000_000, "missing-version");
    cmd.expected_config_version = None;
    assert_eq!(
        world.place(RepConfig::default(), &cmd),
        Err(AppError::ExpectedConfigVersionRequired)
    );
    assert_eq!(before, world.fingerprint());
}

#[test]
fn malformed_fee_override_fails_trade_closed_before_money_moves() {
    let (mut world, user) = World::with_voter();
    world.config.insert(override_key(MARKET), Json::Int(99));
    let before = world.fingerprint();
    assert_eq!(
        world.place(RepConfig::default(), &buy_cmd(user, 5_000_000, "corrupt-fee-override")),
        Err(AppError::Store(StoreError::Invariant("invalid fee override")))
    );
    assert_eq!(before, world.fingerprint());
}

#[test]
fn replayed_key_returns_original_and_writes_nothing() {
    let (mut world, user) = World::with_voter();
    let cmd = buy_cmd(user, 5_000_000, "key-1");
    let first = world.place(RepConfig::default(), &cmd).unwrap();
    let snapshot = world.fingerprint();
    let second = world.place(RepConfig::default(), &cmd).unwrap();
    assert!(second.replayed && first.trade_id == second.trade_id);
    assert_eq!(snapshot, world.fingerprint());
    assert!(!first.replayed);
    assert_eq!(TradeReceipt { replayed: false, ..second }, first);
}

#[test]
fn buy_moves_money_reserves_position_and_emits_event() {
    let (mut world, user) = World::with_voter();
    let gross = 5_000_000;
    let receipt = world.place(RepConfig::default(), &buy_cmd(user, gross, "key-buy")).unwrap();
    let q =
        quote_buy(&fixture_pool(), Side::Yes, MicroUsd(gross), BasisPoints(FEE_BPS)).unwrap();
    assert_eq!(receipt.shares, q.shares_out);
    assert_eq!(receipt.gross, MicroUsd(gross));
    assert_eq!(receipt.fee, q.fee);
    assert_eq!(receipt.avg_price_micro, q.avg_price_micro_per_share);
    assert_eq!(receipt.side, Side::Yes);
    assert_eq!(receipt.action, TradeAction::Buy);
    assert!(!receipt.replayed);
    let net = gross - q.fee.0;
    assert_eq!(world.cash(account_of(user)), 100_000_000 - gross);
    assert_eq!(world.cash(FEES), q.fee.0);
    assert_eq!(world.cash(ESCROW), net);
    assert_eq!(world.pool, q.pool_after);
    assert_eq!(world.positions.len(), 1);
    assert_eq!(world.positions[0].shares, q.shares_out);
    assert_eq!(world.positions[0].cost, MicroUsd(gross));
    assert_eq!(world.positions[0].realized_pnl, MicroUsd(0));
    assert_eq!(world.positions[0].outcome, YES);
    assert!(world.realizations.is_empty(), "buys do not realize gains");
    assert_eq!(world.outbox.len(), 1);
    assert_eq!(world.outbox[0].event_type, "TradePlaced");
    assert_eq!(world.outbox[0].aggregate_type, "market");
    assert_eq!(world.outbox[0].aggregate_id, MARKET.0);
    assert_eq!(world.trades[0].ledger_txn, receipt.ledger_txn);
    assert_eq!(world.trades[0].run_id, None);
}

#[test]
fn sell_partial_applies_m5_formula() {
    let (mut world, user) = World::with_voter();
    let gross = 5_000_000;
    let rep = RepConfig::default();
    let buy = world.place(rep, &buy_cmd(user, gross, "key-buy")).unwrap();
    let buy_quote =
        quote_buy(&fixture_pool(), Side::Yes, MicroUsd(gross), BasisPoints(FEE_BPS)).unwrap();
    let sold = buy.shares.0 / 2;
    let receipt = world.place(rep, &sell_cmd(user, sold, "key-sell")).unwrap();
    let q = quote_sell(
        &buy_quote.pool_after,
        Side::Yes,
        MicroShares(sold),
        BasisPoints(FEE_BPS),
    )
    .unwrap();
    let proceeds = q.collateral_out.0 + q.fee.0;
    assert_eq!(receipt.gross, MicroUsd(proceeds));
    assert_eq!(receipt.fee, q.fee);
    assert_eq!(receipt.shares, MicroShares(sold));
    assert_eq!(receipt.action, TradeAction::Sell);
    let relieved = i128::from(gross) * i128::from(sold) / i128::from(buy.shares.0);
    let relieved = i64::try_from(relieved).unwrap();
    assert_eq!(world.positions.len(), 1);
    assert_eq!(world.positions[0].shares, MicroShares(buy.shares.0 - sold));
    assert_eq!(world.positions[0].cost, MicroUsd(gross - relieved));
    assert_eq!(world.positions[0].realized_pnl, MicroUsd(q.collateral_out.0 - relieved));
    let buy_net = gross - buy_quote.fee.0;
    assert_eq!(world.cash(ESCROW), buy_net - proceeds);
    assert_eq!(world.cash(account_of(user)), 100_000_000 - gross + q.collateral_out.0);
    assert_eq!(world.cash(FEES), buy_quote.fee.0 + q.fee.0);
    assert_eq!(world.pool, q.pool_after);
    assert_eq!(world.realizations.len(), 1);
    assert_eq!(world.realizations[0].user, user);
    assert_eq!(world.realizations[0].market, MARKET);
    assert_eq!(world.realizations[0].source, RealizationSource::Sell);
    assert_eq!(world.realizations[0].realized_delta, MicroUsd(q.collateral_out.0 - relieved));
    assert_eq!(world.realizations[0].payout, q.collateral_out);
    assert_eq!(world.realizations[0].ledger_txn, receipt.ledger_txn);
}

#[test]
fn sell_beyond_position_is_rejected_without_trace() {
    let (mut world, user) = World::with_voter();
    let rep = RepConfig::default();
    let buy = world.place(rep, &buy_cmd(user, 5_000_000, "key-buy")).unwrap();
    let snapshot = world.fingerprint();
    assert_eq!(
        world.place(rep, &sell_cmd(user, buy.shares.0 + 1, "key-oversell")),
        Err(AppError::InsufficientShares)
    );
    assert_eq!(snapshot, world.fingerprint());
}

#[test]
fn sell_without_position_is_rejected() {
    let (mut world, user) = World::with_voter();
    let snapshot = world.fingerprint();
    assert_eq!(
        world.place(RepConfig::default(), &sell_cmd(user, 1_000_000, "key-naked")),
        Err(AppError::InsufficientShares)
    );
    assert_eq!(snapshot, world.fingerprint());
}

#[test]
fn unvoted_user_cannot_trade() {
    let (mut world, _) = World::with_voter();
    let stranger = UserId(10);
    world.fund(stranger, 50_000_000);
    let snapshot = world.fingerprint();
    assert_eq!(
        world.place(RepConfig::default(), &buy_cmd(stranger, 5_000_000, "key-unvoted")),
        Err(AppError::VoteRequired)
    );
    assert_eq!(snapshot, world.fingerprint());
}

#[test]
fn non_live_market_rejects_trades() {
    let (mut world, user) = World::with_voter();
    world.row.state = MarketState::Closing;
    let snapshot = world.fingerprint();
    assert_eq!(
        world.place(RepConfig::default(), &buy_cmd(user, 5_000_000, "key-closed")),
        Err(AppError::TradingFrozen)
    );
    assert_eq!(snapshot, world.fingerprint());
}

#[test]
fn settled_market_is_not_open_for_trading() {
    let (mut world, user) = World::with_voter();
    world.row.state = MarketState::Resolved;
    assert_eq!(
        world.place(RepConfig::default(), &buy_cmd(user, 5_000_000, "key-resolved")),
        Err(AppError::MarketNotOpen)
    );
    assert!(world.outbox.is_empty());
}

#[test]
fn freeze_race_stale_preview_still_rejects() {
    let (mut world, user) = World::with_voter();
    let rep = RepConfig::default();
    world.preview(rep, &preview_cmd(user, TradeAction::Buy, 5_000_000)).unwrap();
    world.now = after(t0(), 3_600);
    let snapshot = world.fingerprint();
    assert_eq!(
        world.place(rep, &buy_cmd(user, 5_000_000, "key-frozen")),
        Err(AppError::TradingFrozen)
    );
    assert_eq!(snapshot, world.fingerprint());
}

#[test]
fn insufficient_funds_leaves_no_trace() {
    let (mut world, _) = World::with_voter();
    let pauper = UserId(11);
    world.fund(pauper, 1);
    world.voters.push(pauper);
    let snapshot = world.fingerprint();
    let err = world
        .place(RepConfig::default(), &buy_cmd(pauper, 5_000_000, "key-poor"))
        .unwrap_err();
    assert!(matches!(
        err,
        AppError::Store(StoreError::Ledger(LedgerError::InsufficientFunds { .. }))
    ));
    assert_eq!(snapshot, world.fingerprint());
}

#[test]
fn agent_causal_chain_passes_through() {
    let (mut world, user) = World::with_voter();
    let mut cmd = buy_cmd(user, 5_000_000, "key-agent");
    cmd.run_id = Some(41);
    cmd.pending_action_id = Some(42);
    world.place(RepConfig::default(), &cmd).unwrap();
    assert_eq!(world.trades[0].run_id, Some(41));
    assert_eq!(world.trades[0].pending_action_id, Some(42));
}

#[test]
fn no_side_buy_updates_the_no_position() {
    let (mut world, user) = World::with_voter();
    let mut cmd = buy_cmd(user, 2_000_000, "key-no");
    cmd.side = Side::No;
    let receipt = world.place(RepConfig::default(), &cmd).unwrap();
    let q =
        quote_buy(&fixture_pool(), Side::No, MicroUsd(2_000_000), BasisPoints(FEE_BPS)).unwrap();
    assert_eq!(receipt.shares, q.shares_out);
    assert_eq!(world.positions.len(), 1);
    assert_eq!(world.positions[0].outcome, NO);
}

#[test]
fn aggregate_position_cap_counts_both_sides_and_is_inclusive() {
    let (mut world, user) = World::with_voter();
    let rep = RepConfig { position_cap_micro_by_tier: [5_000_000; 5], ..RepConfig::default() };
    world.place(rep, &buy_cmd(user, 3_000_000, "cap-yes")).unwrap();
    let mut no = buy_cmd(user, 2_000_000, "cap-no");
    no.side = Side::No;
    world.place(rep, &no).unwrap();
    let mut over = buy_cmd(user, 1, "cap-over");
    over.side = Side::No;
    assert_eq!(
        world.place(rep, &over),
        Err(AppError::PositionCapExceeded { cap_micro: 5_000_000, tier: 0 })
    );
}

#[test]
fn fee_preview_execute_and_flip_boundary_share_one_policy() {
    let (mut world, user) = World::with_voter();
    world.tier = 2;
    let rep = RepConfig {
        fee_discount_bp_by_tier: [0, 10, 40, 50, 60],
        min_fee_bps: 10,
        discount_flip_window_secs: 60,
        ..RepConfig::default()
    };
    let preview = world.preview(rep, &preview_cmd(user, TradeAction::Buy, 5_000_000)).unwrap();
    let buy = world.place(rep, &buy_cmd(user, 5_000_000, "fee-buy")).unwrap();
    assert_eq!(preview.fee, buy.fee);
    assert_eq!(preview.shares, buy.shares);
    assert_eq!(preview.avg_price_micro, buy.avg_price_micro);
    assert_eq!(preview.gross, buy.gross);
    assert_eq!(world.allocated, buy.fee.0, "a collected fee is allocated");
    let last_buy = world.now;
    world.now = after(last_buy, 59);
    let quarter = buy.shares.0 / 4;
    let recent_preview =
        world.preview(rep, &preview_cmd(user, TradeAction::Sell, quarter)).unwrap();
    let recent = world.place(rep, &sell_cmd(user, quarter, "fee-recent-sell")).unwrap();
    assert_eq!(recent_preview.fee, recent.fee);
    world.now = after(last_buy, 60);
    let late = world.place(rep, &sell_cmd(user, quarter, "fee-boundary-sell")).unwrap();
    assert!(recent.fee.0 > late.fee.0, "exact boundary earns the discount");
}

#[test]
fn trading_pause_is_423_and_replay_takes_precedence_over_it() {
    let (mut world, user) = World::with_voter();
    let rep = RepConfig::default();
    let first = world.place(rep, &buy_cmd(user, 5_000_000, "key-pre-pause")).unwrap();
    world.set_config("trading_paused", Json::Bool(true));
    let snapshot = world.fingerprint();
    assert_eq!(
        world.place(rep, &buy_cmd(user, 5_000_000, "key-during-pause")),
        Err(AppError::TradingPaused)
    );
    assert_eq!(snapshot, world.fingerprint());
    let replay = world.place(rep, &buy_cmd(user, 5_000_000, "key-pre-pause")).unwrap();
    assert!(replay.replayed);
    assert_eq!(replay.trade_id, first.trade_id);
}

#[test]
fn a_market_scoped_pause_blocks_only_that_market() {
    let (mut world, user) = World::with_voter();
    let here = format!("market_paused:{}", uuid::Uuid::from_u128(MARKET.0));
    let elsewhere = format!("market_paused:{}", uuid::Uuid::from_u128(78));
    world.set_config(&elsewhere, Json::Bool(true));
    world.place(RepConfig::default(), &buy_cmd(user, 5_000_000, "key-open")).unwrap();
    world.set_config(&here, Json::Bool(true));
    assert_eq!(
        world.place(RepConfig::default(), &buy_cmd(user, 5_000_000, "key-scoped")),
        Err(AppError::TradingPaused)
    );
}

#[test]
fn a_live_voting_pause_also_freezes_the_book() {
    let (mut world, user) = World::with_voter();
    let key = format!("voting_paused:{}", uuid::Uuid::from_u128(MARKET.0));
    world.set_config(&key, Json::Bool(true));
    assert_eq!(
        world.place(RepConfig::default(), &buy_cmd(user, 5_000_000, "key-frozen-tape")),
        Err(AppError::VotingPaused)
    );
}

#[test]
fn the_same_key_with_a_different_payload_is_a_409_conflict() {
    let (mut world, user) = World::with_voter();
    let rep = RepConfig::default();
    world.place(rep, &buy_cmd(user, 5_000_000, "key-fp")).unwrap();
    assert_eq!(
        world.place(rep, &buy_cmd(user, 6_000_000, "key-fp")),
        Err(AppError::IdempotencyConflict)
    );
    let mut versioned = buy_cmd(user, 5_000_000, "key-fp");
    versioned.expected_config_version = Some(2);
    assert_eq!(world.place(rep, &versioned), Err(AppError::IdempotencyConflict));
    assert!(world.place(rep, &buy_cmd(user, 5_000_000, "key-fp")).unwrap().replayed);
}

#[test]
fn a_replay_without_a_stored_fingerprint_still_returns_the_receipt() {
    let (mut world, user) = World::with_voter();
    let rep = RepConfig::default();
    world.place(rep, &buy_cmd(user, 5_000_000, "key-old")).unwrap();
    world.committed.get_mut("key-old").unwrap().1 = None;
    assert!(world.place(rep, &buy_cmd(user, 6_000_000, "key-old")).unwrap().replayed);
}

fn caps(first: i64) -> Json {
    Json::Array(
        [first, 50_000_000, 100_000_000, 250_000_000, 500_000_000].map(Json::Int).into(),
    )
}

#[test]
fn relevant_config_drift_since_the_preview_is_a_409_and_replay_precedes_it() {
    let (mut world, user) = World::with_voter();
    let rep = RepConfig::default();
    let receipt = world.place(rep, &buy_cmd(user, 5_000_000, "key-pre-drift")).unwrap();
    world.set_config("position_cap_micro_by_tier", caps(30_000_000));
    assert_eq!(
        world.place(rep, &buy_cmd(user, 5_000_000, "key-stale")),
        Err(AppError::StaleConfig { preview_generation: 1, current_generation: 2 })
    );
    let replay = world.place(rep, &buy_cmd(user, 5_000_000, "key-pre-drift")).unwrap();
    assert!(replay.replayed);
    assert_eq!(replay.trade_id, receipt.trade_id);
    let mut fresh = buy_cmd(user, 1_000_000, "key-fresh");
    fresh.expected_config_version = Some(2);
    world.place(rep, &fresh).unwrap();
}

#[test]
fn flip_window_churn_does_not_409_a_non_flip_buy() {
    let (mut world, user) = World::with_voter();
    world.set_config("discount_flip_window_secs", Json::Int(7_200));
    world.place(RepConfig::default(), &buy_cmd(user, 5_000_000, "key-churn")).unwrap();
}

#[test]
fn a_preview_older_than_the_watermark_is_conservatively_stale() {
    let (mut world, user) = World::with_voter();
    world.set_config("sweep_delay_secs", Json::Int(240));
    world.set_config("sweep_delay_secs", Json::Int(300));
    world.watermark = 3;
    assert_eq!(
        world.place(RepConfig::default(), &buy_cmd(user, 5_000_000, "key-ancient")),
        Err(AppError::StaleConfig { preview_generation: 1, current_generation: 3 })
    );
}

#[test]
fn preview_buy_matches_domain_quote_and_writes_nothing() {
    let (world, user) = World::with_voter();
    let before = world.fingerprint();
    let p = world
        .preview(RepConfig::default(), &preview_cmd(user, TradeAction::Buy, 5_000_000))
        .unwrap();
    let q =
        quote_buy(&fixture_pool(), Side::Yes, MicroUsd(5_000_000), BasisPoints(100)).unwrap();
    assert_eq!(p.market, MARKET);
    assert_eq!(p.shares, q.shares_out);
    assert_eq!(p.gross, MicroUsd(5_000_000));
    assert_eq!(p.fee, q.fee);
    assert_eq!(p.avg_price_micro, q.avg_price_micro_per_share);
    assert_eq!(before, world.fingerprint());
}

#[test]
fn preview_sell_matches_domain_quote() {
    let (world, user) = World::with_voter();
    let p = world
        .preview(RepConfig::default(), &preview_cmd(user, TradeAction::Sell, 3_000_000))
        .unwrap();
    let q =
        quote_sell(&fixture_pool(), Side::Yes, MicroShares(3_000_000), BasisPoints(100)).unwrap();
    let gross = q.collateral_out.0 + q.fee.0;
    assert_eq!(p.shares, MicroShares(3_000_000));
    assert_eq!(p.gross, MicroUsd(gross));
    assert_eq!(p.fee, q.fee);
    assert_eq!(
        p.avg_price_micro,
        avg_price_micro(MicroUsd(gross), MicroShares(3_000_000)).unwrap()
    );
}

#[test]
fn preview_stamps_the_config_generation_from_the_lock_free_port() {
    let (mut world, user) = World::with_voter();
    world.generation = 7;
    let p = world
        .preview(RepConfig::default(), &preview_cmd(user, TradeAction::Buy, 5_000_000))
        .unwrap();
    assert_eq!(p.config_version, 7);
}

#[test]
fn the_generation_is_read_before_the_market() {
    let desk = PreviewTrade { rep_config: RepConfig::default() };
    let step = desk.execute(&preview_cmd(UserId(9), TradeAction::Buy, 1), &PreviewFacts::new());
    assert_eq!(step, PreviewStep::Need(PreviewNeed::CurrentGeneration));
}

#[test]
fn malformed_fee_override_fails_preview_closed() {
    let (mut world, user) = World::with_voter();
    world.config.insert(override_key(MARKET), Json::Int(99));
    assert_eq!(
        world.preview(RepConfig::default(), &preview_cmd(user, TradeAction::Buy, 5_000_000)),
        Err(AppError::Store(StoreError::Invariant("invalid fee override")))
    );
}

#[test]
fn a_live_voting_pause_blocks_previews_until_the_hidden_window() {
    let (mut world, user) = World::with_voter();
    let key = format!("voting_paused:{}", uuid::Uuid::from_u128(MARKET.0));
    world.set_config(&key, Json::Bool(true));
    let cmd = preview_cmd(user, TradeAction::Buy, 5_000_000);
    assert_eq!(world.preview(RepConfig::default(), &cmd), Err(AppError::VotingPaused));
    world.now = after(t0(), 3_600);
    assert!(world.preview(RepConfig::default(), &cmd).is_ok());
}

#[test]
fn average_price_rejects_non_positive_share_counts() {
    assert_eq!(
        avg_price_micro(MicroUsd(1), MicroShares(0)),
        Err(AppError::Overflow)
    );
    assert_eq!(
        avg_price_micro(MicroUsd(1), MicroShares(-1)),
        Err(AppError::Overflow)
    );
}

#[test]
fn average_price_is_rounded_down_for_every_sign() {
    let three = MicroShares(3_000_000);
    assert_eq!(avg_price_micro(MicroUsd(1), three), Ok(0));
    assert_eq!(avg_price_micro(MicroUsd(5), three), Ok(1));
    assert_eq!(avg_price_micro(MicroUsd(6), three), Ok(2));
    assert_eq!(avg_price_micro(MicroUsd(-1), three), Ok(-1));
    assert_eq!(avg_price_micro(MicroUsd(-6), three), Ok(-2));
    assert_eq!(avg_price_micro(MicroUsd(i64::MIN), MicroShares(1)), Err(AppError::Overflow));
}

fn seed_cmd(seed: i64, fee: u16, force: bool) -> SeedMarketCmd {
    SeedMarketCmd {
        market_id: MARKET,
        slug: "seeded".to_string(),
        min_votes_to_resolve: 3,
        closes_at: after(t0(), 7_200),
        tally_hidden_at: after(t0(), 3_600),
        fee: BasisPoints(fee),
        seed: MicroUsd(seed),
        idempotency_key: "seed-1".to_string(),
        force,
    }
}

fn no_seed_facts() -> SeedFacts {
    SeedFacts { key_serialized: false, seeded: None, kill_switch_locked: false, lp_pnl: None }
}

fn run_seed(
    desk: &SeedMarket,
    cmd: &SeedMarketCmd,
    existing: Option<MarketId>,
    pnl: i64,
) -> SeedStep {
    let mut facts = no_seed_facts();
    loop {
        match desk.execute(cmd, &facts) {
            SeedStep::Need(SeedNeed::SerializeKey) => facts.key_serialized = true,
            SeedStep::Need(SeedNeed::SeededMarketByKey) => facts.seeded = Some(existing),
            SeedStep::Need(SeedNeed::LockLpKillSwitch) => facts.kill_switch_locked = true,
            SeedStep::Need(SeedNeed::LpPnlSum { window_days }) => {
                assert_eq!(window_days, desk.lp_kill_config.window_days);
                facts.lp_pnl = Some(MicroUsd(pnl));
            }
            done => return done,
        }
    }
}

fn seed_desk() -> SeedMarket {
    SeedMarket {
        rep_config: RepConfig { min_fee_bps: 10, ..RepConfig::default() },
        lp_kill_config: LpKillConfig { max_loss_micro: 1_000, window_days: 7 },
    }
}

#[test]
fn seed_creates_scheduled_market_with_pool_escrow_and_event() {
    let cmd = seed_cmd(100_000_000, 100, false);
    assert_eq!(
        run_seed(&seed_desk(), &cmd, None, 0),
        SeedStep::Create { breaker_overridden: false }
    );
    let mut world = World::new();
    world
        .post(
            TxnKind::Deposit,
            vec![
                Entry { account: EXTERNAL, amount: MicroUsd(-500_000_000) },
                Entry { account: HOUSE, amount: MicroUsd(500_000_000) },
            ],
        )
        .unwrap();
    world.post(TxnKind::Seed, cmd.entries(HOUSE, ESCROW)).unwrap();
    assert_eq!(world.cash(HOUSE), 400_000_000);
    assert_eq!(world.cash(ESCROW), 100_000_000);
    let pool = cmd.minted_pool().unwrap();
    assert_eq!(
        pool,
        Pool::new(MicroShares(100_000_000), MicroShares(100_000_000), BasisPoints(100)).unwrap()
    );
    assert_eq!(cmd.seeded_state(), Ok(MarketState::Scheduled));
    let event = cmd.seeded_event(MARKET);
    assert_eq!(event.event_type, "MarketSeeded");
    assert_eq!(event.aggregate_id, MARKET.0);
    assert_eq!(
        event.payload,
        Json::Object(vec![
            ("slug".to_string(), Json::Text("seeded".to_string())),
            ("seed_micro".to_string(), Json::Int(100_000_000)),
            ("fee_bps".to_string(), Json::Int(100)),
        ])
    );
}

#[test]
fn seed_replay_echoes_the_market_and_writes_nothing() {
    let step = run_seed(&seed_desk(), &seed_cmd(100_000_000, 100, false), Some(MARKET), 0);
    match step {
        SeedStep::Replay(receipt) => {
            assert_eq!(receipt.market, MARKET);
            assert!(receipt.replayed);
        }
        other => panic!("{other:?}"),
    }
}

#[test]
fn seeding_an_uncapitalized_house_fails_without_trace() {
    let mut world = World::new();
    let before = world.fingerprint();
    let failed = world
        .post(TxnKind::Seed, seed_cmd(100_000_000, 100, false).entries(HOUSE, ESCROW))
        .unwrap_err();
    match failed {
        AppError::Store(e) => assert_eq!(map_seed_ledger_error(e), AppError::InsufficientFunds),
        other => panic!("{other:?}"),
    }
    assert_eq!(before, world.fingerprint());
}

#[test]
fn zero_seed_is_rejected() {
    assert_eq!(
        seed_desk().execute(&seed_cmd(0, 100, false), &no_seed_facts()),
        SeedStep::Refuse(AppError::Amm(AmmError::EmptyPool))
    );
}

#[test]
fn seeded_base_fee_must_meet_the_configured_floor() {
    assert_eq!(
        seed_desk().execute(&seed_cmd(1, 9, false), &no_seed_facts()),
        SeedStep::Refuse(AppError::SeedFeeBelowMinimum { base_bps: 9, min_bps: 10 })
    );
    assert_eq!(
        seed_desk().execute(&seed_cmd(1, 10, false), &no_seed_facts()),
        SeedStep::Need(SeedNeed::SerializeKey)
    );
}

#[test]
fn lp_breaker_is_inclusive_race_safe_and_force_is_audited() {
    let desk = seed_desk();
    let plain = seed_cmd(1_000_000, 100, false);
    assert_eq!(run_seed(&desk, &plain, None, -1_000), SeedStep::Refuse(AppError::LpPaused));
    assert_eq!(
        run_seed(&desk, &plain, None, -999),
        SeedStep::Create { breaker_overridden: false }
    );
    let forced = seed_cmd(1_000_000, 100, true);
    assert_eq!(
        run_seed(&desk, &forced, None, -1_000),
        SeedStep::Create { breaker_overridden: true }
    );
    let event = forced.override_event(MicroUsd(-1_000), &desk.lp_kill_config);
    assert_eq!(event.event_type, "LpKillOverride");
    assert_eq!(
        event.payload,
        Json::Object(vec![
            ("lp_pnl_micro".to_string(), Json::Int(-1_000)),
            ("max_loss_micro".to_string(), Json::Int(1_000)),
            ("window_days".to_string(), Json::Int(7)),
            ("seed_time_only".to_string(), Json::Bool(true)),
        ])
    );
    assert_eq!(
        forced.window_start(t0(), &desk.lp_kill_config),
        Timestamp::from_secs(START - 7 * 86_400)
    );
}

#[test]
fn non_balance_seed_failures_remain_store_errors() {
    let error = StoreError::Backend("offline".to_string());
    assert_eq!(
        map_seed_ledger_error(error),
        AppError::Store(StoreError::Backend("offline".to_string()))
    );
}
