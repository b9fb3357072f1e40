//! Repair work: unwinding a market, remedial credits, replayed jobs and the chain
//! reconciliation, over a small ledger in memory.

use opinions::clock::{Timestamp, MAX_UNIX_SECS};
use opinions::error::{AppError, StoreError};
use opinions::json::Json;
use opinions::ledger::{AccountId, Entry, TxnKind};
use opinions::market::MarketState;
use opinions::model::{
    AdminAction, AdminContext, AdminRole, Event, LedgerTxnId, MarketId, MarketUnwind, OutcomeId,
    OwnerRef, PositionRow, ProposalStatus, RealizationSource, ReceivableMovementKind,
    UnwindStage, UserId,
};
use opinions::money::{MicroShares, MicroUsd};
use opinions::ops::audit::{principal_digest, OpsError, OpsPolicy};
use opinions::ops::chain_reconcile::{
    example_cut, exposure_micro, pages_at_one_micro, residual_incident, signed_residual,
    ReconExample,
};
use opinions::ops::refanout::authorize_refanout;
use opinions::ops::remedial_credit::{
    credit_entries, credit_key, linked_to_principal, normalize_handle_result, CreditFacts,
    CreditNeed, CreditStep, RemedialCredit, RemedialCreditCmd, RemedialCreditProposal,
    ADMIN_CHANNEL,
};
use opinions::ops::replay_job::{
    authorize, authorize_lock, deliver, failed_command, lease_until, settle_delivery, JobFacts,
    JobNeed, JobStep, OpsJobCmd, OpsJobCommand, OpsJobStatus, KIND_REFANOUT, KIND_REPLAY_JOB,
};
use opinions::ops::reversal::{
    house_shortfall_micro, negate, plan_reversal, shortfall_total, LedgerEntryFacts,
    LedgerTxnFacts, NetRow, ReversalStep,
};
use opinions::ops::unwind_market::{
    apply_lock, check_unwindable, open_receivable, propose_lock, unwind_key, unwind_ledger_key,
    unwind_realization, zeroed, UnwindCmd, UnwindFacts, UnwindMarket, UnwindNeed, UnwindStep,
};
use opinions::ops::unwind_writes::{AppliedFacts, UnwindWrite};
use std::collections::BTreeMap;

const MARKET: MarketId = MarketId(77);
const ALICE: UserId = UserId(1);
const BOB: UserId = UserId(2);
const HOUSE: AccountId = AccountId(10);
const FEES: AccountId = AccountId(11);
const ESCROW: AccountId = AccountId(12);
const POOL: AccountId = AccountId(13);
const EXTERNAL: AccountId = AccountId(14);

fn t0() -> Timestamp {
    Timestamp::from_secs(1_700_000_000)
}

fn superadmin() -> AdminContext {
    AdminContext::Admin {
        token_digest: "digest-superadmin".to_string(),
        role: AdminRole::Superadmin,
    }
}

fn finance() -> AdminContext {
    AdminContext::Admin {
        token_digest: "digest-finance".to_string(),
        role: AdminRole::Finance,
    }
}

fn cash_of(user: UserId) -> AccountId {
    AccountId(100 + user.0)
}

fn owner_of(account: AccountId) -> OwnerRef {
    match account {
        HOUSE => OwnerRef::House,
        FEES => OwnerRef::Fees,
        ESCROW => OwnerRef::MarketEscrow(MARKET),
        POOL => OwnerRef::MarketPool(MARKET),
        EXTERNAL => OwnerRef::External,
        AccountId(n) => OwnerRef::User(UserId(n - 100)),
    }
}

struct World {
    now: Timestamp,
    state: MarketState,
    flagged: bool,
    balances: BTreeMap<u128, i64>,
    txns: Vec<LedgerTxnFacts>,
    resolution_paid: bool,
    outstanding: i64,
    unwind: Option<MarketUnwind>,
    receivables: Vec<(UserId, i64)>,
    positions: Vec<PositionRow>,
    reversed: Vec<(LedgerTxnId, LedgerTxnId)>,
    realized: Vec<i64>,
    lp_result: Option<i64>,
    held: bool,
    fees_reversed: bool,
    audits: Vec<AdminAction>,
    outbox: Vec<Event>,
    policy: OpsPolicy,
    next_txn: u128,
}

impl World {
    /// A voided market, before anybody traded.
    fn voided() -> World {
        let mut world = World {
            now: t0(),
            state: MarketState::Voided,
            flagged: false,
            balances: BTreeMap::new(),
            txns: Vec::new(),
            resolution_paid: false,
            outstanding: 0,
            unwind: None,
            receivables: Vec::new(),
            positions: Vec::new(),
            reversed: Vec::new(),
            realized: Vec::new(),
            lp_result: None,
            held: true,
            fees_reversed: false,
            audits: Vec::new(),
            outbox: Vec::new(),
            policy: OpsPolicy::default(),
            next_txn: 500,
        };
        world.post(TxnKind::Deposit, &[(EXTERNAL, -1_000_000_000), (HOUSE, 1_000_000_000)]);
        for user in [ALICE, BOB] {
            world.post(
                TxnKind::Deposit,
                &[(EXTERNAL, -100_000_000), (cash_of(user), 100_000_000)],
            );
        }
        world
    }

    fn post(&mut self, kind: TxnKind, legs: &[(AccountId, i64)]) -> LedgerTxnId {
        assert_eq!(legs.iter().map(|l| l.1).sum::<i64>(), 0);
        for (account, amount) in legs {
            *self.balances.entry(account.0).or_insert(0) += amount;
        }
        self.next_txn += 1;
        let txn = LedgerTxnId(self.next_txn);
        if legs.iter().any(|l| l.0 == ESCROW || l.0 == POOL) {
            self.txns.push(LedgerTxnFacts {
                txn,
                kind,
                entries: legs
                    .iter()
                    .map(|(account, amount)| LedgerEntryFacts {
                        account: *account,
                        owner: owner_of(*account),
                        amount_micro: *amount,
                    })
                    .collect(),
            });
        }
        txn
    }

    fn balance(&self, account: AccountId) -> i64 {
        self.balances.get(&account.0).copied().unwrap_or(0)
    }

    fn buy(&mut self, user: UserId, gross: i64) {
        let fee = gross / 100;
        self.post(
            TxnKind::Trade,
            &[(cash_of(user), -gross), (ESCROW, gross - fee), (FEES, fee)],
        );
    }

    fn uc(&self, actor: AdminContext) -> UnwindMarket {
        UnwindMarket { policy: self.policy, actor }
    }

    fn facts_for(&self, need: UnwindNeed, facts: &mut UnwindFacts) {
        match need {
            UnwindNeed::SerializeKey => facts.key_serialized = true,
            UnwindNeed::MarketForUpdate => facts.market = Some((self.state, self.flagged)),
            UnwindNeed::UnwindForUpdate => facts.unwind = Some(self.unwind.clone()),
            UnwindNeed::Now => facts.now = Some(self.now),
            UnwindNeed::ResolutionTxn => facts.resolution_paid = Some(self.resolution_paid),
            UnwindNeed::OpenReceivablesTotal => facts.outstanding = Some(self.outstanding),
            UnwindNeed::MarketLedgerTxns => facts.originals = Some(self.txns.clone()),
            UnwindNeed::HouseAccount => facts.house = Some(HOUSE),
            UnwindNeed::Balance(account) => {
                facts.cash.push((account, self.balance(account)));
            }
        }
    }

    fn run(
        &mut self,
        actor: AdminContext,
        cmd: &UnwindCmd,
        what: fn(&UnwindMarket, &UnwindCmd, &UnwindFacts) -> UnwindStep,
    ) -> Result<MarketUnwind, OpsError> {
        let uc = self.uc(actor.clone());
        let mut facts = UnwindFacts::new();
        loop {
            match what(&uc, cmd, &facts) {
                UnwindStep::Need(need) => self.facts_for(need, &mut facts),
                UnwindStep::Refuse(e) => return Err(e),
                UnwindStep::Replay => return Ok(self.unwind.clone().unwrap()),
                UnwindStep::Propose(unwind, audit) | UnwindStep::Reject(unwind, audit) => {
                    self.audits.push(audit);
                    self.unwind = Some(unwind.clone());
                    return Ok(unwind);
                }
                UnwindStep::Expire(unwind, audit, e) => {
                    self.audits.push(audit);
                    self.unwind = Some(unwind);
                    return Err(e);
                }
                UnwindStep::Apply(plan) => {
                    let reversal = plan.posting(MARKET).map(|p| {
                        assert_eq!(p.key, unwind_ledger_key(MARKET));
                        let legs: Vec<(AccountId, i64)> =
                            p.entries.iter().map(|e| (e.account, e.amount.0)).collect();
                        self.post(p.kind, &legs)
                    });
                    let ids = (0..plan.shortfalls.len() as u128).map(|n| (n, 100 + n)).collect();
                    let applied = AppliedFacts {
                        unwind: facts.unwind.unwrap().unwrap(),
                        state: self.state,
                        now: self.now,
                        originals: facts.originals.unwrap(),
                        plan,
                        reversal,
                        positions: self.positions.clone(),
                        ids,
                    };
                    for write in uc.writes(cmd, &applied) {
                        self.write(write);
                    }
                    return Ok(self.unwind.clone().unwrap());
                }
            }
        }
    }

    fn write(&mut self, write: UnwindWrite) {
        match write {
            UnwindWrite::RecordReversal { reversed, reversal } => {
                self.reversed.push((reversed, reversal));
            }
            UnwindWrite::OpenReceivable(receivable, movement) => {
                assert_eq!(receivable.opened_micro, movement.amount_micro);
                assert_eq!(receivable.id, movement.receivable);
                self.receivables.push((receivable.user, receivable.opened_micro));
            }
            UnwindWrite::Realization(fact) => self.realized.push(fact.realized_delta.0),
            UnwindWrite::SavePosition(position) => {
                let at = self
                    .positions
                    .iter()
                    .position(|p| p.user == position.user && p.outcome == position.outcome)
                    .unwrap();
                self.positions[at] = position;
            }
            UnwindWrite::SetLpResult(result) => self.lp_result = Some(result.0),
            UnwindWrite::CancelHold => self.held = false,
            UnwindWrite::ClearCuratorFlag => self.flagged = false,
            UnwindWrite::SetMarketState(state) => self.state = state,
            UnwindWrite::ReverseFeeAllocations => self.fees_reversed = true,
            UnwindWrite::SaveUnwind(unwind) => self.unwind = Some(unwind),
            UnwindWrite::Announce(event) => self.outbox.push(event),
            UnwindWrite::Audit(row) => self.audits.push(row),
        }
    }

    fn propose(&mut self, actor: AdminContext, key: &str) -> Result<MarketUnwind, OpsError> {
        self.run(actor, &unwind_cmd(key), UnwindMarket::propose)
    }

    fn confirm(&mut self, actor: AdminContext, key: &str) -> Result<MarketUnwind, OpsError> {
        self.run(actor, &unwind_cmd(key), UnwindMarket::confirm)
    }

    fn reject(&mut self, actor: AdminContext, key: &str) -> Result<MarketUnwind, OpsError> {
        self.run(actor, &unwind_cmd(key), UnwindMarket::reject)
    }
}

fn unwind_cmd(key: &str) -> UnwindCmd {
    UnwindCmd {
        market: MARKET,
        reason: "fraud decision was wrong".to_string(),
        idempotency_key: key.to_string(),
    }
}

fn conflict(why: &'static str) -> OpsError {
    OpsError::App(AppError::ProposalConflict(why))
}

#[test]
fn voided_unwind_restores_cash_exactly_and_reverses_the_neutral_payout() {
    let mut world = World::voided();
    world.post(TxnKind::Seed, &[(HOUSE, -100_000_000), (POOL, 100_000_000)]);
    world.buy(ALICE, 30_000_000);
    world.buy(BOB, 20_000_000);
    // The void drained the escrow into neutral payouts, dust to the house.
    world.post(
        TxnKind::Payout,
        &[
            (ESCROW, -49_500_000),
            (cash_of(ALICE), 28_000_000),
            (cash_of(BOB), 21_499_999),
            (HOUSE, 1),
        ],
    );
    world.post(TxnKind::Payout, &[(POOL, -100_000_000), (HOUSE, 100_000_000)]);
    assert_eq!(world.balance(ESCROW), 0, "void drained escrow");

    let proposed = world.propose(superadmin(), "k1").unwrap();
    assert_eq!(proposed.stage, UnwindStage::Proposed);
    world.now = t0().plus_secs(61);
    assert_eq!(
        world.confirm(superadmin(), "k1").unwrap_err(),
        conflict("confirm requires a distinct principal")
    );
    let applied = world.confirm(finance(), "k1").unwrap();
    assert_eq!(applied.stage, UnwindStage::Applied);
    let reversal = applied.reversal_txn.unwrap();
    assert_eq!(world.balance(cash_of(ALICE)), 100_000_000);
    assert_eq!(world.balance(cash_of(BOB)), 100_000_000);
    assert_eq!(world.balance(FEES), 0);
    assert_eq!(world.balance(ESCROW), 0);
    assert_eq!(world.balance(HOUSE), 1_000_000_000);
    assert!(world.receivables.is_empty());
    let replay = world.confirm(finance(), "k1").unwrap();
    assert_eq!(replay.reversal_txn, Some(reversal));
    assert_eq!(world.outbox.len(), 1);
    assert_eq!(world.outbox[0].event_type, "MarketUnwound");
    let actions: Vec<&str> = world.audits.iter().map(|a| a.action.as_str()).collect();
    assert_eq!(actions, vec!["unwind_propose", "unwind_confirm"]);
}

#[test]
fn a_shortfall_is_carried_by_the_house_and_recorded() {
    let mut world = World::voided();
    world.post(TxnKind::Seed, &[(HOUSE, -100_000_000), (POOL, 100_000_000)]);
    world.buy(ALICE, 60_000_000);
    // The payout made Bob rich; he then moved nearly everything elsewhere.
    world.post(TxnKind::Payout, &[(ESCROW, -59_400_000), (cash_of(BOB), 59_400_000)]);
    world.post(TxnKind::Trade, &[(cash_of(BOB), -158_400_000), (EXTERNAL, 158_400_000)]);
    assert_eq!(world.balance(cash_of(BOB)), 1_000_000);
    let house_before = world.balance(HOUSE);
    world.propose(superadmin(), "k1").unwrap();
    world.now = t0().plus_secs(61);
    world.confirm(finance(), "k1").unwrap();
    assert_eq!(world.balance(cash_of(BOB)), 0, "cash never goes negative");
    assert_eq!(world.receivables, vec![(BOB, 58_400_000)]);
    assert_eq!(world.balance(cash_of(ALICE)), 100_000_000, "Alice is whole");
    assert_eq!(world.balance(HOUSE), house_before + 100_000_000 - 58_400_000);
}

#[test]
fn everything_that_rides_with_an_unwind_is_written() {
    let position = |user: UserId, pnl: i64| PositionRow {
        user,
        outcome: OutcomeId(5),
        shares: MicroShares(7),
        cost: MicroUsd(3),
        realized_pnl: MicroUsd(pnl),
    };
    let mut world = World::voided();
    world.state = MarketState::Resolving;
    world.flagged = true;
    world.buy(ALICE, 10_000_000);
    world.buy(BOB, 20_000_000);
    world.positions = vec![position(ALICE, 9), position(BOB, 0)];
    let originals: Vec<LedgerTxnId> = world.txns.iter().map(|t| t.txn).collect();
    world.propose(superadmin(), "k1").unwrap();
    world.now = t0().plus_secs(61);
    let applied = world.confirm(finance(), "k1").unwrap();
    let reversal = applied.reversal_txn.unwrap();
    let recorded: Vec<(LedgerTxnId, LedgerTxnId)> =
        originals.into_iter().map(|txn| (txn, reversal)).collect();
    assert_eq!(world.reversed, recorded);
    assert_eq!(world.realized, vec![-9], "nothing realized, nothing compensated");
    assert!(world
        .positions
        .iter()
        .all(|p| p.shares.0 == 0 && p.cost.0 == 0 && p.realized_pnl.0 == 0));
    assert_eq!(world.lp_result, Some(0));
    assert!(!world.held && !world.flagged && world.fees_reversed);
    assert_eq!(world.state, MarketState::Voided);

    // Without anything to reverse nothing is posted and nothing is compensated.
    let mut empty = World::voided();
    empty.positions = vec![position(ALICE, 9)];
    empty.propose(superadmin(), "k1").unwrap();
    empty.now = t0().plus_secs(61);
    assert_eq!(empty.confirm(finance(), "k1").unwrap().reversal_txn, None);
    assert!(empty.realized.is_empty() && empty.reversed.is_empty());
    assert_eq!(empty.positions[0].shares.0, 0);
    assert_eq!(empty.state, MarketState::Voided);

    // Trades that cancel out leave nothing to post; they are still recorded.
    let mut flat = World::voided();
    flat.post(TxnKind::Trade, &[(cash_of(ALICE), -5), (ESCROW, 5)]);
    flat.post(TxnKind::Payout, &[(ESCROW, -5), (cash_of(ALICE), 5)]);
    flat.propose(superadmin(), "k1").unwrap();
    flat.now = t0().plus_secs(61);
    assert_eq!(flat.confirm(finance(), "k1").unwrap().reversal_txn, None);
    assert!(flat.reversed.len() == 2 && flat.reversed.iter().all(|r| r.1 == LedgerTxnId(0)));
}

#[test]
fn confirming_asks_for_no_room_after_the_present() {
    let last = Timestamp::from_secs(MAX_UNIX_SECS);
    let mut world = World::voided();
    world.now = last.plus_secs(-1_000);
    world.propose(superadmin(), "k1").unwrap();
    world.now = last.plus_secs(-100);
    world.confirm(finance(), "k1").unwrap();
}

#[test]
fn a_shortfall_may_not_take_the_receivables_past_their_cap() {
    let mut world = World::voided();
    world.buy(ALICE, 60_000_000);
    world.post(TxnKind::Payout, &[(ESCROW, -59_400_000), (cash_of(BOB), 59_400_000)]);
    world.post(TxnKind::Trade, &[(cash_of(BOB), -158_400_000), (EXTERNAL, 158_400_000)]);
    world.propose(superadmin(), "k1").unwrap();
    world.now = t0().plus_secs(61);
    world.outstanding = 1_000_000;
    world.policy.receivable_outstanding_cap_micro = 59_399_999;
    assert_eq!(
        world.confirm(finance(), "k1").unwrap_err(),
        OpsError::OverCap { cap_micro: 59_399_999 }
    );
    assert!(world.receivables.is_empty());
    world.policy.receivable_outstanding_cap_micro = 59_400_000;
    world.confirm(finance(), "k1").unwrap();
    assert_eq!(world.receivables, vec![(BOB, 58_400_000)]);
}

#[test]
fn paid_markets_refuse_unwind_and_delay_expiry_gates_hold() {
    let mut world = World::voided();
    world.state = MarketState::Paid;
    assert_eq!(
        world.propose(superadmin(), "k1").unwrap_err(),
        OpsError::App(AppError::IllegalTransition)
    );
}

#[test]
fn dual_control_delay_and_ttl_are_enforced() {
    let mut world = World::voided();
    world.buy(ALICE, 10_000_000);
    let first = world.propose(superadmin(), "k1").unwrap();
    let replay = world.propose(superadmin(), "k1").unwrap();
    assert_eq!(first, replay);
    assert_eq!(
        world.confirm(finance(), "k1").unwrap_err(),
        conflict("dual-control delay has not elapsed")
    );
    let rejected = world.reject(finance(), "k1").unwrap();
    assert_eq!(rejected.stage, UnwindStage::Rejected);
    assert_eq!(world.confirm(finance(), "k1").unwrap_err(), conflict("unwind is not pending"));
    assert_eq!(world.reject(finance(), "k1").unwrap_err(), conflict("unwind is not pending"));
    assert_eq!(
        world.propose(superadmin(), "k2").unwrap_err(),
        conflict("unwind already exists for this market")
    );
}

#[test]
fn machine_actors_hold_no_dual_control_authority() {
    let mut world = World::voided();
    assert_eq!(
        world.propose(AdminContext::Machine, "k").unwrap_err(),
        conflict("machine actor")
    );
}

#[test]
fn legality_and_shortfall_helpers_cover_the_full_vocabulary() {
    assert!(check_unwindable(MarketState::Voided, false).is_ok());
    assert!(check_unwindable(MarketState::Resolving, true).is_ok());
    assert_eq!(
        check_unwindable(MarketState::Paid, true),
        Err(OpsError::App(AppError::IllegalTransition))
    );
    let account = AccountId(5);
    assert_eq!(
        house_shortfall_micro(&[
            LedgerEntryFacts { account, owner: OwnerRef::House, amount_micro: -7 },
            LedgerEntryFacts { account, owner: OwnerRef::House, amount_micro: 3 },
            LedgerEntryFacts { account, owner: OwnerRef::External, amount_micro: -100 },
        ]),
        7
    );
    let position = PositionRow {
        user: UserId(8),
        outcome: OutcomeId(9),
        shares: MicroShares(0),
        cost: MicroUsd(0),
        realized_pnl: MicroUsd(5),
    };
    assert_eq!(unwind_realization(&position, MarketId(3), None, t0()), None);
    assert_eq!(
        unwind_realization(
            &PositionRow { realized_pnl: MicroUsd(0), ..position },
            MarketId(3),
            Some(LedgerTxnId(4)),
            t0()
        ),
        None
    );
    let fact = unwind_realization(&position, MarketId(3), Some(LedgerTxnId(4)), t0()).unwrap();
    assert_eq!(fact.realized_delta, MicroUsd(-5));
    assert_eq!(fact.ledger_txn, LedgerTxnId(4));
    assert_eq!(fact.source, RealizationSource::Void);
    let flat = zeroed(&PositionRow { shares: MicroShares(4), cost: MicroUsd(6), ..position });
    assert_eq!(flat.shares, MicroShares(0));
    assert_eq!(flat.cost, MicroUsd(0));
    assert_eq!(flat.realized_pnl, MicroUsd(0));
}

#[test]
fn unwind_rejects_a_shortfall_total_larger_than_i64() {
    let first = UserId(1);
    let second = UserId(2);
    assert!(matches!(
        shortfall_total(&[(first, i64::MAX), (second, 1)]),
        Err(AppError::Overflow)
    ));
}

#[test]
fn expiry_and_receivable_cap_settle_without_a_reversal() {
    let mut world = World::voided();
    world.propose(superadmin(), "expire").unwrap();
    world.now = t0().plus_secs(61 + 901);
    assert_eq!(
        world.confirm(finance(), "expire").unwrap_err(),
        conflict("unwind expired")
    );
    assert_eq!(world.unwind.as_ref().unwrap().stage, UnwindStage::Expired);

    let mut empty = World::voided();
    empty.propose(superadmin(), "empty").unwrap();
    empty.now = t0().plus_secs(61);
    assert_eq!(empty.confirm(finance(), "empty").unwrap().reversal_txn, None);

    let mut capped = World::voided();
    capped.propose(superadmin(), "cap").unwrap();
    capped.now = t0().plus_secs(61);
    capped.policy.receivable_outstanding_cap_micro = 0;
    assert_eq!(
        capped.confirm(finance(), "cap").unwrap_err(),
        OpsError::OverCap { cap_micro: 0 }
    );
}

#[test]
fn resolving_with_a_paid_resolution_key_cannot_unwind() {
    let mut world = World::voided();
    world.state = MarketState::Resolving;
    world.flagged = true;
    world.resolution_paid = true;
    world.propose(superadmin(), "resolving").unwrap();
    world.now = t0().plus_secs(61);
    assert_eq!(
        world.confirm(finance(), "resolving").unwrap_err(),
        OpsError::App(AppError::IllegalTransition)
    );
}

#[test]
fn flagged_resolving_without_payout_transitions_to_voided() {
    let mut world = World::voided();
    world.state = MarketState::Resolving;
    world.flagged = true;
    world.propose(superadmin(), "unpaid").unwrap();
    world.now = t0().plus_secs(61);
    world.confirm(finance(), "unpaid").unwrap();
    assert_eq!(world.state, MarketState::Voided);
}

#[test]
fn an_existing_market_reversal_blocks_a_second_reversal_lineage() {
    let mut world = World::voided();
    world.propose(superadmin(), "already-reversed").unwrap();
    world.post(TxnKind::Reversal, &[(POOL, 1), (HOUSE, -1)]);
    world.now = t0().plus_secs(61);
    assert_eq!(
        world.confirm(finance(), "already-reversed").unwrap_err(),
        conflict("market already carries a reversal")
    );
}

#[test]
fn the_unwind_keys_name_the_market() {
    let id = uuid::Uuid::from_u128(MARKET.0).to_string();
    for key in [
        unwind_ledger_key(MARKET),
        unwind_key(MARKET, "client"),
        propose_lock(MARKET),
        apply_lock(MARKET),
    ] {
        assert!(key.contains(&id), "{key}");
    }
    assert_ne!(unwind_key(MARKET, "a"), unwind_key(MARKET, "b"));
    assert_ne!(propose_lock(MARKET), apply_lock(MARKET));
}

#[test]
fn a_receivable_opens_with_its_movement() {
    let (receivable, movement) =
        open_receivable(31, 32, MARKET, BOB, 700, LedgerTxnId(9), "digest");
    assert_eq!(receivable.opened_micro, 700);
    assert_eq!(receivable.user, BOB);
    assert_eq!(receivable.origin_reversal_txn, LedgerTxnId(9));
    assert_eq!(movement.receivable, 31);
    assert_eq!(movement.amount_micro, 700);
    assert_eq!(movement.kind, ReceivableMovementKind::Opened);
    assert_eq!(movement.cash_txn, None);
    assert_eq!(movement.actor, "digest");
}

#[test]
fn netting_is_by_account_in_order() {
    let entry = |account: u128, amount: i64| LedgerEntryFacts {
        account: AccountId(account),
        owner: OwnerRef::Fees,
        amount_micro: amount,
    };
    let txn = |entries: Vec<LedgerEntryFacts>| LedgerTxnFacts {
        txn: LedgerTxnId(1),
        kind: TxnKind::Trade,
        entries,
    };
    let rows = negate(&[
        txn(vec![entry(3, 5), entry(1, -5)]),
        txn(vec![entry(3, -5), entry(2, 5)]),
    ])
    .unwrap();
    let net = |account: u128, amount: i64| NetRow {
        account: AccountId(account),
        owner: OwnerRef::Fees,
        amount,
    };
    assert_eq!(rows, vec![net(1, 5), net(2, -5), net(3, 0)]);
    let overflow = negate(&[txn(vec![entry(1, i64::MIN)])]);
    assert_eq!(overflow, Err(OpsError::App(AppError::Overflow)));
}

#[test]
fn a_reversal_asks_for_each_debited_balance() {
    let rows = vec![
        NetRow { account: cash_of(BOB), owner: OwnerRef::User(BOB), amount: -10 },
        NetRow { account: FEES, owner: OwnerRef::Fees, amount: 10 },
    ];
    assert_eq!(plan_reversal(&rows, HOUSE, &[]), ReversalStep::Balance(cash_of(BOB)));
    match plan_reversal(&rows, HOUSE, &[(cash_of(BOB), 4)]) {
        ReversalStep::Plan(plan) => {
            assert_eq!(plan.shortfalls, vec![(BOB, 6)]);
            assert_eq!(plan.entries.iter().map(|e| e.amount.0).sum::<i64>(), 0);
            assert!(plan
                .entries
                .contains(&Entry { account: cash_of(BOB), amount: MicroUsd(-4) }));
            assert!(plan.entries.contains(&Entry { account: HOUSE, amount: MicroUsd(-6) }));
        }
        other => panic!("{other:?}"),
    }
}

// Remedial credits.

struct Credits {
    now: Timestamp,
    proposals: Vec<RemedialCreditProposal>,
    handle: Result<String, StoreError>,
    /// The digests that a user carries an admin link for.
    links: Vec<(&'static str, UserId)>,
    granted: i64,
    audits: Vec<AdminAction>,
    outbox: Vec<Event>,
    policy: OpsPolicy,
    next_id: u128,
}

impl Credits {
    fn new() -> Credits {
        Credits {
            now: t0(),
            proposals: Vec::new(),
            handle: Ok("victim".to_string()),
            links: Vec::new(),
            granted: 0,
            audits: Vec::new(),
            outbox: Vec::new(),
            policy: OpsPolicy::default(),
            next_id: 40,
        }
    }

    fn find(&self, cmd: &RemedialCreditCmd) -> Option<usize> {
        self.proposals.iter().position(|p| p.idempotency_key == cmd.idempotency_key)
    }

    fn run(
        &mut self,
        actor: AdminContext,
        cmd: &RemedialCreditCmd,
        confirming: bool,
    ) -> Result<RemedialCreditProposal, OpsError> {
        let uc = RemedialCredit { policy: self.policy, actor };
        let mut facts = CreditFacts::new();
        loop {
            let step =
                if confirming { uc.confirm(&facts) } else { uc.propose(cmd, &facts) };
            match step {
                CreditStep::Refuse(e) => return Err(e),
                CreditStep::Replay => {
                    return Ok(self.proposals[self.find(cmd).unwrap()].clone());
                }
                CreditStep::Propose(proposal, audit) => {
                    self.audits.push(audit);
                    self.proposals.push(proposal.clone());
                    return Ok(proposal);
                }
                CreditStep::Expire(proposal, e) => {
                    let at = self.find(cmd).unwrap();
                    self.proposals[at] = proposal;
                    return Err(e);
                }
                CreditStep::Grant => {
                    let at = self.find(cmd).unwrap();
                    let entries =
                        credit_entries(HOUSE, cash_of(cmd.user), self.proposals[at].amount_micro);
                    assert_eq!(entries.iter().map(|e| e.amount.0).sum::<i64>(), 0);
                    self.granted += entries[1].amount.0;
                    let (confirmed, event, audit) =
                        uc.granted(cmd, &self.proposals[at], LedgerTxnId(9));
                    self.proposals[at] = confirmed.clone();
                    self.outbox.push(event);
                    self.audits.push(audit);
                    return Ok(confirmed);
                }
                CreditStep::Need(need) => match need {
                    CreditNeed::SerializeKey => facts.key_serialized = true,
                    CreditNeed::ProposalByKey => {
                        facts.proposal =
                            Some(self.find(cmd).map(|at| self.proposals[at].clone()));
                    }
                    CreditNeed::MarketForUpdate => facts.market_locked = true,
                    CreditNeed::Handle(_) => facts.handle = Some(self.handle.clone()),
                    CreditNeed::AdminLink => {
                        let digest = principal_digest(&uc.actor).unwrap();
                        let carrier = self.links.iter().find(|link| link.0 == digest);
                        facts.admin_link = Some(carrier.map(|link| link.1));
                    }
                    CreditNeed::CreditedForMarket(_) => {
                        facts.market_credited = Some(self.granted);
                    }
                    CreditNeed::Now => facts.now = Some(self.now),
                    CreditNeed::CreditedSince(since) => {
                        assert!(since.0 <= self.now.0);
                        facts.credited_since_day_start = Some(self.granted);
                    }
                    CreditNeed::FreshId => {
                        self.next_id += 1;
                        facts.fresh_id = Some(self.next_id);
                    }
                },
            }
        }
    }
}

fn credit(amount: i64, key: &str) -> RemedialCreditCmd {
    RemedialCreditCmd {
        market: MARKET,
        user: ALICE,
        amount_micro: amount,
        reason: "goodwill".to_string(),
        idempotency_key: key.to_string(),
    }
}

#[test]
fn dual_control_grants_house_credit_with_two_audits() {
    let mut desk = Credits::new();
    let cmd = credit(100_000_000, "rc-1");
    let proposed = desk.run(finance(), &cmd, false).unwrap();
    assert_eq!(desk.run(finance(), &cmd, false).unwrap().id, proposed.id);
    assert_eq!(proposed.status, ProposalStatus::Pending);
    let early = desk.run(superadmin(), &cmd, true).unwrap_err();
    assert!(matches!(early, OpsError::App(AppError::ProposalConflict(_))));
    desk.now = t0().plus_secs(61);
    assert!(credit_key(MARKET, "rc-1").contains("rc-1"));
    let same = desk.run(finance(), &cmd, true).unwrap_err();
    assert!(matches!(same, OpsError::App(AppError::ProposalConflict(_))));
    let confirmed = desk.run(superadmin(), &cmd, true).unwrap();
    assert_eq!(confirmed.status, ProposalStatus::Confirmed);
    assert_eq!(desk.granted, 100_000_000);
    let actions: Vec<&str> = desk.audits.iter().map(|a| a.action.as_str()).collect();
    assert!(actions.contains(&"remedial_credit_propose"));
    assert!(actions.contains(&"remedial_credit_confirm"));
    let replay = desk.run(superadmin(), &cmd, true).unwrap();
    assert_eq!(replay.status, ProposalStatus::Confirmed);
    assert_eq!(desk.granted, 100_000_000, "no double grant");
}

#[test]
fn per_market_cap_rejects_over_the_pinned_500() {
    let mut desk = Credits::new();
    let over = OpsError::OverCap { cap_micro: 500_000_000 };
    assert_eq!(
        desk.run(finance(), &credit(500_000_001, "rc-big"), false).unwrap_err(),
        over
    );
    desk.run(finance(), &credit(500_000_000, "rc-max"), false).unwrap();
    desk.now = t0().plus_secs(61);
    desk.run(superadmin(), &credit(500_000_000, "rc-max"), true).unwrap();
    assert_eq!(
        desk.run(finance(), &credit(1_000_000, "rc-more"), false).unwrap_err(),
        over
    );
}

#[test]
fn credits_are_refused_to_principal_linked_accounts_and_bad_amounts() {
    let mut desk = Credits::new();
    desk.handle = Ok("digest-finance".to_string());
    let denied = desk.run(finance(), &credit(1_000_000, "rc-self"), false).unwrap_err();
    assert!(matches!(denied, OpsError::App(AppError::ProposalConflict(_))));
    assert_eq!(
        desk.run(finance(), &credit(0, "rc-zero"), false).unwrap_err(),
        OpsError::InvalidAmount
    );
}

#[test]
fn credits_are_refused_to_carriers_of_a_principals_admin_link() {
    let linked = conflict("credit target is linked to a dual-control principal");
    let mut desk = Credits::new();
    desk.links = vec![("digest-finance", ALICE)];
    assert_eq!(desk.run(finance(), &credit(1, "rc-own"), false).unwrap_err(), linked);
    // A link of somebody else, or of another digest, is none of the target's.
    desk.links = vec![("digest-finance", BOB), ("digest-superadmin", ALICE)];
    desk.run(finance(), &credit(1, "rc-other"), false).unwrap();
    desk.now = t0().plus_secs(61);
    assert_eq!(desk.run(superadmin(), &credit(1, "rc-other"), true).unwrap_err(), linked);
    assert_eq!(desk.granted, 0);
    desk.links.clear();
    desk.run(superadmin(), &credit(1, "rc-other"), true).unwrap();
    assert_eq!(desk.granted, 1);

    let victim: Result<String, StoreError> = Ok("victim".to_string());
    assert_eq!(linked_to_principal(&victim, Some(ALICE), ALICE, "digest"), Ok(true));
    assert_eq!(linked_to_principal(&victim, Some(BOB), ALICE, "digest"), Ok(false));
    assert_eq!(linked_to_principal(&victim, None, ALICE, "victim"), Ok(true));
    assert_eq!(ADMIN_CHANNEL, "admin");
}

#[test]
fn a_key_proposes_one_credit() {
    let reused = conflict("idempotency key was reused with a different credit");
    let mut desk = Credits::new();
    let first = desk.run(finance(), &credit(5, "rc-key"), false).unwrap();
    assert_eq!(desk.run(finance(), &credit(5, "rc-key"), false).unwrap(), first);
    assert_eq!(desk.run(finance(), &credit(6, "rc-key"), false).unwrap_err(), reused);
    let mut elsewhere = credit(5, "rc-key");
    elsewhere.user = BOB;
    assert_eq!(desk.run(finance(), &elsewhere, false).unwrap_err(), reused);
    assert_eq!(desk.proposals.len(), 1);
}

#[test]
fn confirm_rechecks_expiry_linkage_and_both_caps() {
    let mut desk = Credits::new();
    desk.run(finance(), &credit(1_000_000, "rc-expire"), false).unwrap();
    desk.now = t0().plus_secs(61 + 901);
    assert_eq!(
        desk.run(superadmin(), &credit(1_000_000, "rc-expire"), true).unwrap_err(),
        conflict("remedial credit expired")
    );
    assert_eq!(
        desk.run(superadmin(), &credit(1_000_000, "rc-expire"), true).unwrap_err(),
        conflict("remedial credit is not pending")
    );

    desk.handle = Ok("digest-superadmin".to_string());
    desk.run(finance(), &credit(1_000_000, "rc-link"), false).unwrap();
    desk.now = desk.now.plus_secs(61);
    assert!(matches!(
        desk.run(superadmin(), &credit(1_000_000, "rc-link"), true),
        Err(OpsError::App(AppError::ProposalConflict(_)))
    ));
    desk.handle = Ok("victim".to_string());

    desk.run(finance(), &credit(2_000_000, "rc-daily"), false).unwrap();
    desk.now = desk.now.plus_secs(61);
    desk.policy.remedial_daily_cap_micro = 1_000_000;
    assert_eq!(
        desk.run(superadmin(), &credit(2_000_000, "rc-daily"), true).unwrap_err(),
        OpsError::OverCap { cap_micro: 1_000_000 }
    );
    desk.policy = OpsPolicy::default();

    desk.run(finance(), &credit(300_000_000, "rc-cap-a"), false).unwrap();
    desk.run(finance(), &credit(300_000_000, "rc-cap-b"), false).unwrap();
    desk.now = desk.now.plus_secs(61);
    desk.run(superadmin(), &credit(300_000_000, "rc-cap-a"), true).unwrap();
    assert_eq!(
        desk.run(superadmin(), &credit(300_000_000, "rc-cap-b"), true).unwrap_err(),
        OpsError::OverCap { cap_micro: 500_000_000 }
    );
}

#[test]
fn unknown_credit_target_is_a_typed_not_found() {
    let mut desk = Credits::new();
    desk.handle = Err(StoreError::NotFound("handle"));
    assert_eq!(
        desk.run(finance(), &credit(1, "rc-missing"), false).unwrap_err(),
        OpsError::App(AppError::Store(StoreError::NotFound("user")))
    );
}

#[test]
fn handle_error_normalization_is_total() {
    assert_eq!(normalize_handle_result(Ok("h".into())).unwrap(), "h");
    assert!(matches!(
        normalize_handle_result(Err(StoreError::NotFound("other"))),
        Err(AppError::Store(StoreError::NotFound("user")))
    ));
    assert!(matches!(
        normalize_handle_result(Err(StoreError::Backend("boom".into()))),
        Err(AppError::Store(StoreError::Backend(_)))
    ));
}

// Replayed jobs.

fn ops_admin() -> AdminContext {
    AdminContext::Admin { token_digest: "digest-ops".to_string(), role: AdminRole::Ops }
}

fn job(subject: &str, key: &str) -> OpsJobCmd {
    OpsJobCmd {
        subject: subject.to_string(),
        reason: "stuck fanout".to_string(),
        idempotency_key: key.to_string(),
    }
}

fn run_authorize(
    actor: &AdminContext,
    refanout: bool,
    cmd: &OpsJobCmd,
    existing: Option<OpsJobCommand>,
) -> JobStep {
    let mut facts = JobFacts::new();
    loop {
        let step = if refanout {
            authorize_refanout(actor, cmd, &facts)
        } else {
            authorize(actor, KIND_REPLAY_JOB, cmd, &facts)
        };
        match step {
            JobStep::Need(JobNeed::SerializeKey) => facts.key_serialized = true,
            JobStep::Need(JobNeed::CommandByKey) => facts.existing = Some(existing.clone()),
            JobStep::Need(JobNeed::FreshId) => facts.fresh_id = Some(61),
            done => return done,
        }
    }
}

#[test]
fn authorize_is_idempotent_and_audited_then_delivered_exactly_once() {
    let market = uuid::Uuid::from_u128(77);
    let subject = format!("market:{market}");
    let cmd = job(&subject, "job-1");
    assert!(authorize_lock(&cmd).contains("job-1"));
    let command = match run_authorize(&ops_admin(), false, &cmd, None) {
        JobStep::Authorize(command, audit) => {
            assert_eq!(audit.action, "replay_job");
            assert_eq!(audit.subject, subject);
            command
        }
        other => panic!("{other:?}"),
    };
    assert_eq!(command.status, OpsJobStatus::Pending);
    assert_eq!(
        run_authorize(&ops_admin(), false, &cmd, Some(command.clone())),
        JobStep::Replay
    );
    let denied = run_authorize(&AdminContext::Machine, false, &job(&subject, "job-2"), None);
    assert!(matches!(denied, JobStep::Refuse(OpsError::App(_))));
    let (event, settled) = deliver(&command, t0());
    assert_eq!(event.event_type, "JobReplayRequested");
    assert_eq!(event.aggregate_id, market.as_u128());
    assert_eq!(settled.status, OpsJobStatus::Done);
    assert_eq!(settled.lease_expires_at, None);
    let requested_at = time::OffsetDateTime::from_unix_timestamp(1_700_000_000).unwrap();
    match event.payload {
        Json::Object(members) => {
            assert!(members
                .contains(&("requested_at".to_string(), Json::Text(requested_at.to_string()))));
            assert!(members.contains(&("subject".to_string(), Json::Text(subject))));
        }
        other => panic!("{other:?}"),
    }
    assert_eq!(lease_until(t0(), 60), t0().plus_secs(60));
}

#[test]
fn refanout_rides_the_same_command_rail() {
    let cmd = job(&format!("market:{}", uuid::Uuid::from_u128(5)), "rf-1");
    match run_authorize(&ops_admin(), true, &cmd, None) {
        JobStep::Authorize(command, _) => {
            assert_eq!(command.kind, KIND_REFANOUT);
            assert_eq!(deliver(&command, t0()).0.event_type, "RefanoutRequested");
        }
        other => panic!("{other:?}"),
    }
}

fn executing() -> OpsJobCommand {
    OpsJobCommand {
        id: 3,
        kind: KIND_REPLAY_JOB.into(),
        subject: "market:bad".into(),
        idempotency_key: "failed".into(),
        requested_by: "ops".into(),
        status: OpsJobStatus::Executing,
        attempts: 1,
        lease_expires_at: Some(Timestamp(0)),
        error: None,
    }
}

#[test]
fn failed_delivery_projection_clears_the_lease_and_records_the_error() {
    let settled = failed_command(
        &executing(),
        &AppError::Store(StoreError::Backend("boom".into())),
    );
    assert_eq!(settled.status, OpsJobStatus::Failed);
    assert!(settled.error.unwrap().contains("boom"));
    assert!(settled.lease_expires_at.is_none());
}

#[test]
fn failed_delivery_is_settled_durably() {
    let failed = settle_delivery(
        &executing(),
        Err(AppError::Store(StoreError::Backend("boom".into()))),
    );
    assert_eq!(failed.unwrap().status, OpsJobStatus::Failed);
    assert_eq!(settle_delivery(&executing(), Ok(())), None);
}

#[test]
fn a_subject_without_an_id_is_announced_under_the_id_of_the_command() {
    let (event, settled) = deliver(&executing(), t0());
    assert_eq!(event.aggregate_id, executing().id);
    assert_eq!(settled.status, OpsJobStatus::Done);
}

#[test]
fn signed_formula_matches_each_named_state() {
    let balanced = example_cut(ReconExample::Balanced);
    assert_eq!(signed_residual(&balanced), 0);
    assert!(!pages_at_one_micro(&balanced));
    assert_eq!(exposure_micro(&balanced), 0);

    let dropped = example_cut(ReconExample::DroppedObservation);
    assert_eq!(signed_residual(&dropped), 500);
    assert!(pages_at_one_micro(&dropped));

    let confirmed = example_cut(ReconExample::ConfirmedOnly);
    assert_eq!(signed_residual(&confirmed), 0);
    assert_eq!(exposure_micro(&confirmed), 200);
    assert!(!pages_at_one_micro(&confirmed));

    let inbound = example_cut(ReconExample::FinalizedBeforeDb);
    assert_eq!(signed_residual(&inbound), 0);

    let replacement = example_cut(ReconExample::Replacement);
    assert_eq!(signed_residual(&replacement), 0);
    assert_eq!(exposure_micro(&replacement), 50);

    let residual = example_cut(ReconExample::OneMicroResidual);
    assert_eq!(signed_residual(&residual), 1);
    assert!(pages_at_one_micro(&residual));
    let key = residual_incident(&residual);
    assert!(key.encoded().contains("reconciliation_residual"));
    assert!(key.encoded().contains("slot:15"));
}
