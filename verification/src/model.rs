//! The vocabulary that the operations share.

use crate::amm::Side;
use crate::clock::Timestamp;
use crate::json;
use crate::json::{Json, JsonView};
use crate::market::MarketState;
use crate::money::{MicroShares, MicroUsd};
use crate::text;
use vstd::prelude::*;

verus! {

/// Identity of a market.
#[derive(Debug, Clone, Copy, PartialEq, Eq, PartialOrd, Ord, Hash, Structural)]
pub struct MarketId(pub u128);

/// Identity of a user.
#[derive(Debug, Clone, Copy, PartialEq, Eq, PartialOrd, Ord, Hash, Structural)]
pub struct UserId(pub u128);

/// Identity of one outcome of a market.
#[derive(Debug, Clone, Copy, PartialEq, Eq, PartialOrd, Ord, Hash, Structural)]
pub struct OutcomeId(pub u128);

/// Identity of a trade.
#[derive(Debug, Clone, Copy, PartialEq, Eq, PartialOrd, Ord, Hash, Structural)]
pub struct TradeId(pub u128);

/// Identity of a committed ledger transaction.
#[derive(Debug, Clone, Copy, PartialEq, Eq, PartialOrd, Ord, Hash, Structural)]
pub struct LedgerTxnId(pub u128);

/// What an administrator may do. Roles are sets, not a hierarchy.
#[derive(Debug, Clone, Copy, PartialEq, Eq, Structural)]
pub enum AdminRole {
    Curator,
    Finance,
    Ops,
    Superadmin,
}

/// Who acts: an authenticated administrator or the system itself.
#[derive(Debug, Clone, PartialEq, Eq)]
pub enum AdminContext {
    Admin { token_digest: String, role: AdminRole },
    Machine,
}

/// Who acts, with the token digest as characters.
pub enum ActorView {
    Admin { token_digest: Seq<char>, role: AdminRole },
    Machine,
}

impl View for AdminContext {
    type V = ActorView;

    open spec fn view(&self) -> ActorView {
        match self {
            AdminContext::Admin { token_digest, role } => ActorView::Admin {
                token_digest: token_digest@,
                role: *role,
            },
            AdminContext::Machine => ActorView::Machine,
        }
    }
}

/// Which way a trade goes.
#[derive(Debug, Clone, Copy, PartialEq, Eq, Structural)]
pub enum TradeAction {
    Buy,
    Sell,
}

/// One committed configuration value.
#[derive(Debug, Clone, PartialEq, Eq)]
pub struct ConfigEntry {
    pub key: String,
    pub value: Json,
}

/// One changed configuration key.
#[derive(Debug, Clone, PartialEq, Eq)]
pub struct ConfigChange {
    pub key: String,
    pub old: Option<Json>,
    pub new: Json,
}

/// One changed configuration key, as plain values.
pub struct ChangeView {
    pub key: Seq<char>,
    pub old: Option<JsonView>,
    pub new: JsonView,
}

impl View for ConfigChange {
    type V = ChangeView;

    open spec fn view(&self) -> ChangeView {
        ChangeView {
            key: self.key@,
            old: match self.old {
                Some(v) => Some(v@),
                None => None,
            },
            new: self.new@,
        }
    }
}

/// What some changes say.
pub open spec fn changes_view(changes: Seq<ConfigChange>) -> Seq<ChangeView> {
    Seq::new(changes.len(), |i: int| changes[i]@)
}

/// The committed economy values that trades are priced under.
#[derive(Debug, Clone, Copy, PartialEq, Eq)]
pub struct RepConfig {
    pub position_cap_micro_by_tier: [i64; 5],
    pub fee_discount_bp_by_tier: [u16; 5],
    pub min_fee_bps: u16,
    pub discount_flip_window_secs: u64,
}

impl Default for RepConfig {
    fn default() -> (r: Self)
        ensures
            r.position_cap_micro_by_tier@ == seq![i64::MAX, i64::MAX, i64::MAX, i64::MAX, i64::MAX],
            r.fee_discount_bp_by_tier@ == seq![0u16, 0u16, 0u16, 0u16, 0u16],
            r.min_fee_bps == 0,
            r.discount_flip_window_secs == 0,
    {
        let r = RepConfig {
            position_cap_micro_by_tier: [i64::MAX, i64::MAX, i64::MAX, i64::MAX, i64::MAX],
            fee_discount_bp_by_tier: [0, 0, 0, 0, 0],
            min_fee_bps: 0,
            discount_flip_window_secs: 0,
        };
        assert(r.position_cap_micro_by_tier@ =~= seq![
            i64::MAX,
            i64::MAX,
            i64::MAX,
            i64::MAX,
            i64::MAX,
        ]);
        assert(r.fee_discount_bp_by_tier@ =~= seq![0u16, 0u16, 0u16, 0u16, 0u16]);
        r
    }
}

/// Something that happened, for the outbox.
#[derive(Debug, Clone, PartialEq, Eq)]
pub struct Event {
    pub event_type: &'static str,
    pub aggregate_type: &'static str,
    pub aggregate_id: u128,
    pub payload: Json,
}

/// Something that happened, as plain values.
pub struct EventView {
    pub event_type: Seq<char>,
    pub aggregate_type: Seq<char>,
    pub aggregate_id: u128,
    pub payload: JsonView,
}

impl View for Event {
    type V = EventView;

    open spec fn view(&self) -> EventView {
        EventView {
            event_type: self.event_type@,
            aggregate_type: self.aggregate_type@,
            aggregate_id: self.aggregate_id,
            payload: self.payload@,
        }
    }
}

/// What some events say.
pub open spec fn events_view(events: Seq<Event>) -> Seq<EventView> {
    Seq::new(events.len(), |i: int| events[i]@)
}

/// A market as it is stored.
#[derive(Debug, Clone, Copy, PartialEq, Eq, Structural)]
pub struct MarketRow {
    pub id: MarketId,
    pub state: MarketState,
    /// When the tally is hidden and trading freezes.
    pub tally_hidden_at: Timestamp,
    pub closes_at: Timestamp,
    pub yes_outcome: OutcomeId,
    pub no_outcome: OutcomeId,
}

impl MarketRow {
    /// The outcome of a side.
    pub open spec fn outcome_of(self, side: Side) -> OutcomeId {
        match side {
            Side::Yes => self.yes_outcome,
            Side::No => self.no_outcome,
        }
    }

    /// The outcome of a side.
    pub fn outcome(&self, side: Side) -> (r: OutcomeId)
        ensures
            r == self.outcome_of(side),
    {
        match side {
            Side::Yes => self.yes_outcome,
            Side::No => self.no_outcome,
        }
    }
}

/// What a user holds of one outcome.
#[derive(Debug, Clone, Copy, PartialEq, Eq, Structural)]
pub struct PositionRow {
    pub user: UserId,
    pub outcome: OutcomeId,
    pub shares: MicroShares,
    pub cost: MicroUsd,
    pub realized_pnl: MicroUsd,
}

/// Where a realized gain or loss came from.
#[derive(Debug, Clone, Copy, PartialEq, Eq, Structural)]
pub enum RealizationSource {
    Sell,
    Settlement,
    Void,
}

/// One realized gain or loss.
#[derive(Debug, Clone, Copy, PartialEq, Eq, Structural)]
pub struct RealizationFact {
    pub user: UserId,
    pub market: MarketId,
    pub outcome: OutcomeId,
    pub source: RealizationSource,
    pub realized_delta: MicroUsd,
    pub payout: MicroUsd,
    pub ledger_txn: LedgerTxnId,
    pub created_at: Timestamp,
}

/// A trade to be stored.
#[derive(Debug, Clone, Copy, PartialEq, Eq, Structural)]
pub struct NewTrade {
    pub market: MarketId,
    pub user: UserId,
    pub outcome: OutcomeId,
    pub side: Side,
    pub action: TradeAction,
    pub shares: MicroShares,
    pub gross: MicroUsd,
    pub fee: MicroUsd,
    pub avg_price_micro: i64,
    pub ledger_txn: LedgerTxnId,
    pub run_id: Option<u128>,
    pub pending_action_id: Option<u128>,
}

/// What a trader gets back.
#[derive(Debug, Clone, Copy, PartialEq, Eq, Structural)]
pub struct TradeReceipt {
    pub trade_id: TradeId,
    pub ledger_txn: LedgerTxnId,
    pub side: Side,
    pub action: TradeAction,
    pub shares: MicroShares,
    pub gross: MicroUsd,
    pub fee: MicroUsd,
    pub avg_price_micro: i64,
    pub replayed: bool,
}

/// Who owns a ledger account.
#[derive(Debug, Clone, Copy, PartialEq, Eq, Structural)]
pub enum OwnerRef {
    User(UserId),
    MarketEscrow(MarketId),
    MarketPool(MarketId),
    Fees,
    House,
    External,
    BonusReserve,
}

/// How far a proposal has come.
#[derive(Debug, Clone, Copy, PartialEq, Eq, Structural)]
pub enum ProposalStatus {
    Pending,
    Confirmed,
    Rejected,
    Expired,
}

/// One administrative action, for the audit log.
#[derive(Debug, Clone, PartialEq, Eq)]
pub struct AdminAction {
    pub actor_role: AdminRole,
    pub actor_token_digest: String,
    pub action: String,
    pub subject: String,
    pub before: Option<Json>,
    pub after: Option<Json>,
    pub reason: Option<String>,
}

/// One administrative action, as plain values.
pub struct ActionView {
    pub actor_role: AdminRole,
    pub actor_token_digest: Seq<char>,
    pub action: Seq<char>,
    pub subject: Seq<char>,
    pub before: Option<JsonView>,
    pub after: Option<JsonView>,
    pub reason: Option<Seq<char>>,
}

impl View for AdminAction {
    type V = ActionView;

    open spec fn view(&self) -> ActionView {
        ActionView {
            actor_role: self.actor_role,
            actor_token_digest: self.actor_token_digest@,
            action: self.action@,
            subject: self.subject@,
            before: json::option_view(self.before),
            after: json::option_view(self.after),
            reason: text::option_view(self.reason),
        }
    }
}

/// How far an unwind has come.
#[derive(Debug, Clone, Copy, PartialEq, Eq, Structural)]
pub enum UnwindStage {
    Proposed,
    Applied,
    Rejected,
    Expired,
}

/// The authority to unwind one market.
#[derive(Debug, PartialEq, Eq)]
pub struct MarketUnwind {
    pub market: MarketId,
    pub unwind_key: String,
    pub stage: UnwindStage,
    pub proposer_token_id: String,
    pub confirmer_token_id: Option<String>,
    pub reason: String,
    pub confirm_not_before: Timestamp,
    pub reversal_txn: Option<LedgerTxnId>,
}

/// The authority to unwind one market, as plain values.
pub struct UnwindView {
    pub market: MarketId,
    pub unwind_key: Seq<char>,
    pub stage: UnwindStage,
    pub proposer_token_id: Seq<char>,
    pub confirmer_token_id: Option<Seq<char>>,
    pub reason: Seq<char>,
    pub confirm_not_before: Timestamp,
    pub reversal_txn: Option<LedgerTxnId>,
}

impl View for MarketUnwind {
    type V = UnwindView;

    open spec fn view(&self) -> UnwindView {
        UnwindView {
            market: self.market,
            unwind_key: self.unwind_key@,
            stage: self.stage,
            proposer_token_id: self.proposer_token_id@,
            confirmer_token_id: text::option_view(self.confirmer_token_id),
            reason: self.reason@,
            confirm_not_before: self.confirm_not_before,
            reversal_txn: self.reversal_txn,
        }
    }
}

impl Clone for MarketUnwind {
    fn clone(&self) -> (r: Self)
        ensures
            r@ == self@,
    {
        MarketUnwind {
            market: self.market,
            unwind_key: self.unwind_key.clone(),
            stage: self.stage,
            proposer_token_id: self.proposer_token_id.clone(),
            confirmer_token_id: text::clone_option(&self.confirmer_token_id),
            reason: self.reason.clone(),
            confirm_not_before: self.confirm_not_before,
            reversal_txn: self.reversal_txn,
        }
    }
}

/// What a user owes the house after an unwind.
#[derive(Debug, Clone, Copy, PartialEq, Eq, Structural)]
pub struct Receivable {
    pub id: u128,
    pub market: MarketId,
    pub user: UserId,
    pub origin_reversal_txn: LedgerTxnId,
    pub opened_micro: i64,
}

/// How a receivable moved.
#[derive(Debug, Clone, Copy, PartialEq, Eq, Structural)]
pub enum ReceivableMovementKind {
    Opened,
    Collected,
    WrittenOff,
}

/// One movement of a receivable.
#[derive(Debug, Clone, PartialEq, Eq)]
pub struct ReceivableMovement {
    pub id: u128,
    pub receivable: u128,
    pub kind: ReceivableMovementKind,
    pub amount_micro: i64,
    pub actor: String,
    pub cash_txn: Option<LedgerTxnId>,
    pub idempotency_key: String,
}

/// Identity of a rendering job.
#[derive(Debug, Clone, Copy, PartialEq, Eq, PartialOrd, Ord, Hash, Structural)]
pub struct JobId(pub u128);

/// What a job renders.
#[derive(Debug, Clone, Copy, PartialEq, Eq, Structural)]
pub enum ArtifactKind {
    MarketVideo,
    Poster,
}

/// The limits of rendering.
#[derive(Debug, Clone, Copy, PartialEq, Eq, Structural)]
pub struct ContentConfig {
    pub lease_secs: u64,
    pub backoff_base_secs: u64,
    pub video_max_attempts: u32,
}

/// A rendering job as a worker has claimed it.
#[derive(Debug, Clone, Copy, PartialEq, Eq, Structural)]
pub struct VideoJobRow {
    pub id: JobId,
    pub market: MarketId,
    pub kind: ArtifactKind,
    pub attempts: u32,
    pub claim_token: Option<u128>,
}

} // verus!
