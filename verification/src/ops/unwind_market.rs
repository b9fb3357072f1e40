//! The true unwind of a market, under dual control. Legal only from `Voided`,
//! or from a flagged `Resolving` before payout, never from `Paid`. Applying it
//! is one transaction however many took part: every ledger transaction of the
//! market is negated into a single reversal, the positions are zeroed with
//! compensating facts, and whoever is short of cash owes a receivable.

use crate::clock;
use crate::clock::Timestamp;
use crate::error::{AppError, Fault};
use crate::identity;
use crate::json;
use crate::json::{Json, JsonView};
use crate::ledger::{AccountId, Entry};
use crate::market;
use crate::market::{transition, MarketEvent, MarketState};
use crate::model::{
    ActionView, ActorView, AdminAction, AdminContext, Event, EventView, LedgerTxnId, MarketId,
    MarketUnwind, PositionRow, RealizationFact, RealizationSource, Receivable, ReceivableMovement,
    ReceivableMovementKind, UnwindStage, UnwindView, UserId,
};
use crate::money::{MicroShares, MicroUsd};
use crate::ops::audit;
use crate::ops::audit::{OpsError, OpsFault, OpsPolicy};
use crate::ops::reversal;
use crate::ops::reversal::{LedgerTxnFacts, ReversalPlan, ReversalStep};
use crate::text;
use vstd::prelude::*;

verus! {

/// The ledger key of a market's one reversal.
pub open spec fn ledger_key_text(market: MarketId) -> Seq<char> {
    "unwind:"@ + identity::uuid_text(market.0)
}

/// The ledger key of a market's one reversal.
#[must_use]
pub fn unwind_ledger_key(market: MarketId) -> (r: String)
    ensures
        r@ == ledger_key_text(market),
{
    text::join2("unwind:", identity::format_uuid(market.0).as_str())
}

/// The key of an authority to unwind, which keeps the proposer's own key for
/// replays.
pub open spec fn authority_key(market: MarketId, client_key: Seq<char>) -> Seq<char> {
    ledger_key_text(market) + ":"@ + client_key
}

/// The key of an authority to unwind.
#[must_use]
pub fn unwind_key(market: MarketId, client_key: &str) -> (r: String)
    ensures
        r@ == authority_key(market, client_key@),
{
    text::join3(unwind_ledger_key(market).as_str(), ":", client_key)
}

/// The key that serializes proposals of one market's unwind.
pub fn propose_lock(market: MarketId) -> (r: String)
    ensures
        r@ == "unwind-propose:"@ + identity::uuid_text(market.0),
{
    text::join2("unwind-propose:", identity::format_uuid(market.0).as_str())
}

/// The key that serializes the settling of one market's unwind.
pub fn apply_lock(market: MarketId) -> (r: String)
    ensures
        r@ == "unwind-apply:"@ + identity::uuid_text(market.0),
{
    text::join2("unwind-apply:", identity::format_uuid(market.0).as_str())
}

/// A request about one market's unwind.
#[derive(Debug, Clone, PartialEq, Eq)]
pub struct UnwindCmd {
    pub market: MarketId,
    pub reason: String,
    pub idempotency_key: String,
}

/// Who unwinds, under which policy.
#[derive(Debug, Clone, PartialEq, Eq)]
pub struct UnwindMarket {
    pub policy: OpsPolicy,
    pub actor: AdminContext,
}

/// What an unwind has read so far.
#[derive(Debug, PartialEq, Eq)]
pub struct UnwindFacts {
    pub key_serialized: bool,
    /// The state of the market, and whether a curator has flagged it.
    pub market: Option<(MarketState, bool)>,
    pub unwind: Option<Option<MarketUnwind>>,
    pub now: Option<Timestamp>,
    /// Whether the market's resolution was paid out.
    pub resolution_paid: Option<bool>,
    /// The sum of all open receivables.
    pub outstanding: Option<i64>,
    pub originals: Option<Vec<LedgerTxnFacts>>,
    pub house: Option<AccountId>,
    pub cash: Vec<(AccountId, i64)>,
}

impl UnwindFacts {
    /// Nothing read yet.
    pub fn new() -> (r: Self)
        ensures
            !r.key_serialized && r.market is None && r.unwind is None && r.now is None
                && r.resolution_paid is None && r.outstanding is None && r.originals is None
                && r.house is None && r.cash@.len() == 0,
    {
        UnwindFacts {
            key_serialized: false,
            market: None,
            unwind: None,
            now: None,
            resolution_paid: None,
            outstanding: None,
            originals: None,
            house: None,
            cash: Vec::new(),
        }
    }

    /// What is proposed may be confirmed within the calendar.
    pub open spec fn proposable(&self, policy: OpsPolicy) -> bool {
        self.now matches Some(now) ==> policy.delay_fits(now)
    }

    /// What is pending expires within the calendar.
    pub open spec fn confirmable(&self, policy: OpsPolicy) -> bool {
        self.unwind matches Some(Some(unwind)) ==> (unwind.stage == UnwindStage::Proposed
            ==> policy.window_fits(unwind.confirm_not_before))
    }
}

/// What an unwind reads or does next.
#[derive(Debug, Clone, Copy, PartialEq, Eq, Structural)]
pub enum UnwindNeed {
    SerializeKey,
    MarketForUpdate,
    UnwindForUpdate,
    Now,
    ResolutionTxn,
    OpenReceivablesTotal,
    MarketLedgerTxns,
    HouseAccount,
    Balance(AccountId),
}

/// What becomes of an unwind next.
#[derive(Debug, PartialEq, Eq)]
pub enum UnwindStep {
    Need(UnwindNeed),
    Refuse(OpsError),
    /// The stored authority is the answer.
    Replay,
    /// Store this authority with its audit row.
    Propose(MarketUnwind, AdminAction),
    /// Store the expired authority with its audit row, then refuse with the error.
    Expire(MarketUnwind, AdminAction, OpsError),
    /// Store the rejected authority with its audit row.
    Reject(MarketUnwind, AdminAction),
    /// Post the reversal and book the shortfalls.
    Apply(ReversalPlan),
}

/// What becomes of an unwind next, as plain values.
pub enum UnwindVerdict {
    Need(UnwindNeed),
    Refuse(OpsFault),
    Replay,
    Propose(UnwindView, ActionView),
    Expire(UnwindView, ActionView, OpsFault),
    Reject(UnwindView, ActionView),
    Apply { entries: Seq<Entry>, shortfalls: Seq<(UserId, i64)> },
}

impl View for UnwindStep {
    type V = UnwindVerdict;

    open spec fn view(&self) -> UnwindVerdict {
        match self {
            UnwindStep::Need(n) => UnwindVerdict::Need(*n),
            UnwindStep::Refuse(e) => UnwindVerdict::Refuse(e@),
            UnwindStep::Replay => UnwindVerdict::Replay,
            UnwindStep::Propose(unwind, row) => UnwindVerdict::Propose(unwind@, row@),
            UnwindStep::Expire(unwind, row, e) => UnwindVerdict::Expire(unwind@, row@, e@),
            UnwindStep::Reject(unwind, row) => UnwindVerdict::Reject(unwind@, row@),
            UnwindStep::Apply(plan) => UnwindVerdict::Apply {
                entries: plan.entries@,
                shortfalls: plan.shortfalls@,
            },
        }
    }
}

/// A market that may be unwound: void, which says that voiding was the wrong
/// decision, or resolving under a curator's flag.
pub open spec fn unwindable(state: MarketState, curator_flagged: bool) -> bool {
    state == MarketState::Voided || (state == MarketState::Resolving && curator_flagged)
}

/// What an illegal unwind is answered with.
pub open spec fn illegal() -> OpsFault {
    OpsFault::App(Fault::IllegalTransition)
}

/// Checks that a market may be unwound.
///
/// # Errors
///
/// [`AppError::IllegalTransition`] in every other state.
pub fn check_unwindable(state: MarketState, curator_flagged: bool) -> (r: Result<(), OpsError>)
    ensures
        if unwindable(state, curator_flagged) {
            r is Ok
        } else {
            r matches Err(e) && e@ == illegal()
        },
{
    match state {
        MarketState::Voided => Ok(()),
        MarketState::Resolving if curator_flagged => Ok(()),
        _ => Err(OpsError::App(AppError::IllegalTransition)),
    }
}

/// The subject of an audit row about a market.
pub open spec fn market_subject(market: MarketId) -> Seq<char> {
    "market:"@ + identity::uuid_text(market.0)
}

/// The subject of an audit row about a market.
pub(crate) fn subject_of(market: MarketId) -> (r: String)
    ensures
        r@ == market_subject(market),
{
    text::join2("market:", identity::format_uuid(market.0).as_str())
}

/// The state of a market, as audit rows hold it.
pub open spec fn state_document(state: MarketState) -> JsonView {
    JsonView::Object(seq![("state"@, JsonView::Text(market::state_text(state)))])
}

fn state_json(state: MarketState) -> (r: Json)
    ensures
        r@ == state_document(state),
{
    let members: Vec<(String, Json)> = vec![
        json::member("state", Json::text(market::state_name(state))),
    ];
    assert(json::members_view(members@) =~= state_document(state)->Object_0);
    Json::object(members)
}

/// The earliest confirmation, as audit rows hold it.
pub open spec fn delay_document(confirm_not_before: Timestamp) -> JsonView {
    JsonView::Object(
        seq![
            (
                "confirm_not_before"@,
                JsonView::Text(clock::printed_time(confirm_not_before.0 as int)),
            ),
        ],
    )
}

/// The authority that a proposal stores.
pub open spec fn proposed(
    proposer: Seq<char>,
    policy: OpsPolicy,
    cmd: UnwindCmd,
    now: Timestamp,
) -> UnwindView {
    UnwindView {
        market: cmd.market,
        unwind_key: authority_key(cmd.market, cmd.idempotency_key@),
        stage: UnwindStage::Proposed,
        proposer_token_id: proposer,
        confirmer_token_id: None,
        reason: cmd.reason@,
        confirm_not_before: now.later(policy.dual_control_delay_secs as int),
        reversal_txn: None,
    }
}

/// What becomes of a proposal after what was read so far.
pub open spec fn propose_step(
    actor: ActorView,
    policy: OpsPolicy,
    cmd: UnwindCmd,
    facts: UnwindFacts,
) -> UnwindVerdict {
    match actor {
        ActorView::Machine => UnwindVerdict::Refuse(audit::conflict("machine actor"@)),
        ActorView::Admin { token_digest, role } => if !facts.key_serialized {
            UnwindVerdict::Need(UnwindNeed::SerializeKey)
        } else {
            match facts.market {
                None => UnwindVerdict::Need(UnwindNeed::MarketForUpdate),
                Some(row) => if !unwindable(row.0, row.1) {
                    UnwindVerdict::Refuse(illegal())
                } else {
                    match facts.unwind {
                        None => UnwindVerdict::Need(UnwindNeed::UnwindForUpdate),
                        Some(Some(existing)) => if existing.unwind_key@ == authority_key(
                            cmd.market,
                            cmd.idempotency_key@,
                        ) && existing.stage == UnwindStage::Proposed {
                            UnwindVerdict::Replay
                        } else {
                            UnwindVerdict::Refuse(
                                audit::conflict("unwind already exists for this market"@),
                            )
                        },
                        Some(None) => match facts.now {
                            None => UnwindVerdict::Need(UnwindNeed::Now),
                            Some(now) => {
                                let unwind = proposed(token_digest, policy, cmd, now);
                                UnwindVerdict::Propose(
                                    unwind,
                                    audit::audit_row(
                                        actor,
                                        "unwind_propose"@,
                                        market_subject(cmd.market),
                                        Some(state_document(row.0)),
                                        Some(delay_document(unwind.confirm_not_before)),
                                        Some(cmd.reason@),
                                    ),
                                )
                            },
                        },
                    }
                },
            }
        },
    }
}

/// The step after dual control has been passed.
pub open spec fn reverse_step(state: MarketState, policy: OpsPolicy, facts: UnwindFacts) -> UnwindVerdict {
    if state == MarketState::Resolving && facts.resolution_paid is None {
        UnwindVerdict::Need(UnwindNeed::ResolutionTxn)
    } else if state == MarketState::Resolving && facts.resolution_paid == Some(true) {
        UnwindVerdict::Refuse(illegal())
    } else {
        match facts.outstanding {
            None => UnwindVerdict::Need(UnwindNeed::OpenReceivablesTotal),
            Some(outstanding) => if outstanding >= policy.receivable_outstanding_cap_micro {
                UnwindVerdict::Refuse(
                    OpsFault::OverCap { cap_micro: policy.receivable_outstanding_cap_micro as int },
                )
            } else {
                match facts.originals {
                    None => UnwindVerdict::Need(UnwindNeed::MarketLedgerTxns),
                    Some(originals) => match reversal::netting_fault(originals@) {
                        Some(fault) => UnwindVerdict::Refuse(fault),
                        None => match facts.house {
                            None => UnwindVerdict::Need(UnwindNeed::HouseAccount),
                            Some(house) => reversal_verdict(
                                policy,
                                outstanding,
                                reversal::reversal_step(
                                    reversal::rows_of(reversal::all_entries(originals@)),
                                    house,
                                    facts.cash@,
                                ),
                            ),
                        },
                    },
                }
            },
        }
    }
}

/// What a planned reversal makes of an unwind: the shortfalls that it would book
/// may not take the open receivables past the cap.
pub open spec fn reversal_verdict(
    policy: OpsPolicy,
    outstanding: i64,
    step: reversal::ReversalVerdict,
) -> UnwindVerdict {
    match step {
        reversal::ReversalVerdict::Balance(account) => UnwindVerdict::Need(
            UnwindNeed::Balance(account),
        ),
        reversal::ReversalVerdict::Overflow => UnwindVerdict::Refuse(
            OpsFault::App(Fault::Overflow),
        ),
        reversal::ReversalVerdict::Plan { entries, shortfalls } => if outstanding
            + reversal::shortfall_sum(shortfalls) > policy.receivable_outstanding_cap_micro {
            UnwindVerdict::Refuse(
                OpsFault::OverCap { cap_micro: policy.receivable_outstanding_cap_micro as int },
            )
        } else {
            UnwindVerdict::Apply { entries, shortfalls }
        },
    }
}

/// The authority at another stage.
pub open spec fn at_stage(unwind: UnwindView, stage: UnwindStage) -> UnwindView {
    UnwindView { stage, ..unwind }
}

/// What becomes of a confirmation after what was read so far.
pub open spec fn confirm_step(
    actor: ActorView,
    policy: OpsPolicy,
    cmd: UnwindCmd,
    facts: UnwindFacts,
) -> UnwindVerdict {
    match actor {
        ActorView::Machine => UnwindVerdict::Refuse(audit::conflict("machine actor"@)),
        ActorView::Admin { token_digest, role } => if !facts.key_serialized {
            UnwindVerdict::Need(UnwindNeed::SerializeKey)
        } else {
            match facts.market {
                None => UnwindVerdict::Need(UnwindNeed::MarketForUpdate),
                Some(row) => match facts.unwind {
                    None => UnwindVerdict::Need(UnwindNeed::UnwindForUpdate),
                    Some(None) => UnwindVerdict::Refuse(audit::conflict("no unwind proposed"@)),
                    Some(Some(unwind)) => if unwind.stage == UnwindStage::Applied {
                        UnwindVerdict::Replay
                    } else if unwind.stage != UnwindStage::Proposed {
                        UnwindVerdict::Refuse(audit::conflict("unwind is not pending"@))
                    } else if unwind.proposer_token_id@ == token_digest {
                        UnwindVerdict::Refuse(
                            audit::conflict("confirm requires a distinct principal"@),
                        )
                    } else {
                        match facts.now {
                            None => UnwindVerdict::Need(UnwindNeed::Now),
                            Some(now) => if now.0 < unwind.confirm_not_before.0 {
                                UnwindVerdict::Refuse(
                                    audit::conflict("dual-control delay has not elapsed"@),
                                )
                            } else if now.0 > unwind.confirm_not_before.later(
                                policy.proposal_ttl_secs as int,
                            ).0 {
                                UnwindVerdict::Expire(
                                    at_stage(unwind@, UnwindStage::Expired),
                                    audit::audit_row(
                                        actor,
                                        "unwind_expire"@,
                                        market_subject(cmd.market),
                                        None,
                                        None,
                                        Some(cmd.reason@),
                                    ),
                                    audit::conflict("unwind expired"@),
                                )
                            } else if !unwindable(row.0, row.1) {
                                UnwindVerdict::Refuse(illegal())
                            } else {
                                reverse_step(row.0, policy, facts)
                            },
                        }
                    },
                },
            }
        },
    }
}

/// What becomes of a rejection after what was read so far.
pub open spec fn reject_step(actor: ActorView, cmd: UnwindCmd, facts: UnwindFacts) -> UnwindVerdict {
    if actor is Machine {
        UnwindVerdict::Refuse(audit::conflict("machine actor"@))
    } else if !facts.key_serialized {
        UnwindVerdict::Need(UnwindNeed::SerializeKey)
    } else {
        match facts.unwind {
            None => UnwindVerdict::Need(UnwindNeed::UnwindForUpdate),
            Some(None) => UnwindVerdict::Refuse(audit::conflict("no unwind proposed"@)),
            Some(Some(unwind)) => if unwind.stage != UnwindStage::Proposed {
                UnwindVerdict::Refuse(audit::conflict("unwind is not pending"@))
            } else {
                UnwindVerdict::Reject(
                    at_stage(unwind@, UnwindStage::Rejected),
                    audit::audit_row(
                        actor,
                        "unwind_reject"@,
                        market_subject(cmd.market),
                        None,
                        None,
                        Some(cmd.reason@),
                    ),
                )
            },
        }
    }
}

/// What the applied unwind announces and audits.
pub open spec fn applied_document(reversal_txn: Option<LedgerTxnId>, opened: int) -> json::Members {
    seq![
        (
            "reversal_txn"@,
            match reversal_txn {
                Some(txn) => JsonView::Text(identity::uuid_text(txn.0)),
                None => JsonView::Null,
            },
        ),
        ("receivables_opened"@, JsonView::Int(opened)),
    ]
}

fn applied_members(reversal_txn: Option<LedgerTxnId>, opened: usize) -> (r: Vec<(String, Json)>)
    requires
        opened <= i64::MAX,
    ensures
        json::members_view(r@) == applied_document(reversal_txn, opened as int),
{
    let txn = match reversal_txn {
        Some(txn) => Json::Text(identity::format_uuid(txn.0)),
        None => Json::Null,
    };
    let members: Vec<(String, Json)> = vec![
        json::member("reversal_txn", txn),
        json::member("receivables_opened", Json::Int(opened as i64)),
    ];
    assert(json::members_view(members@) =~= applied_document(reversal_txn, opened as int));
    members
}

impl UnwindMarket {
    /// First stage: proposes the unwind. Legality is checked early, so that a
    /// paid market never even holds a proposal.
    pub fn propose(&self, cmd: &UnwindCmd, facts: &UnwindFacts) -> (r: UnwindStep)
        requires
            facts.proposable(self.policy),
        ensures
            r@ == propose_step(self.actor@, self.policy, *cmd, *facts),
    {
        let proposer = match audit::principal_digest(&self.actor) {
            Ok(digest) => digest.to_owned(),
            Err(e) => return UnwindStep::Refuse(OpsError::App(e)),
        };
        if !facts.key_serialized {
            return UnwindStep::Need(UnwindNeed::SerializeKey);
        }
        let (state, flagged) = match facts.market {
            None => return UnwindStep::Need(UnwindNeed::MarketForUpdate),
            Some(row) => row,
        };
        match check_unwindable(state, flagged) {
            Ok(()) => {},
            Err(e) => return UnwindStep::Refuse(e),
        }
        let key = unwind_key(cmd.market, cmd.idempotency_key.as_str());
        match &facts.unwind {
            None => return UnwindStep::Need(UnwindNeed::UnwindForUpdate),
            Some(Some(existing)) => {
                if text::same_text(existing.unwind_key.as_str(), key.as_str()) && existing.stage
                    == UnwindStage::Proposed {
                    return UnwindStep::Replay;
                }
                return UnwindStep::Refuse(
                    audit::conflict_error("unwind already exists for this market"),
                );
            },
            Some(None) => {},
        }
        let now = match facts.now {
            None => return UnwindStep::Need(UnwindNeed::Now),
            Some(now) => now,
        };
        let confirm_not_before = self.policy.confirm_not_before(now);
        let unwind = MarketUnwind {
            market: cmd.market,
            unwind_key: key,
            stage: UnwindStage::Proposed,
            proposer_token_id: proposer,
            confirmer_token_id: None,
            reason: cmd.reason.clone(),
            confirm_not_before,
            reversal_txn: None,
        };
        let members: Vec<(String, Json)> = vec![
            json::member("confirm_not_before", Json::Text(clock::print_time(confirm_not_before))),
        ];
        assert(json::members_view(members@) =~= delay_document(confirm_not_before)->Object_0);
        let row = audit::required_audit_for(
            &self.actor,
            "unwind_propose",
            subject_of(cmd.market),
            Some(state_json(state)),
            Some(Json::object(members)),
            Some(cmd.reason.clone()),
        );
        UnwindStep::Propose(unwind, row)
    }

    /// Second stage: a distinct principal confirms, and the reversal is planned.
    pub fn confirm(&self, cmd: &UnwindCmd, facts: &UnwindFacts) -> (r: UnwindStep)
        requires
            facts.confirmable(self.policy),
        ensures
            r@ == confirm_step(self.actor@, self.policy, *cmd, *facts),
    {
        let confirmer = match audit::principal_digest(&self.actor) {
            Ok(digest) => digest,
            Err(e) => return UnwindStep::Refuse(OpsError::App(e)),
        };
        if !facts.key_serialized {
            return UnwindStep::Need(UnwindNeed::SerializeKey);
        }
        let (state, flagged) = match facts.market {
            None => return UnwindStep::Need(UnwindNeed::MarketForUpdate),
            Some(row) => row,
        };
        let unwind = match &facts.unwind {
            None => return UnwindStep::Need(UnwindNeed::UnwindForUpdate),
            Some(None) => return UnwindStep::Refuse(audit::conflict_error("no unwind proposed")),
            Some(Some(unwind)) => unwind,
        };
        if unwind.stage == UnwindStage::Applied {
            return UnwindStep::Replay;
        }
        if unwind.stage != UnwindStage::Proposed {
            return UnwindStep::Refuse(audit::conflict_error("unwind is not pending"));
        }
        if text::same_text(unwind.proposer_token_id.as_str(), confirmer) {
            return UnwindStep::Refuse(
                audit::conflict_error("confirm requires a distinct principal"),
            );
        }
        let now = match facts.now {
            None => return UnwindStep::Need(UnwindNeed::Now),
            Some(now) => now,
        };
        if now.before(unwind.confirm_not_before) {
            return UnwindStep::Refuse(audit::conflict_error("dual-control delay has not elapsed"));
        }
        if self.policy.expires_at(unwind.confirm_not_before).before(now) {
            let mut expired = unwind.clone();
            expired.stage = UnwindStage::Expired;
            let row = audit::required_audit_for(
                &self.actor,
                "unwind_expire",
                subject_of(cmd.market),
                None,
                None,
                Some(cmd.reason.clone()),
            );
            return UnwindStep::Expire(expired, row, audit::conflict_error("unwind expired"));
        }
        match check_unwindable(state, flagged) {
            Ok(()) => {},
            Err(e) => return UnwindStep::Refuse(e),
        }
        self.reverse(state, facts)
    }

    /// Plans the reversal once dual control has been passed.
    fn reverse(&self, state: MarketState, facts: &UnwindFacts) -> (r: UnwindStep)
        ensures
            r@ == reverse_step(state, self.policy, *facts),
    {
        if state == MarketState::Resolving {
            match facts.resolution_paid {
                None => return UnwindStep::Need(UnwindNeed::ResolutionTxn),
                Some(paid) => {
                    if paid {
                        return UnwindStep::Refuse(OpsError::App(AppError::IllegalTransition));
                    }
                },
            }
        }
        let outstanding: i64 = match facts.outstanding {
            None => return UnwindStep::Need(UnwindNeed::OpenReceivablesTotal),
            Some(outstanding) => outstanding,
        };
        let cap: i64 = self.policy.receivable_outstanding_cap_micro;
        if outstanding >= cap {
            return UnwindStep::Refuse(OpsError::OverCap { cap_micro: cap });
        }
        let originals = match &facts.originals {
            None => return UnwindStep::Need(UnwindNeed::MarketLedgerTxns),
            Some(originals) => originals,
        };
        let rows = match reversal::negate(originals.as_slice()) {
            Err(e) => return UnwindStep::Refuse(e),
            Ok(rows) => rows,
        };
        proof {
            reversal::lemma_negation_is_unique(rows@, reversal::all_entries(originals@));
        }
        let house = match facts.house {
            None => return UnwindStep::Need(UnwindNeed::HouseAccount),
            Some(house) => house,
        };
        match reversal::plan_reversal(rows.as_slice(), house, facts.cash.as_slice()) {
            ReversalStep::Balance(account) => UnwindStep::Need(UnwindNeed::Balance(account)),
            ReversalStep::Overflow => UnwindStep::Refuse(OpsError::App(AppError::Overflow)),
            ReversalStep::Plan(plan) => match reversal::shortfall_total(
                plan.shortfalls.as_slice(),
            ) {
                Err(e) => UnwindStep::Refuse(OpsError::App(e)),
                Ok(booked) => if outstanding as i128 + booked as i128 > cap as i128 {
                    UnwindStep::Refuse(OpsError::OverCap { cap_micro: cap })
                } else {
                    UnwindStep::Apply(plan)
                },
            },
        }
    }

    /// Rejects a pending proposal; either principal may.
    pub fn reject(&self, cmd: &UnwindCmd, facts: &UnwindFacts) -> (r: UnwindStep)
        ensures
            r@ == reject_step(self.actor@, *cmd, *facts),
    {
        match audit::principal_digest(&self.actor) {
            Ok(_) => {},
            Err(e) => return UnwindStep::Refuse(OpsError::App(e)),
        }
        if !facts.key_serialized {
            return UnwindStep::Need(UnwindNeed::SerializeKey);
        }
        let unwind = match &facts.unwind {
            None => return UnwindStep::Need(UnwindNeed::UnwindForUpdate),
            Some(None) => return UnwindStep::Refuse(audit::conflict_error("no unwind proposed")),
            Some(Some(unwind)) => unwind,
        };
        if unwind.stage != UnwindStage::Proposed {
            return UnwindStep::Refuse(audit::conflict_error("unwind is not pending"));
        }
        let mut rejected = unwind.clone();
        rejected.stage = UnwindStage::Rejected;
        let row = audit::required_audit_for(
            &self.actor,
            "unwind_reject",
            subject_of(cmd.market),
            None,
            None,
            Some(cmd.reason.clone()),
        );
        UnwindStep::Reject(rejected, row)
    }

    /// The authority, the event and the audit row of an applied unwind.
    pub fn applied(
        &self,
        cmd: &UnwindCmd,
        unwind: &MarketUnwind,
        state: MarketState,
        reversal_txn: Option<LedgerTxnId>,
        opened: usize,
    ) -> (r: (MarketUnwind, Event, AdminAction))
        requires
            self.actor@ is Admin,
            opened <= i64::MAX,
        ensures
            r.0@ == (UnwindView {
                stage: UnwindStage::Applied,
                confirmer_token_id: Some(self.actor@->token_digest),
                reversal_txn,
                ..unwind@
            }),
            r.1@ == (EventView {
                event_type: "MarketUnwound"@,
                aggregate_type: "market"@,
                aggregate_id: cmd.market.0,
                payload: JsonView::Object(
                    seq![("market_id"@, JsonView::Text(identity::uuid_text(cmd.market.0)))]
                        + applied_document(reversal_txn, opened as int),
                ),
            }),
            r.2@ == audit::audit_row(
                self.actor@,
                "unwind_confirm"@,
                market_subject(cmd.market),
                Some(state_document(state)),
                Some(JsonView::Object(applied_document(reversal_txn, opened as int))),
                Some(cmd.reason@),
            ),
    {
        let mut settled = unwind.clone();
        settled.stage = UnwindStage::Applied;
        settled.reversal_txn = reversal_txn;
        match &self.actor {
            AdminContext::Admin { token_digest, role: _ } => {
                settled.confirmer_token_id = Some(token_digest.clone());
            },
            AdminContext::Machine => {},
        }
        let mut payload: Vec<(String, Json)> = vec![
            json::member("market_id", Json::Text(identity::format_uuid(cmd.market.0))),
        ];
        let mut rest = applied_members(reversal_txn, opened);
        let ghost first = json::members_view(payload@);
        let ghost second = json::members_view(rest@);
        payload.append(&mut rest);
        proof {
            assert(first =~= seq![("market_id"@, JsonView::Text(identity::uuid_text(cmd.market.0)))]);
            assert(json::members_view(payload@) =~= first + second);
        }
        let event = Event {
            event_type: "MarketUnwound",
            aggregate_type: "market",
            aggregate_id: cmd.market.0,
            payload: Json::object(payload),
        };
        let row = audit::required_audit_for(
            &self.actor,
            "unwind_confirm",
            subject_of(cmd.market),
            Some(state_json(state)),
            Some(Json::object(applied_members(reversal_txn, opened))),
            Some(cmd.reason.clone()),
        );
        (settled, event, row)
    }
}

/// The state that an applied unwind moves a market to, where it moves it: a
/// resolving market is voided, a void one stays.
pub fn tombstone(state: MarketState) -> (r: Result<Option<MarketState>, AppError>)
    requires
        state == MarketState::Voided || state == MarketState::Resolving,
    ensures
        r == Ok::<Option<MarketState>, AppError>(
            if state == MarketState::Resolving {
                Some(MarketState::Voided)
            } else {
                None
            },
        ),
{
    if state == MarketState::Resolving {
        match transition(state, MarketEvent::VoidByAdmin) {
            Ok(voided) => Ok(Some(voided)),
            Err(_) => Err(AppError::IllegalTransition),
        }
    } else {
        Ok(None)
    }
}

/// The receivable of a shortfall and the movement that opens it.
pub fn open_receivable(
    id: u128,
    movement: u128,
    market: MarketId,
    user: UserId,
    shortfall: i64,
    reversal_txn: LedgerTxnId,
    actor: &str,
) -> (r: (Receivable, ReceivableMovement))
    ensures
        r.0 == (Receivable {
            id,
            market,
            user,
            origin_reversal_txn: reversal_txn,
            opened_micro: shortfall,
        }),
        r.1.id == movement,
        r.1.receivable == id,
        r.1.kind == ReceivableMovementKind::Opened,
        r.1.amount_micro == shortfall,
        r.1.actor@ == actor@,
        r.1.cash_txn is None,
        r.1.idempotency_key@ == ledger_key_text(market) + ":recv:"@ + identity::uuid_text(user.0),
{
    let key = text::join3(
        unwind_ledger_key(market).as_str(),
        ":recv:",
        identity::format_uuid(user.0).as_str(),
    );
    (
        Receivable {
            id,
            market,
            user,
            origin_reversal_txn: reversal_txn,
            opened_micro: shortfall,
        },
        ReceivableMovement {
            id: movement,
            receivable: id,
            kind: ReceivableMovementKind::Opened,
            amount_micro: shortfall,
            actor: actor.to_owned(),
            cash_txn: None,
            idempotency_key: key,
        },
    )
}

/// The compensating fact of a position: the opposite of what was realized, where
/// a reversal was posted and something had been realized.
pub open spec fn compensation(
    position: PositionRow,
    market: MarketId,
    reversal_txn: Option<LedgerTxnId>,
    now: Timestamp,
) -> Option<RealizationFact> {
    match reversal_txn {
        Some(ledger_txn) => if position.realized_pnl.0 != 0 {
            Some(
                RealizationFact {
                    user: position.user,
                    market,
                    outcome: position.outcome,
                    source: RealizationSource::Void,
                    realized_delta: MicroUsd((-position.realized_pnl.0) as i64),
                    payout: MicroUsd(0),
                    ledger_txn,
                    created_at: now,
                },
            )
        } else {
            None
        },
        None => None,
    }
}

/// The compensating fact of a position.
pub fn unwind_realization(
    position: &PositionRow,
    market: MarketId,
    reversal_txn: Option<LedgerTxnId>,
    now: Timestamp,
) -> (r: Option<RealizationFact>)
    requires
        position.realized_pnl.0 > i64::MIN,
    ensures
        r == compensation(*position, market, reversal_txn, now),
{
    match reversal_txn {
        Some(ledger_txn) => {
            if position.realized_pnl.0 != 0 {
                Some(
                    RealizationFact {
                        user: position.user,
                        market,
                        outcome: position.outcome,
                        source: RealizationSource::Void,
                        realized_delta: MicroUsd(-position.realized_pnl.0),
                        payout: MicroUsd(0),
                        ledger_txn,
                        created_at: now,
                    },
                )
            } else {
                None
            }
        },
        None => None,
    }
}

/// A position with nothing left in it.
pub fn zeroed(position: &PositionRow) -> (r: PositionRow)
    ensures
        r == (PositionRow {
            user: position.user,
            outcome: position.outcome,
            shares: MicroShares(0),
            cost: MicroUsd(0),
            realized_pnl: MicroUsd(0),
        }),
{
    PositionRow {
        user: position.user,
        outcome: position.outcome,
        shares: MicroShares(0),
        cost: MicroUsd(0),
        realized_pnl: MicroUsd(0),
    }
}

/// The compensating fact undoes what was realized, to the last micro.
pub proof fn law_compensation_cancels_what_was_realized(
    position: PositionRow,
    market: MarketId,
    reversal_txn: Option<LedgerTxnId>,
    now: Timestamp,
)
    requires
        position.realized_pnl.0 > i64::MIN,
    ensures
        compensation(position, market, reversal_txn, now) matches Some(fact)
            ==> fact.realized_delta.0 + position.realized_pnl.0 == 0,
{
}

/// A paid market is never unwound: no proposal and no confirmation gets past
/// its state, whatever else was read.
pub proof fn law_paid_markets_are_never_unwound(
    actor: ActorView,
    policy: OpsPolicy,
    cmd: UnwindCmd,
    facts: UnwindFacts,
)
    requires
        facts.market matches Some(row) && row.0 == MarketState::Paid,
    ensures
        !(propose_step(actor, policy, cmd, facts) is Propose),
        !(confirm_step(actor, policy, cmd, facts) is Apply),
{
}

/// A market is unwound once: an applied authority only ever answers with itself,
/// and a history that holds a reversal is not reversed again.
pub proof fn law_markets_are_unwound_once(
    actor: ActorView,
    policy: OpsPolicy,
    cmd: UnwindCmd,
    facts: UnwindFacts,
    at: int,
)
    requires
        (facts.unwind matches Some(Some(unwind)) && unwind.stage == UnwindStage::Applied) || (
        facts.originals matches Some(originals) && 0 <= at < originals@.len() && originals@[at].kind
            == crate::ledger::TxnKind::Reversal),
    ensures
        !(confirm_step(actor, policy, cmd, facts) is Apply),
        actor is Admin && facts.key_serialized && facts.market is Some && (facts.unwind matches Some(
            Some(unwind),
        ) && unwind.stage == UnwindStage::Applied) ==> confirm_step(actor, policy, cmd, facts)
            == UnwindVerdict::Replay,
{
    if let Some(originals) = facts.originals {
        if 0 <= at < originals@.len() && originals@[at].kind == crate::ledger::TxnKind::Reversal {
            reversal::law_history_is_reversed_once(originals@, at);
        }
    }
}

/// Two principals and the delay: whatever is applied was proposed by another
/// token, is confirmed after the delay and before it expires, on a market that
/// may be unwound and whose resolution was not paid. What it books does not take
/// the open receivables past their cap.
pub proof fn law_applied_unwinds_passed_dual_control(
    actor: ActorView,
    policy: OpsPolicy,
    cmd: UnwindCmd,
    facts: UnwindFacts,
)
    requires
        confirm_step(actor, policy, cmd, facts) is Apply,
    ensures
        actor is Admin,
        facts.unwind matches Some(Some(unwind)) && unwind.stage == UnwindStage::Proposed
            && unwind.proposer_token_id@ != actor->token_digest && (facts.now matches Some(now)
            && unwind.confirm_not_before.0 <= now.0 <= unwind.confirm_not_before.later(
            policy.proposal_ttl_secs as int,
        ).0),
        facts.market matches Some(row) && unwindable(row.0, row.1) && (row.0
            == MarketState::Resolving ==> facts.resolution_paid == Some(false)),
        facts.outstanding matches Some(n) && n < policy.receivable_outstanding_cap_micro && n
            + reversal::shortfall_sum(confirm_step(actor, policy, cmd, facts)->shortfalls)
            <= policy.receivable_outstanding_cap_micro,
{
}

/// Only a void market, or one that a curator has flagged while it resolves, may be
/// unwound.
pub proof fn law_which_markets_may_be_unwound(state: MarketState, curator_flagged: bool)
    ensures
        unwindable(state, curator_flagged) <==> state == MarketState::Voided || (state
            == MarketState::Resolving && curator_flagged),
        !unwindable(MarketState::Live, curator_flagged),
        !unwindable(MarketState::Paid, curator_flagged),
        !unwindable(MarketState::Resolved, curator_flagged),
{
}

/// What a proposed unwind rests on and stores: a market that may be unwound and
/// has no authority yet; it may be confirmed once the dual-control delay has
/// passed.
pub proof fn law_what_a_proposed_unwind_stores(
    actor: ActorView,
    policy: OpsPolicy,
    cmd: UnwindCmd,
    facts: UnwindFacts,
)
    requires
        facts.proposable(policy),
    ensures
        propose_step(actor, policy, cmd, facts) matches UnwindVerdict::Propose(unwind, row) ==> (
        actor matches ActorView::Admin { token_digest, role } && unwind.proposer_token_id
            == token_digest && row.actor_token_digest == token_digest && row.actor_role == role)
            && (facts.market matches Some(read) && (read.0 == MarketState::Voided || (read.0
            == MarketState::Resolving && read.1))) && (facts.unwind matches Some(None))
            && unwind.market == cmd.market && unwind.stage == UnwindStage::Proposed
            && unwind.confirmer_token_id is None && unwind.reversal_txn is None && unwind.reason
            == cmd.reason@ && (facts.now matches Some(now) && unwind.confirm_not_before.0 == now.0
            + 1_000_000_000 * policy.dual_control_delay_secs) && row.action == "unwind_propose"@
            && row.reason == Some(cmd.reason@),
        actor is Admin && facts.key_serialized && facts.market == Some(
            (MarketState::Voided, false),
        ) && (facts.unwind matches Some(None)) && facts.now is Some ==> propose_step(
            actor,
            policy,
            cmd,
            facts,
        ) is Propose,
{
}

/// When a pending unwind expires and when it may go on: from the end of the delay
/// to the end of the window, by another principal than the proposer.
pub proof fn law_when_an_unwind_may_be_confirmed(
    digest: Seq<char>,
    role: crate::model::AdminRole,
    policy: OpsPolicy,
    cmd: UnwindCmd,
    facts: UnwindFacts,
    unwind: MarketUnwind,
    now: Timestamp,
    state: MarketState,
    flagged: bool,
)
    requires
        facts.confirmable(policy),
        facts.key_serialized,
        facts.market == Some((state, flagged)),
        facts.unwind == Some(Some(unwind)),
        unwind.stage == UnwindStage::Proposed,
        facts.now == Some(now),
    ensures
        ({
            let actor = ActorView::Admin { token_digest: digest, role };
            let step = confirm_step(actor, policy, cmd, facts);
            let from = unwind.confirm_not_before.0;
            let until = from + 1_000_000_000 * policy.proposal_ttl_secs;
            &&& digest == unwind.proposer_token_id@ ==> step is Refuse
            &&& now.0 < from ==> step is Refuse
            &&& digest != unwind.proposer_token_id@ && now.0 >= from ==> (step is Expire <==> now.0
                > until)
            &&& step matches UnwindVerdict::Expire(gone, row, f) ==> gone.stage
                == UnwindStage::Expired && gone.market == unwind.market
            &&& digest != unwind.proposer_token_id@ && from <= now.0 && now.0 <= until && !(state
                == MarketState::Voided || (state == MarketState::Resolving && flagged)) ==> step
                == UnwindVerdict::Refuse(OpsFault::App(Fault::IllegalTransition))
            &&& digest != unwind.proposer_token_id@ && from <= now.0 && now.0 <= until && state
                == MarketState::Resolving && flagged && facts.resolution_paid == Some(true) ==> step
                == UnwindVerdict::Refuse(OpsFault::App(Fault::IllegalTransition))
        }),
{
}

/// A planned reversal is applied exactly where the shortfalls that it books keep
/// the open receivables within their cap.
pub proof fn law_receivables_stay_within_their_cap(
    policy: OpsPolicy,
    outstanding: i64,
    entries: Seq<Entry>,
    shortfalls: Seq<(UserId, i64)>,
)
    ensures
        ({
            let more = shortfalls.fold_left(0int, |sum: int, s: (UserId, i64)| sum + s.1);
            let step = reversal_verdict(
                policy,
                outstanding,
                reversal::ReversalVerdict::Plan { entries, shortfalls },
            );
            &&& outstanding + more <= policy.receivable_outstanding_cap_micro ==> step
                == (UnwindVerdict::Apply { entries, shortfalls })
            &&& outstanding + more > policy.receivable_outstanding_cap_micro ==> step
                == UnwindVerdict::Refuse(
                OpsFault::OverCap { cap_micro: policy.receivable_outstanding_cap_micro as int },
            )
        }),
{
    reversal::law_shortfalls_are_summed(shortfalls);
}

/// Receivables that already reach their cap stop every further unwind, before its
/// history is even read.
pub proof fn law_full_receivables_stop_every_unwind(
    policy: OpsPolicy,
    facts: UnwindFacts,
    outstanding: i64,
)
    requires
        facts.outstanding == Some(outstanding),
    ensures
        outstanding >= policy.receivable_outstanding_cap_micro ==> reverse_step(
            MarketState::Voided,
            policy,
            facts,
        ) == UnwindVerdict::Refuse(
            OpsFault::OverCap { cap_micro: policy.receivable_outstanding_cap_micro as int },
        ),
        outstanding < policy.receivable_outstanding_cap_micro && facts.originals is None
            ==> reverse_step(MarketState::Voided, policy, facts) == UnwindVerdict::Need(
            UnwindNeed::MarketLedgerTxns,
        ),
{
}

/// A pending unwind is rejected by whoever administers; nothing else is.
pub proof fn law_pending_unwinds_are_rejected(
    actor: ActorView,
    cmd: UnwindCmd,
    facts: UnwindFacts,
    unwind: MarketUnwind,
)
    requires
        actor is Admin,
        facts.key_serialized,
        facts.unwind == Some(Some(unwind)),
    ensures
        reject_step(actor, cmd, facts) is Reject <==> unwind.stage == UnwindStage::Proposed,
        reject_step(actor, cmd, facts) matches UnwindVerdict::Reject(gone, row) ==> gone.stage
            == UnwindStage::Rejected && gone.market == unwind.market && gone.proposer_token_id
            == unwind.proposer_token_id@ && row.action == "unwind_reject"@,
{
}

/// A position that had realized something gets the opposite of it, as a void and
/// without a payout, where a reversal was posted.
pub proof fn law_what_a_compensation_says(
    position: PositionRow,
    market: MarketId,
    txn: LedgerTxnId,
    now: Timestamp,
)
    requires
        position.realized_pnl.0 > i64::MIN,
    ensures
        compensation(position, market, None, now) is None,
        compensation(position, market, Some(txn), now) is None <==> position.realized_pnl.0 == 0,
        compensation(position, market, Some(txn), now) matches Some(fact) ==> fact.user
            == position.user && fact.outcome == position.outcome && fact.market == market
            && fact.source == RealizationSource::Void && fact.payout.0 == 0
            && fact.realized_delta.0 == -position.realized_pnl.0 && fact.ledger_txn == txn
            && fact.created_at == now,
{
}

} // verus!
