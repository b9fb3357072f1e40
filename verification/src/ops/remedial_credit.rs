//! Remedial credits: discretionary transfers of the house to a user, under the
//! same control as an unwind. Two principals, a delay, a mandatory reason, two
//! audit rows, a cap per market and a cap per day; nothing for accounts linked
//! to either principal. A remedial credit is no refund.

use crate::clock;
use crate::clock::Timestamp;
use crate::error;
use crate::error::{AppError, Fault, StoreError, StoreFault};
use crate::identity;
use crate::json;
use crate::json::{Json, JsonView};
use crate::ledger;
use crate::ledger::{AccountId, Entry};
use crate::model::{
    ActionView, ActorView, AdminAction, AdminContext, Event, EventView, LedgerTxnId, MarketId,
    ProposalStatus, UserId,
};
use crate::money::MicroUsd;
use crate::ops::audit;
use crate::ops::audit::{OpsError, OpsFault, OpsPolicy};
use crate::ops::unwind_market;
use crate::text;
use vstd::prelude::*;

verus! {

/// The channel on which a principal's account carries the principal's digest.
pub const ADMIN_CHANNEL: &'static str = "admin";

/// A request about one remedial credit.
#[derive(Debug, Clone, PartialEq, Eq)]
pub struct RemedialCreditCmd {
    pub market: MarketId,
    pub user: UserId,
    pub amount_micro: i64,
    pub reason: String,
    pub idempotency_key: String,
}

/// A proposed remedial credit.
#[derive(Debug, PartialEq, Eq)]
pub struct RemedialCreditProposal {
    pub id: u128,
    pub market: MarketId,
    pub user: UserId,
    pub idempotency_key: String,
    pub amount_micro: i64,
    pub proposer_token_id: String,
    pub confirmer_token_id: Option<String>,
    pub reason: String,
    pub status: ProposalStatus,
    pub confirm_not_before: Timestamp,
}

/// A proposed remedial credit, as plain values.
pub struct CreditView {
    pub id: u128,
    pub market: MarketId,
    pub user: UserId,
    pub idempotency_key: Seq<char>,
    pub amount_micro: i64,
    pub proposer_token_id: Seq<char>,
    pub confirmer_token_id: Option<Seq<char>>,
    pub reason: Seq<char>,
    pub status: ProposalStatus,
    pub confirm_not_before: Timestamp,
}

impl View for RemedialCreditProposal {
    type V = CreditView;

    open spec fn view(&self) -> CreditView {
        CreditView {
            id: self.id,
            market: self.market,
            user: self.user,
            idempotency_key: self.idempotency_key@,
            amount_micro: self.amount_micro,
            proposer_token_id: self.proposer_token_id@,
            confirmer_token_id: text::option_view(self.confirmer_token_id),
            reason: self.reason@,
            status: self.status,
            confirm_not_before: self.confirm_not_before,
        }
    }
}

impl Clone for RemedialCreditProposal {
    fn clone(&self) -> (r: Self)
        ensures
            r@ == self@,
    {
        RemedialCreditProposal {
            id: self.id,
            market: self.market,
            user: self.user,
            idempotency_key: self.idempotency_key.clone(),
            amount_micro: self.amount_micro,
            proposer_token_id: self.proposer_token_id.clone(),
            confirmer_token_id: text::clone_option(&self.confirmer_token_id),
            reason: self.reason.clone(),
            status: self.status,
            confirm_not_before: self.confirm_not_before,
        }
    }
}

/// Who grants, under which policy.
#[derive(Debug, Clone, PartialEq, Eq)]
pub struct RemedialCredit {
    pub policy: OpsPolicy,
    pub actor: AdminContext,
}

/// What a remedial credit has read so far.
#[derive(Debug, PartialEq, Eq)]
pub struct CreditFacts {
    pub key_serialized: bool,
    pub proposal: Option<Option<RemedialCreditProposal>>,
    pub market_locked: bool,
    pub handle: Option<Result<String, StoreError>>,
    /// Who carries the link on [`ADMIN_CHANNEL`] whose address is the acting
    /// principal's digest.
    pub admin_link: Option<Option<UserId>>,
    pub market_credited: Option<i64>,
    pub now: Option<Timestamp>,
    pub credited_since_day_start: Option<i64>,
    /// A fresh identity for a new proposal.
    pub fresh_id: Option<u128>,
}

impl CreditFacts {
    /// Nothing read yet.
    pub fn new() -> (r: Self)
        ensures
            !r.key_serialized && r.proposal is None && !r.market_locked && r.handle is None
                && r.admin_link is None && r.market_credited is None && r.now is None && r.credited_since_day_start is None
                && r.fresh_id is None,
    {
        CreditFacts {
            key_serialized: false,
            proposal: None,
            market_locked: false,
            handle: None,
            admin_link: None,
            market_credited: None,
            now: None,
            credited_since_day_start: None,
            fresh_id: None,
        }
    }

    /// What is proposed may be confirmed within the calendar.
    pub open spec fn proposable(&self, policy: OpsPolicy) -> bool {
        self.now matches Some(now) ==> policy.delay_fits(now)
    }

    /// The time lies within the calendar, and so does the expiry of what is
    /// pending.
    pub open spec fn confirmable(&self, policy: OpsPolicy) -> bool {
        &&& self.now matches Some(now) ==> now.wf()
        &&& self.proposal matches Some(Some(proposal)) ==> (proposal.status
            == ProposalStatus::Pending ==> policy.window_fits(proposal.confirm_not_before))
    }
}

/// What a remedial credit reads or does next.
#[derive(Debug, Clone, Copy, PartialEq, Eq, Structural)]
pub enum CreditNeed {
    SerializeKey,
    ProposalByKey,
    MarketForUpdate,
    Handle(UserId),
    /// Who carries the link on [`ADMIN_CHANNEL`] whose address is the acting
    /// principal's digest.
    AdminLink,
    CreditedForMarket(MarketId),
    Now,
    CreditedSince(Timestamp),
    FreshId,
}

/// What becomes of a remedial credit next.
#[derive(Debug, PartialEq, Eq)]
pub enum CreditStep {
    Need(CreditNeed),
    Refuse(OpsError),
    /// The stored proposal is the answer.
    Replay,
    /// Store this proposal with its audit row.
    Propose(RemedialCreditProposal, AdminAction),
    /// Store the expired proposal, then refuse with the error.
    Expire(RemedialCreditProposal, OpsError),
    /// Post the transfer of the stored proposal.
    Grant,
}

/// What becomes of a remedial credit next, as plain values.
pub enum CreditVerdict {
    Need(CreditNeed),
    Refuse(OpsFault),
    Replay,
    Propose(CreditView, ActionView),
    Expire(CreditView, OpsFault),
    Grant,
}

impl View for CreditStep {
    type V = CreditVerdict;

    open spec fn view(&self) -> CreditVerdict {
        match self {
            CreditStep::Need(n) => CreditVerdict::Need(*n),
            CreditStep::Refuse(e) => CreditVerdict::Refuse(e@),
            CreditStep::Replay => CreditVerdict::Replay,
            CreditStep::Propose(proposal, row) => CreditVerdict::Propose(proposal@, row@),
            CreditStep::Expire(proposal, e) => CreditVerdict::Expire(proposal@, e@),
            CreditStep::Grant => CreditVerdict::Grant,
        }
    }
}

/// What a failed lookup of a handle is answered with: a missing user is named
/// as one.
pub open spec fn handle_fault(error: StoreFault) -> Fault {
    match error {
        StoreFault::NotFound(_) => Fault::Store(StoreFault::NotFound("user"@)),
        other => Fault::Store(other),
    }
}

/// Names a missing user as one, and keeps every other failure.
///
/// # Errors
///
/// The store's.
pub fn normalize_handle_result(result: Result<String, StoreError>) -> (r: Result<String, AppError>)
    ensures
        match result {
            Ok(handle) => r == Ok::<String, AppError>(handle),
            Err(e) => error::failed(r, handle_fault(e@)),
        },
{
    match result {
        Ok(handle) => Ok(handle),
        Err(StoreError::NotFound(_)) => Err(AppError::Store(StoreError::NotFound("user"))),
        Err(e) => Err(AppError::Store(e)),
    }
}

/// Whether a target is linked to a principal: it carries the admin link of the
/// principal's digest, or its handle is that digest.
pub open spec fn linkage(
    handle: Result<String, StoreError>,
    link: Option<UserId>,
    user: UserId,
    digest: Seq<char>,
) -> Result<bool, Fault> {
    match handle {
        Ok(h) => Ok(h@ == digest || link == Some(user)),
        Err(e) => Err(handle_fault(e@)),
    }
}

/// Whether a target is linked to a principal.
pub fn linked_to_principal(
    handle: &Result<String, StoreError>,
    link: Option<UserId>,
    user: UserId,
    digest: &str,
) -> (r: Result<bool, AppError>)
    ensures
        match linkage(*handle, link, user, digest@) {
            Ok(linked) => r == Ok::<bool, AppError>(linked),
            Err(f) => error::failed(r, f),
        },
{
    let copy = match handle {
        Ok(h) => Ok(h.clone()),
        Err(e) => Err(e.clone()),
    };
    match normalize_handle_result(copy) {
        Ok(h) => {
            let carries = match link {
                Some(carrier) => carrier == user,
                None => false,
            };
            Ok(text::same_text(h.as_str(), digest) || carries)
        },
        Err(e) => Err(e),
    }
}

/// What stops a credit on account of its target, if anything does: a reading
/// that is still owed, an unknown target, or a linked one.
pub open spec fn target_stop(
    user: UserId,
    digest: Seq<char>,
    facts: CreditFacts,
) -> Option<CreditVerdict> {
    match (facts.handle, facts.admin_link) {
        (None, _) => Some(CreditVerdict::Need(CreditNeed::Handle(user))),
        (Some(Ok(_)), None) => Some(CreditVerdict::Need(CreditNeed::AdminLink)),
        (Some(handle), link) => match linkage(
            handle,
            match link {
                Some(carrier) => carrier,
                None => None,
            },
            user,
            digest,
        ) {
            Err(f) => Some(CreditVerdict::Refuse(OpsFault::App(f))),
            Ok(true) => Some(CreditVerdict::Refuse(linked_conflict())),
            Ok(false) => None,
        },
    }
}

/// Checks the target of a credit.
fn check_target(user: UserId, digest: &str, facts: &CreditFacts) -> (r: Option<CreditStep>)
    ensures
        match target_stop(user, digest@, *facts) {
            Some(v) => r matches Some(step) && step@ == v,
            None => r is None,
        },
{
    let handle = match &facts.handle {
        None => return Some(CreditStep::Need(CreditNeed::Handle(user))),
        Some(handle) => handle,
    };
    if handle.is_ok() && facts.admin_link.is_none() {
        return Some(CreditStep::Need(CreditNeed::AdminLink));
    }
    let link = match facts.admin_link {
        Some(carrier) => carrier,
        None => None,
    };
    match linked_to_principal(handle, link, user, digest) {
        Err(e) => Some(CreditStep::Refuse(OpsError::App(e))),
        Ok(true) => Some(
            CreditStep::Refuse(
                audit::conflict_error("credit target is linked to a dual-control principal"),
            ),
        ),
        Ok(false) => None,
    }
}

/// The sum of what was credited and of one more credit, held at its type's
/// bounds.
pub open spec fn with_credit(credited: i64, amount: i64) -> int {
    let sum = credited + amount;
    if sum > i64::MAX {
        i64::MAX as int
    } else if sum < i64::MIN {
        i64::MIN as int
    } else {
        sum
    }
}

/// Who gets how much, as audit rows hold it.
pub open spec fn credit_document(user: UserId, amount_micro: i64) -> json::Members {
    seq![
        ("user_id"@, JsonView::Text(identity::uuid_text(user.0))),
        ("amount_micro"@, JsonView::Int(amount_micro as int)),
    ]
}

fn credit_members(user: UserId, amount_micro: i64) -> (r: Vec<(String, Json)>)
    ensures
        json::members_view(r@) == credit_document(user, amount_micro),
{
    let members: Vec<(String, Json)> = vec![
        json::member("user_id", Json::Text(identity::format_uuid(user.0))),
        json::member("amount_micro", Json::Int(amount_micro)),
    ];
    assert(json::members_view(members@) =~= credit_document(user, amount_micro));
    members
}

/// The conflict of a linked target.
pub open spec fn linked_conflict() -> OpsFault {
    audit::conflict("credit target is linked to a dual-control principal"@)
}

/// A stored proposal is the one that a request asks for: the same market, target
/// and amount.
pub open spec fn same_credit(existing: CreditView, cmd: RemedialCreditCmd) -> bool {
    existing.market == cmd.market && existing.user == cmd.user && existing.amount_micro
        == cmd.amount_micro
}

/// The conflict of a key that another credit was proposed under.
pub open spec fn duplicate_conflict() -> OpsFault {
    audit::conflict("idempotency key was reused with a different credit"@)
}

/// The proposal that is stored.
pub open spec fn proposed_credit(
    id: u128,
    proposer: Seq<char>,
    policy: OpsPolicy,
    cmd: RemedialCreditCmd,
    now: Timestamp,
) -> CreditView {
    CreditView {
        id,
        market: cmd.market,
        user: cmd.user,
        idempotency_key: cmd.idempotency_key@,
        amount_micro: cmd.amount_micro,
        proposer_token_id: proposer,
        confirmer_token_id: None,
        reason: cmd.reason@,
        status: ProposalStatus::Pending,
        confirm_not_before: now.later(policy.dual_control_delay_secs as int),
    }
}

/// The step of a new proposal once its key is known to be new.
pub open spec fn new_credit_step(
    actor: ActorView,
    policy: OpsPolicy,
    cmd: RemedialCreditCmd,
    facts: CreditFacts,
) -> CreditVerdict {
    if !facts.market_locked {
        CreditVerdict::Need(CreditNeed::MarketForUpdate)
    } else {
        match target_stop(cmd.user, actor->token_digest, facts) {
            Some(stop) => stop,
            None => match facts.market_credited {
                None => CreditVerdict::Need(CreditNeed::CreditedForMarket(cmd.market)),
                Some(credited) => if with_credit(credited, cmd.amount_micro)
                    > policy.remedial_market_cap_micro {
                    CreditVerdict::Refuse(
                        OpsFault::OverCap { cap_micro: policy.remedial_market_cap_micro as int },
                    )
                } else {
                    match (facts.now, facts.fresh_id) {
                        (None, _) => CreditVerdict::Need(CreditNeed::Now),
                        (_, None) => CreditVerdict::Need(CreditNeed::FreshId),
                        (Some(now), Some(id)) => CreditVerdict::Propose(
                            proposed_credit(id, actor->token_digest, policy, cmd, now),
                            audit::audit_row(
                                actor,
                                "remedial_credit_propose"@,
                                unwind_market::market_subject(cmd.market),
                                None,
                                Some(
                                    JsonView::Object(credit_document(cmd.user, cmd.amount_micro)),
                                ),
                                Some(cmd.reason@),
                            ),
                        ),
                    }
                },
            },
        }
    }
}

/// What becomes of a proposal after what was read so far.
pub open spec fn propose_credit_step(
    actor: ActorView,
    policy: OpsPolicy,
    cmd: RemedialCreditCmd,
    facts: CreditFacts,
) -> CreditVerdict {
    if actor is Machine {
        CreditVerdict::Refuse(audit::conflict("machine actor"@))
    } else if cmd.amount_micro <= 0 {
        CreditVerdict::Refuse(OpsFault::InvalidAmount)
    } else if !facts.key_serialized {
        CreditVerdict::Need(CreditNeed::SerializeKey)
    } else {
        match facts.proposal {
            None => CreditVerdict::Need(CreditNeed::ProposalByKey),
            Some(Some(existing)) => if same_credit(existing@, cmd) {
                CreditVerdict::Replay
            } else {
                CreditVerdict::Refuse(duplicate_conflict())
            },
            Some(None) => new_credit_step(actor, policy, cmd, facts),
        }
    }
}

/// The step after dual control has been passed: linkage and both caps again.
pub open spec fn grant_step(
    confirmer: Seq<char>,
    policy: OpsPolicy,
    proposal: CreditView,
    now: Timestamp,
    facts: CreditFacts,
) -> CreditVerdict {
    match target_stop(proposal.user, confirmer, facts) {
        Some(stop) => stop,
        None => match facts.market_credited {
            None => CreditVerdict::Need(CreditNeed::CreditedForMarket(proposal.market)),
            Some(credited) => if with_credit(credited, proposal.amount_micro)
                > policy.remedial_market_cap_micro {
                CreditVerdict::Refuse(
                    OpsFault::OverCap { cap_micro: policy.remedial_market_cap_micro as int },
                )
            } else {
                match facts.credited_since_day_start {
                    None => CreditVerdict::Need(
                        CreditNeed::CreditedSince(clock::day_start_of(now)),
                    ),
                    Some(today) => if with_credit(today, proposal.amount_micro)
                        > policy.remedial_daily_cap_micro {
                        CreditVerdict::Refuse(
                            OpsFault::OverCap { cap_micro: policy.remedial_daily_cap_micro as int },
                        )
                    } else {
                        CreditVerdict::Grant
                    },
                }
            },
        },
    }
}

/// What becomes of a confirmation after what was read so far.
pub open spec fn confirm_credit_step(
    actor: ActorView,
    policy: OpsPolicy,
    facts: CreditFacts,
) -> CreditVerdict {
    match actor {
        ActorView::Machine => CreditVerdict::Refuse(audit::conflict("machine actor"@)),
        ActorView::Admin { token_digest, role } => if !facts.key_serialized {
            CreditVerdict::Need(CreditNeed::SerializeKey)
        } else {
            match facts.proposal {
                None => CreditVerdict::Need(CreditNeed::ProposalByKey),
                Some(None) => CreditVerdict::Refuse(
                    audit::conflict("no remedial credit proposed"@),
                ),
                Some(Some(proposal)) => if proposal.status == ProposalStatus::Confirmed {
                    CreditVerdict::Replay
                } else if proposal.status != ProposalStatus::Pending {
                    CreditVerdict::Refuse(audit::conflict("remedial credit is not pending"@))
                } else if proposal.proposer_token_id@ == token_digest {
                    CreditVerdict::Refuse(
                        audit::conflict("confirm requires a distinct principal"@),
                    )
                } else {
                    match facts.now {
                        None => CreditVerdict::Need(CreditNeed::Now),
                        Some(now) => if now.0 < proposal.confirm_not_before.0 {
                            CreditVerdict::Refuse(
                                audit::conflict("dual-control delay has not elapsed"@),
                            )
                        } else if now.0 > proposal.confirm_not_before.later(
                            policy.proposal_ttl_secs as int,
                        ).0 {
                            CreditVerdict::Expire(
                                CreditView { status: ProposalStatus::Expired, ..proposal@ },
                                audit::conflict("remedial credit expired"@),
                            )
                        } else {
                            grant_step(token_digest, policy, proposal@, now, facts)
                        },
                    }
                },
            }
        },
    }
}

/// The key that serializes a credit, and under which it is posted.
pub open spec fn credit_key_text(market: MarketId, client_key: Seq<char>) -> Seq<char> {
    "remedial:"@ + identity::uuid_text(market.0) + ":"@ + client_key
}

/// The key that serializes a credit, and under which it is posted.
pub fn credit_key(market: MarketId, client_key: &str) -> (r: String)
    ensures
        r@ == credit_key_text(market, client_key@),
{
    let prefix = text::join3("remedial:", identity::format_uuid(market.0).as_str(), ":");
    text::join2(prefix.as_str(), client_key)
}

fn capped_sum(credited: i64, amount: i64) -> (r: i64)
    ensures
        r == with_credit(credited, amount),
{
    let sum: i128 = credited as i128 + amount as i128;
    if sum > i64::MAX as i128 {
        i64::MAX
    } else if sum < i64::MIN as i128 {
        i64::MIN
    } else {
        sum as i64
    }
}

impl RemedialCredit {
    /// First stage: proposes a credit.
    pub fn propose(&self, cmd: &RemedialCreditCmd, facts: &CreditFacts) -> (r: CreditStep)
        requires
            facts.proposable(self.policy),
        ensures
            r@ == propose_credit_step(self.actor@, self.policy, *cmd, *facts),
    {
        let proposer = match audit::principal_digest(&self.actor) {
            Ok(digest) => digest,
            Err(e) => return CreditStep::Refuse(OpsError::App(e)),
        };
        if cmd.amount_micro <= 0 {
            return CreditStep::Refuse(OpsError::InvalidAmount);
        }
        if !facts.key_serialized {
            return CreditStep::Need(CreditNeed::SerializeKey);
        }
        match &facts.proposal {
            None => return CreditStep::Need(CreditNeed::ProposalByKey),
            Some(Some(existing)) => {
                if existing.market == cmd.market && existing.user == cmd.user
                    && existing.amount_micro == cmd.amount_micro {
                    return CreditStep::Replay;
                }
                return CreditStep::Refuse(
                    audit::conflict_error("idempotency key was reused with a different credit"),
                );
            },
            Some(None) => {},
        }
        if !facts.market_locked {
            return CreditStep::Need(CreditNeed::MarketForUpdate);
        }
        if let Some(stop) = check_target(cmd.user, proposer, facts) {
            return stop;
        }
        let credited: i64 = match facts.market_credited {
            None => return CreditStep::Need(CreditNeed::CreditedForMarket(cmd.market)),
            Some(credited) => credited,
        };
        if capped_sum(credited, cmd.amount_micro) > self.policy.remedial_market_cap_micro {
            return CreditStep::Refuse(
                OpsError::OverCap { cap_micro: self.policy.remedial_market_cap_micro },
            );
        }
        let now = match facts.now {
            None => return CreditStep::Need(CreditNeed::Now),
            Some(now) => now,
        };
        let id: u128 = match facts.fresh_id {
            None => return CreditStep::Need(CreditNeed::FreshId),
            Some(id) => id,
        };
        let proposal = RemedialCreditProposal {
            id,
            market: cmd.market,
            user: cmd.user,
            idempotency_key: cmd.idempotency_key.clone(),
            amount_micro: cmd.amount_micro,
            proposer_token_id: proposer.to_owned(),
            confirmer_token_id: None,
            reason: cmd.reason.clone(),
            status: ProposalStatus::Pending,
            confirm_not_before: self.policy.confirm_not_before(now),
        };
        let row = audit::required_audit_for(
            &self.actor,
            "remedial_credit_propose",
            unwind_market::subject_of(cmd.market),
            None,
            Some(Json::object(credit_members(cmd.user, cmd.amount_micro))),
            Some(cmd.reason.clone()),
        );
        CreditStep::Propose(proposal, row)
    }

    /// Second stage: a distinct principal confirms, and linkage and both caps
    /// are checked again.
    pub fn confirm(&self, facts: &CreditFacts) -> (r: CreditStep)
        requires
            facts.confirmable(self.policy),
        ensures
            r@ == confirm_credit_step(self.actor@, self.policy, *facts),
    {
        let confirmer = match audit::principal_digest(&self.actor) {
            Ok(digest) => digest,
            Err(e) => return CreditStep::Refuse(OpsError::App(e)),
        };
        if !facts.key_serialized {
            return CreditStep::Need(CreditNeed::SerializeKey);
        }
        let proposal = match &facts.proposal {
            None => return CreditStep::Need(CreditNeed::ProposalByKey),
            Some(None) => return CreditStep::Refuse(
                audit::conflict_error("no remedial credit proposed"),
            ),
            Some(Some(proposal)) => proposal,
        };
        if proposal.status == ProposalStatus::Confirmed {
            return CreditStep::Replay;
        }
        if proposal.status != ProposalStatus::Pending {
            return CreditStep::Refuse(audit::conflict_error("remedial credit is not pending"));
        }
        if text::same_text(proposal.proposer_token_id.as_str(), confirmer) {
            return CreditStep::Refuse(
                audit::conflict_error("confirm requires a distinct principal"),
            );
        }
        let now = match facts.now {
            None => return CreditStep::Need(CreditNeed::Now),
            Some(now) => now,
        };
        if now.before(proposal.confirm_not_before) {
            return CreditStep::Refuse(audit::conflict_error("dual-control delay has not elapsed"));
        }
        if self.policy.expires_at(proposal.confirm_not_before).before(now) {
            let mut expired = proposal.clone();
            expired.status = ProposalStatus::Expired;
            return CreditStep::Expire(expired, audit::conflict_error("remedial credit expired"));
        }
        if let Some(stop) = check_target(proposal.user, confirmer, facts) {
            return stop;
        }
        let credited: i64 = match facts.market_credited {
            None => return CreditStep::Need(CreditNeed::CreditedForMarket(proposal.market)),
            Some(credited) => credited,
        };
        if capped_sum(credited, proposal.amount_micro) > self.policy.remedial_market_cap_micro {
            return CreditStep::Refuse(
                OpsError::OverCap { cap_micro: self.policy.remedial_market_cap_micro },
            );
        }
        let today: i64 = match facts.credited_since_day_start {
            None => return CreditStep::Need(CreditNeed::CreditedSince(clock::day_start(now))),
            Some(today) => today,
        };
        if capped_sum(today, proposal.amount_micro) > self.policy.remedial_daily_cap_micro {
            return CreditStep::Refuse(
                OpsError::OverCap { cap_micro: self.policy.remedial_daily_cap_micro },
            );
        }
        CreditStep::Grant
    }

    /// The proposal, the event and the audit row of a granted credit.
    pub fn granted(
        &self,
        cmd: &RemedialCreditCmd,
        proposal: &RemedialCreditProposal,
        ledger_txn: LedgerTxnId,
    ) -> (r: (RemedialCreditProposal, Event, AdminAction))
        requires
            self.actor@ is Admin,
        ensures
            r.0@ == (CreditView {
                status: ProposalStatus::Confirmed,
                confirmer_token_id: Some(self.actor@->token_digest),
                ..proposal@
            }),
            r.1@ == (EventView {
                event_type: "RemedialCreditGranted"@,
                aggregate_type: "market"@,
                aggregate_id: proposal.market.0,
                payload: JsonView::Object(
                    seq![("market_id"@, JsonView::Text(identity::uuid_text(proposal.market.0)))]
                        + grant_document(proposal@, ledger_txn),
                ),
            }),
            r.2@ == audit::audit_row(
                self.actor@,
                "remedial_credit_confirm"@,
                unwind_market::market_subject(proposal.market),
                None,
                Some(JsonView::Object(grant_document(proposal@, ledger_txn))),
                Some(cmd.reason@),
            ),
    {
        let mut settled = proposal.clone();
        settled.status = ProposalStatus::Confirmed;
        match &self.actor {
            AdminContext::Admin { token_digest, role: _ } => {
                settled.confirmer_token_id = Some(token_digest.clone());
            },
            AdminContext::Machine => {},
        }
        let mut payload: Vec<(String, Json)> = vec![
            json::member("market_id", Json::Text(identity::format_uuid(proposal.market.0))),
        ];
        let mut rest = grant_members(proposal, ledger_txn);
        let ghost first = json::members_view(payload@);
        let ghost second = json::members_view(rest@);
        payload.append(&mut rest);
        proof {
            assert(first =~= seq![
                ("market_id"@, JsonView::Text(identity::uuid_text(proposal.market.0))),
            ]);
            assert(json::members_view(payload@) =~= first + second);
        }
        let event = Event {
            event_type: "RemedialCreditGranted",
            aggregate_type: "market",
            aggregate_id: proposal.market.0,
            payload: Json::object(payload),
        };
        let row = audit::required_audit_for(
            &self.actor,
            "remedial_credit_confirm",
            unwind_market::subject_of(proposal.market),
            None,
            Some(Json::object(grant_members(proposal, ledger_txn))),
            Some(cmd.reason.clone()),
        );
        (settled, event, row)
    }
}

/// What a granted credit announces and audits.
pub open spec fn grant_document(proposal: CreditView, ledger_txn: LedgerTxnId) -> json::Members {
    credit_document(proposal.user, proposal.amount_micro).push(
        ("ledger_txn"@, JsonView::Text(identity::uuid_text(ledger_txn.0))),
    )
}

fn grant_members(proposal: &RemedialCreditProposal, ledger_txn: LedgerTxnId) -> (r: Vec<
    (String, Json),
>)
    ensures
        json::members_view(r@) == grant_document(proposal@, ledger_txn),
{
    let mut members = credit_members(proposal.user, proposal.amount_micro);
    let ghost before = json::members_view(members@);
    members.push(json::member("ledger_txn", Json::Text(identity::format_uuid(ledger_txn.0))));
    assert(json::members_view(members@) =~= before.push(
        ("ledger_txn"@, JsonView::Text(identity::uuid_text(ledger_txn.0))),
    ));
    members
}

/// The entries of a credit: house down, user up.
pub open spec fn credit_entry_list(house: AccountId, user: AccountId, amount_micro: i64) -> Seq<Entry> {
    seq![
        Entry { account: house, amount: MicroUsd((-amount_micro) as i64) },
        Entry { account: user, amount: MicroUsd(amount_micro) },
    ]
}

/// The entries of a credit: house down, user up.
pub fn credit_entries(house: AccountId, user: AccountId, amount_micro: i64) -> (r: Vec<Entry>)
    requires
        amount_micro > 0,
    ensures
        r@ == credit_entry_list(house, user, amount_micro),
        ledger::transaction_error(r@) is None,
{
    let house_delta: i64 = -amount_micro;
    let r = vec![
        Entry { account: house, amount: MicroUsd(house_delta) },
        Entry { account: user, amount: MicroUsd(amount_micro) },
    ];
    proof {
        let list = r@;
        assert(list =~= credit_entry_list(house, user, amount_micro));
        let one = list.drop_last();
        assert(one.drop_last() =~= Seq::<Entry>::empty());
        assert(ledger::entries_sum(Seq::<Entry>::empty()) == 0);
        assert(ledger::entries_sum(one) == -amount_micro);
        assert(ledger::entries_sum(list) == 0);
        assert(list[0].amount.0 != 0 && list[1].amount.0 != 0);
    }
    r
}

/// Whatever is granted passed dual control and both caps, and its target is not
/// linked to the confirming principal.
pub proof fn law_granted_credits_passed_every_check(
    actor: ActorView,
    policy: OpsPolicy,
    facts: CreditFacts,
)
    requires
        confirm_credit_step(actor, policy, facts) is Grant,
    ensures
        actor is Admin,
        facts.proposal matches Some(Some(proposal)) && proposal.status == ProposalStatus::Pending
            && proposal.proposer_token_id@ != actor->token_digest && (facts.now matches Some(now)
            && proposal.confirm_not_before.0 <= now.0 <= proposal.confirm_not_before.later(
            policy.proposal_ttl_secs as int,
        ).0) && (facts.handle matches Some(Ok(handle)) && handle@ != actor->token_digest) && (
        facts.admin_link matches Some(l) && l != Some(proposal.user)) && (facts.market_credited matches Some(n) && with_credit(n, proposal.amount_micro)
            <= policy.remedial_market_cap_micro) && (facts.credited_since_day_start matches Some(n)
            && with_credit(n, proposal.amount_micro) <= policy.remedial_daily_cap_micro),
{
}

/// Whatever is proposed is for a target that is not linked to the proposing
/// principal, under a key that no credit was proposed under before.
pub proof fn law_proposed_credits_have_unlinked_targets(
    actor: ActorView,
    policy: OpsPolicy,
    cmd: RemedialCreditCmd,
    facts: CreditFacts,
)
    requires
        propose_credit_step(actor, policy, cmd, facts) is Propose,
    ensures
        actor is Admin,
        facts.proposal matches Some(None),
        facts.handle matches Some(Ok(handle)) && handle@ != actor->token_digest,
        facts.admin_link matches Some(l) && l != Some(cmd.user),
{
}

/// A key proposes one credit: the same request replays it, and a request for
/// another market, target or amount is a conflict.
pub proof fn law_credit_key_is_used_once(
    actor: ActorView,
    policy: OpsPolicy,
    cmd: RemedialCreditCmd,
    facts: CreditFacts,
)
    requires
        actor is Admin,
        cmd.amount_micro > 0,
        facts.key_serialized,
        facts.proposal matches Some(stored) && stored is Some,
    ensures
        same_credit(facts.proposal.unwrap().unwrap()@, cmd) ==> propose_credit_step(
            actor,
            policy,
            cmd,
            facts,
        ) is Replay,
        !same_credit(facts.proposal.unwrap().unwrap()@, cmd) ==> propose_credit_step(
            actor,
            policy,
            cmd,
            facts,
        ) == CreditVerdict::Refuse(duplicate_conflict()),
{
}

/// A confirmed credit is never granted again: confirming it once more replays.
pub proof fn law_credit_is_granted_once(actor: ActorView, policy: OpsPolicy, facts: CreditFacts)
    requires
        actor is Admin,
        facts.key_serialized,
        facts.proposal matches Some(Some(proposal)) && proposal.status == ProposalStatus::Confirmed,
    ensures
        confirm_credit_step(actor, policy, facts) is Replay,
{
}

/// What a proposed credit rests on and holds: a positive amount that keeps the
/// market within its cap, for a target that is not the proposer, pending until the
/// dual-control delay has passed.
pub proof fn law_what_a_proposed_credit_holds(
    actor: ActorView,
    policy: OpsPolicy,
    cmd: RemedialCreditCmd,
    facts: CreditFacts,
)
    requires
        facts.proposable(policy),
        policy.remedial_market_cap_micro < i64::MAX,
    ensures
        propose_credit_step(actor, policy, cmd, facts) matches CreditVerdict::Propose(p, row) ==> (
        actor matches ActorView::Admin { token_digest, role } && p.proposer_token_id == token_digest
            && row.actor_token_digest == token_digest && row.actor_role == role) && cmd.amount_micro
            > 0 && p.amount_micro == cmd.amount_micro && p.market == cmd.market && p.user
            == cmd.user && p.reason == cmd.reason@ && p.idempotency_key == cmd.idempotency_key@
            && p.status == ProposalStatus::Pending && p.confirmer_token_id is None && (
        facts.market_credited matches Some(n) && n + cmd.amount_micro
            <= policy.remedial_market_cap_micro) && (facts.now matches Some(now)
            && p.confirm_not_before.0 == now.0 + 1_000_000_000 * policy.dual_control_delay_secs)
            && row.action == "remedial_credit_propose"@ && row.reason == Some(cmd.reason@),
        actor is Admin && cmd.amount_micro <= 0 ==> propose_credit_step(actor, policy, cmd, facts)
            == CreditVerdict::Refuse(OpsFault::InvalidAmount),
{
}

/// A credit within the cap is proposed, and one beyond it is told the cap.
pub proof fn law_credits_within_the_cap_are_proposed(
    digest: Seq<char>,
    role: crate::model::AdminRole,
    policy: OpsPolicy,
    cmd: RemedialCreditCmd,
    facts: CreditFacts,
    handle: String,
    credited: i64,
)
    requires
        cmd.amount_micro > 0,
        facts.key_serialized && facts.market_locked,
        facts.proposal matches Some(None),
        facts.handle == Some(Ok::<String, StoreError>(handle)),
        handle@ != digest,
        facts.admin_link == Some(None::<UserId>),
        facts.market_credited == Some(credited),
        facts.now is Some,
        facts.fresh_id is Some,
        policy.remedial_market_cap_micro < i64::MAX,
    ensures
        ({
            let actor = ActorView::Admin { token_digest: digest, role };
            let step = propose_credit_step(actor, policy, cmd, facts);
            &&& step is Propose <==> credited + cmd.amount_micro <= policy.remedial_market_cap_micro
            &&& credited + cmd.amount_micro > policy.remedial_market_cap_micro ==> step
                == CreditVerdict::Refuse(
                OpsFault::OverCap { cap_micro: policy.remedial_market_cap_micro as int },
            )
        }),
{
}

/// A pending credit is granted exactly by another principal than the proposer,
/// from the end of the delay to the end of the window, within the caps of the
/// market and of the day, and for a target that is not the confirmer.
pub proof fn law_when_a_credit_is_granted(
    digest: Seq<char>,
    role: crate::model::AdminRole,
    policy: OpsPolicy,
    facts: CreditFacts,
    proposal: RemedialCreditProposal,
    handle: String,
    credited: i64,
    today: i64,
    now: Timestamp,
)
    requires
        facts.confirmable(policy),
        facts.key_serialized,
        facts.proposal == Some(Some(proposal)),
        proposal.status == ProposalStatus::Pending,
        proposal.amount_micro > 0,
        facts.now == Some(now),
        facts.handle == Some(Ok::<String, StoreError>(handle)),
        facts.admin_link == Some(None::<UserId>),
        facts.market_credited == Some(credited),
        facts.credited_since_day_start == Some(today),
        policy.remedial_market_cap_micro < i64::MAX,
        policy.remedial_daily_cap_micro < i64::MAX,
    ensures
        ({
            let actor = ActorView::Admin { token_digest: digest, role };
            let step = confirm_credit_step(actor, policy, facts);
            let from = proposal.confirm_not_before.0;
            let until = from + 1_000_000_000 * policy.proposal_ttl_secs;
            &&& step is Grant <==> digest != proposal.proposer_token_id@ && from <= now.0 && now.0
                <= until && handle@ != digest && credited + proposal.amount_micro
                <= policy.remedial_market_cap_micro && today + proposal.amount_micro
                <= policy.remedial_daily_cap_micro
            &&& digest != proposal.proposer_token_id@ ==> (step is Expire <==> now.0 > until && now.0
                >= from)
        }),
{
}

/// A credit moves its amount from the house to the user.
pub proof fn law_credits_are_paid_by_the_house(
    house: AccountId,
    user: AccountId,
    amount_micro: i64,
)
    requires
        amount_micro > 0,
    ensures
        ({
            let list = credit_entry_list(house, user, amount_micro);
            &&& list.len() == 2
            &&& list[0].account == house && list[0].amount.0 == -amount_micro
            &&& list[1].account == user && list[1].amount.0 == amount_micro
        }),
{
}

/// A missing user is named as one; every other failure of the store stays.
pub proof fn law_missing_users_are_named(error: StoreFault)
    ensures
        error is NotFound ==> handle_fault(error) == Fault::Store(StoreFault::NotFound("user"@)),
        error !is NotFound ==> handle_fault(error) == Fault::Store(error),
{
}

/// A reused key replays the same credit alone: another market, another user or
/// another amount is a conflict.
pub proof fn law_which_requests_are_the_same_credit(
    actor: ActorView,
    policy: OpsPolicy,
    cmd: RemedialCreditCmd,
    facts: CreditFacts,
    existing: RemedialCreditProposal,
)
    requires
        actor is Admin,
        cmd.amount_micro > 0,
        facts.key_serialized,
        facts.proposal == Some(Some(existing)),
    ensures
        propose_credit_step(actor, policy, cmd, facts) is Replay <==> existing.market == cmd.market
            && existing.user == cmd.user && existing.amount_micro == cmd.amount_micro,
        propose_credit_step(actor, policy, cmd, facts) is Replay || propose_credit_step(
            actor,
            policy,
            cmd,
            facts,
        ) is Refuse,
{
}

} // verus!
