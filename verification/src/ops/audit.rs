//! What the manual operations share: their policy, their errors, and the audit
//! rows that go with their effects.

use crate::clock::Timestamp;
use crate::error::{AppError, Fault, StoreError};
use crate::json;
use crate::json::Json;
use crate::model::{ActionView, ActorView, AdminAction, AdminContext};
use crate::text;
use vstd::prelude::*;

verus! {

/// The caps and the dual-control timing of manual operations. The defaults are
/// the published ones.
#[derive(Debug, Clone, Copy, PartialEq, Eq, Structural)]
pub struct OpsPolicy {
    pub faucet_per_call_cap_micro: i64,
    pub remedial_market_cap_micro: i64,
    pub remedial_daily_cap_micro: i64,
    pub receivable_outstanding_cap_micro: i64,
    pub writeoff_per_item_cap_micro: i64,
    pub writeoff_daily_cap_micro: i64,
    pub proposal_ttl_secs: u64,
    pub dual_control_delay_secs: u64,
}

impl Default for OpsPolicy {
    fn default() -> (r: Self)
        ensures
            r == (OpsPolicy {
                faucet_per_call_cap_micro: 1_000_000_000,
                remedial_market_cap_micro: 500_000_000,
                remedial_daily_cap_micro: 2_000_000_000,
                receivable_outstanding_cap_micro: 10_000_000_000,
                writeoff_per_item_cap_micro: 500_000_000,
                writeoff_daily_cap_micro: 2_000_000_000,
                proposal_ttl_secs: 900,
                dual_control_delay_secs: 60,
            }),
    {
        OpsPolicy {
            faucet_per_call_cap_micro: 1_000_000_000,
            remedial_market_cap_micro: 500_000_000,
            remedial_daily_cap_micro: 2_000_000_000,
            receivable_outstanding_cap_micro: 10_000_000_000,
            writeoff_per_item_cap_micro: 500_000_000,
            writeoff_daily_cap_micro: 2_000_000_000,
            proposal_ttl_secs: 900,
            dual_control_delay_secs: 60,
        }
    }
}

impl OpsPolicy {
    /// The delay after `now` lies within the calendar.
    pub open spec fn delay_fits(self, now: Timestamp) -> bool {
        now.wf() && now.has_room(self.dual_control_delay_secs as int)
    }

    /// The confirm window from its beginning on lies within the calendar.
    pub open spec fn window_fits(self, confirm_not_before: Timestamp) -> bool {
        confirm_not_before.wf() && confirm_not_before.has_room(self.proposal_ttl_secs as int)
    }

    /// The earliest time at which a dual-control proposal may be confirmed.
    #[must_use]
    pub fn confirm_not_before(&self, now: Timestamp) -> (r: Timestamp)
        requires
            now.wf(),
            now.has_room(self.dual_control_delay_secs as int),
        ensures
            r == now.later(self.dual_control_delay_secs as int),
            r.0 == now.0 + crate::clock::nanos(self.dual_control_delay_secs as int),
            r.0 == now.0 + 1_000_000_000 * self.dual_control_delay_secs,
            r.wf(),
    {
        now.plus_secs(self.dual_control_delay_secs as i64)
    }

    /// The time at which a pending proposal expires, measured from the earliest
    /// confirmation, so that the confirm window is never shorter than the
    /// proposal's time to live.
    #[must_use]
    pub fn expires_at(&self, confirm_not_before: Timestamp) -> (r: Timestamp)
        requires
            confirm_not_before.wf(),
            confirm_not_before.has_room(self.proposal_ttl_secs as int),
        ensures
            r == confirm_not_before.later(self.proposal_ttl_secs as int),
            r.0 == confirm_not_before.0 + crate::clock::nanos(self.proposal_ttl_secs as int),
            r.0 == confirm_not_before.0 + 1_000_000_000 * self.proposal_ttl_secs,
            r.wf(),
    {
        confirm_not_before.plus_secs(self.proposal_ttl_secs as i64)
    }
}

/// Why a manual operation is refused.
#[derive(Debug, PartialEq, Eq)]
pub enum OpsError {
    /// The amount exceeds the pinned cap.
    OverCap { cap_micro: i64 },
    /// The amount is not a positive micro-USD integer.
    InvalidAmount,
    App(AppError),
}

/// [`OpsError`], with texts as characters.
pub enum OpsFault {
    OverCap { cap_micro: int },
    InvalidAmount,
    App(Fault),
}

impl View for OpsError {
    type V = OpsFault;

    open spec fn view(&self) -> OpsFault {
        match self {
            OpsError::OverCap { cap_micro } => OpsFault::OverCap { cap_micro: *cap_micro as int },
            OpsError::InvalidAmount => OpsFault::InvalidAmount,
            OpsError::App(e) => OpsFault::App(e@),
        }
    }
}

impl From<AppError> for OpsError {
    fn from(e: AppError) -> (r: Self) {
        OpsError::App(e)
    }
}

impl vstd::std_specs::convert::FromSpecImpl<AppError> for OpsError {
    open spec fn obeys_from_spec() -> bool {
        true
    }

    open spec fn from_spec(e: AppError) -> Self {
        OpsError::App(e)
    }
}

impl From<StoreError> for OpsError {
    fn from(e: StoreError) -> (r: Self) {
        OpsError::App(AppError::Store(e))
    }
}

impl vstd::std_specs::convert::FromSpecImpl<StoreError> for OpsError {
    open spec fn obeys_from_spec() -> bool {
        true
    }

    open spec fn from_spec(e: StoreError) -> Self {
        OpsError::App(AppError::Store(e))
    }
}

/// A conflict with this reason.
pub open spec fn conflict(reason: Seq<char>) -> OpsFault {
    OpsFault::App(Fault::ProposalConflict(reason))
}

/// A conflict with this reason.
pub(crate) fn conflict_error(reason: &'static str) -> (r: OpsError)
    ensures
        r@ == conflict(reason@),
{
    OpsError::App(AppError::ProposalConflict(reason))
}

/// Builds the audit row of an administrator; the system itself audits nothing.
/// The row is inserted in the same transaction as the effect.
#[must_use]
pub fn audit_for(
    actor: &AdminContext,
    action: &str,
    subject: String,
    before: Option<Json>,
    after: Option<Json>,
    reason: Option<String>,
) -> (r: Option<AdminAction>)
    ensures
        match actor@ {
            ActorView::Machine => r is None,
            ActorView::Admin { token_digest, role } => r matches Some(row) && row@ == (ActionView {
                actor_role: role,
                actor_token_digest: token_digest,
                action: action@,
                subject: subject@,
                before: json::option_view(before),
                after: json::option_view(after),
                reason: text::option_view(reason),
            }),
        },
{
    match actor {
        AdminContext::Machine => None,
        AdminContext::Admin { token_digest, role } => Some(
            AdminAction {
                actor_role: *role,
                actor_token_digest: token_digest.clone(),
                action: action.to_owned(),
                subject,
                before,
                after,
                reason,
            },
        ),
    }
}

/// The audit row of an administrator.
pub open spec fn audit_row(
    actor: ActorView,
    action: Seq<char>,
    subject: Seq<char>,
    before: Option<json::JsonView>,
    after: Option<json::JsonView>,
    reason: Option<Seq<char>>,
) -> ActionView {
    ActionView {
        actor_role: actor->role,
        actor_token_digest: actor->token_digest,
        action,
        subject,
        before,
        after,
        reason,
    }
}

/// Builds the audit row of flows that have already required an administrator
/// through [`principal_digest`].
#[must_use]
pub fn required_audit_for(
    actor: &AdminContext,
    action: &str,
    subject: String,
    before: Option<Json>,
    after: Option<Json>,
    reason: Option<String>,
) -> (r: AdminAction)
    requires
        actor@ is Admin,
    ensures
        r@ == audit_row(
            actor@,
            action@,
            subject@,
            json::option_view(before),
            json::option_view(after),
            text::option_view(reason),
        ),
{
    match audit_for(actor, action, subject, before, after, reason) {
        Some(row) => row,
        None => vstd::pervasive::unreached(),
    }
}

/// The stable identity of an administrator in dual-control rows: the digest of
/// the authenticated token, so distinct tokens are distinct principals.
///
/// # Errors
///
/// The system itself holds no dual-control role.
pub fn principal_digest(actor: &AdminContext) -> (r: Result<&str, AppError>)
    ensures
        match actor@ {
            ActorView::Admin { token_digest, role } => r matches Ok(digest) && digest@
                == token_digest,
            ActorView::Machine => crate::error::failed(
                r,
                Fault::ProposalConflict("machine actor"@),
            ),
        },
{
    match actor {
        AdminContext::Admin { token_digest, role: _ } => Ok(token_digest.as_str()),
        AdminContext::Machine => Err(AppError::ProposalConflict("machine actor")),
    }
}

/// How many rows a page of the audit log holds: at least one, at most 200.
pub fn page_limit(limit: u32) -> (r: u32)
    ensures
        r == (if limit < 1 {
            1
        } else if limit > 200 {
            200
        } else {
            limit as int
        }),
{
    if limit < 1 {
        1
    } else if limit > 200 {
        200
    } else {
        limit
    }
}

} // verus!
