//! Per-market fee overrides: their value, and the two-phase decisions that
//! write and revert them.

use crate::clock::Timestamp;
use crate::error;
use crate::error::{AppError, Fault, StoreError, StoreFault};
use crate::identity;
use crate::json;
use crate::json::{Json, JsonView};
use crate::model::{ActorView, AdminContext, AdminRole, Event, EventView, MarketId};
use crate::text;
use crate::unicode;
use vstd::prelude::*;

verus! {

/// The key of a market's fee override.
pub open spec fn override_key_text(market: MarketId) -> Seq<char> {
    "fee_bps_override:"@ + identity::uuid_text(market.0)
}

/// The key of a market's fee override.
#[must_use]
pub fn override_key(market: MarketId) -> (r: String)
    ensures
        r@ == override_key_text(market),
{
    text::join2("fee_bps_override:", identity::format_uuid(market.0).as_str())
}

/// The base fee that a trade is priced from.
#[derive(Debug, Clone, Copy, PartialEq, Eq, Structural)]
pub enum FeeBpsOverride {
    /// The fee stamped on the market's pool.
    Inherit,
    Override(u16),
}

/// The override that a stored value stands for. Nothing stored inherits; a
/// value of any other shape than `"inherit"` or `{"override": bps}` is
/// malformed.
pub open spec fn stored_override(value: Option<JsonView>) -> Option<FeeBpsOverride> {
    match value {
        None => Some(FeeBpsOverride::Inherit),
        Some(JsonView::Null) => Some(FeeBpsOverride::Inherit),
        Some(JsonView::Text(s)) => if s == "inherit"@ {
            Some(FeeBpsOverride::Inherit)
        } else {
            None
        },
        Some(JsonView::Object(members)) => if members.len() == 1 {
            match json::member_of(members, "override"@) {
                Some(JsonView::Int(n)) => if 0 <= n <= 65_535 {
                    Some(FeeBpsOverride::Override(n as u16))
                } else {
                    None
                },
                _ => None,
            }
        } else {
            None
        },
        Some(_) => None,
    }
}

/// What a malformed stored override is answered with.
pub open spec fn malformed_override() -> Fault {
    Fault::Store(StoreFault::Invariant("invalid fee override"@))
}

/// What an optional document says.
pub open spec fn json_option(value: Option<&Json>) -> Option<JsonView> {
    match value {
        Some(v) => Some(v@),
        None => None,
    }
}

impl FeeBpsOverride {
    /// The base fee in basis points.
    pub open spec fn base(self, pool_fee_bps: u16) -> u16 {
        match self {
            FeeBpsOverride::Inherit => pool_fee_bps,
            FeeBpsOverride::Override(bps) => bps,
        }
    }

    /// Reads a stored override; a malformed one fails closed.
    ///
    /// # Errors
    ///
    /// A store invariant error for a value of an unknown shape.
    pub fn parse(value: Option<&Json>) -> (r: Result<FeeBpsOverride, AppError>)
        ensures
            match stored_override(json_option(value)) {
                Some(o) => r == Ok::<FeeBpsOverride, AppError>(o),
                None => error::failed(r, malformed_override()),
            },
    {
        let bad: Result<FeeBpsOverride, AppError> = Err(
            AppError::Store(StoreError::Invariant("invalid fee override")),
        );
        let v = match value {
            Some(v) => v,
            None => return Ok(FeeBpsOverride::Inherit),
        };
        match v {
            Json::Null => Ok(FeeBpsOverride::Inherit),
            Json::Text(s) => if text::same_text(s.as_str(), "inherit") {
                Ok(FeeBpsOverride::Inherit)
            } else {
                bad
            },
            Json::Object(members) => {
                proof {
                    Json::lemma_object(*members);
                }
                if members.len() == 1 {
                    if let Some(inner) = json::find_member(members.as_slice(), "override") {
                        if let Some(n) = inner.as_i64() {
                            if 0 <= n && n <= 65_535 {
                                return Ok(FeeBpsOverride::Override(n as u16));
                            }
                        }
                    }
                }
                bad
            },
            _ => bad,
        }
    }

    #[must_use]
    pub fn base_bps(self, pool_fee_bps: u16) -> (r: u16)
        ensures
            r == self.base(pool_fee_bps),
    {
        match self {
            FeeBpsOverride::Inherit => pool_fee_bps,
            FeeBpsOverride::Override(bps) => bps,
        }
    }
}

pub const FEE_OVERRIDE_KIND: &'static str = "fee_bps_override";

/// How long a proposed override waits before it may be confirmed.
pub const FEE_OVERRIDE_DELAY_SECS: i64 = 300;

/// How long a proposed override may be confirmed after that.
pub const FEE_OVERRIDE_WINDOW_SECS: i64 = 900;

/// How far one override may move the fee.
pub const FEE_OVERRIDE_MAX_DELTA_BPS: i64 = 20;

pub const MARKET_FEE_CHANGED: &'static str = "MarketFeeChanged";

/// A fee override as it is proposed.
#[derive(Debug, Clone, Copy, PartialEq, Eq, Structural)]
pub enum FeeOverrideValue {
    Inherit,
    Override { bps: u16 },
}

/// A refusal of an override value.
pub open spec fn value_fault(reason: Seq<char>) -> Fault {
    Fault::ConfigInvalid { key: "fee_bps_override"@, reason }
}

/// The override that a number of basis points stands for.
pub open spec fn bps_value(bps: int) -> Result<FeeOverrideValue, Fault> {
    if 0 <= bps <= 65_535 {
        Ok(FeeOverrideValue::Override { bps: bps as u16 })
    } else {
        Err(value_fault("override bps out of u16"@))
    }
}

/// The override that a document stands for: `"inherit"`, `{"override": bps}` or
/// a bare number.
pub open spec fn value_of(value: JsonView) -> Result<FeeOverrideValue, Fault> {
    match value {
        JsonView::Text(s) => if s == "inherit"@ {
            Ok(FeeOverrideValue::Inherit)
        } else {
            Err(value_fault("fee override must be inherit or override(bps)"@))
        },
        JsonView::Object(members) => match json::member_of(members, "override"@) {
            Some(JsonView::Int(bps)) => bps_value(bps),
            _ => Err(value_fault("fee override must be inherit or override(bps)"@)),
        },
        JsonView::Int(bps) => bps_value(bps),
        _ => Err(value_fault("fee override must be inherit or override(bps)"@)),
    }
}

impl FeeOverrideValue {
    /// The document of an override.
    pub open spec fn document(self) -> JsonView {
        match self {
            FeeOverrideValue::Inherit => JsonView::Text("inherit"@),
            FeeOverrideValue::Override { bps } => JsonView::Object(
                seq![("override"@, JsonView::Int(bps as int))],
            ),
        }
    }

    /// The fee in basis points, given the fee stamped on the pool.
    pub open spec fn bps(self, pool_stamp_bps: u16) -> u16 {
        match self {
            FeeOverrideValue::Inherit => pool_stamp_bps,
            FeeOverrideValue::Override { bps } => bps,
        }
    }

    #[must_use]
    pub fn as_json(&self) -> (r: Json)
        ensures
            r@ == self.document(),
    {
        match self {
            FeeOverrideValue::Inherit => Json::text("inherit"),
            FeeOverrideValue::Override { bps } => {
                let members: Vec<(String, Json)> = vec![
                    json::member("override", Json::Int(*bps as i64)),
                ];
                assert(json::members_view(members@) =~= self.document()->Object_0);
                Json::object(members)
            },
        }
    }

    /// Reads an override.
    ///
    /// # Errors
    ///
    /// [`AppError::ConfigInvalid`] for an unknown shape or a fee out of range.
    pub fn from_json(value: &Json) -> (r: Result<Self, AppError>)
        ensures
            match value_of(value@) {
                Ok(v) => r == Ok::<FeeOverrideValue, AppError>(v),
                Err(f) => error::failed(r, f),
            },
    {
        let unknown: Result<FeeOverrideValue, AppError> = Err(
            AppError::ConfigInvalid {
                key: "fee_bps_override".to_owned(),
                reason: "fee override must be inherit or override(bps)",
            },
        );
        let bps: i64 = match value {
            Json::Text(s) => {
                if text::same_text(s.as_str(), "inherit") {
                    return Ok(FeeOverrideValue::Inherit);
                }
                return unknown;
            },
            Json::Object(members) => {
                proof {
                    Json::lemma_object(*members);
                }
                match json::find_member(members.as_slice(), "override") {
                    Some(inner) => match inner.as_i64() {
                        Some(bps) => bps,
                        None => return unknown,
                    },
                    None => return unknown,
                }
            },
            Json::Int(bps) => *bps,
            _ => return unknown,
        };
        if 0 <= bps && bps <= 65_535 {
            Ok(FeeOverrideValue::Override { bps: bps as u16 })
        } else {
            Err(
                AppError::ConfigInvalid {
                    key: "fee_bps_override".to_owned(),
                    reason: "override bps out of u16",
                },
            )
        }
    }

    #[must_use]
    pub fn bps_or_pool(&self, pool_stamp_bps: u16) -> (r: u16)
        ensures
            r == self.bps(pool_stamp_bps),
    {
        match self {
            FeeOverrideValue::Inherit => pool_stamp_bps,
            FeeOverrideValue::Override { bps } => *bps,
        }
    }
}

/// What is written is what is read: the document of an override stands for that
/// override, for whoever proposes and for whoever prices trades.
pub proof fn law_override_document_roundtrips(value: FeeOverrideValue, pool: u16)
    ensures
        value_of(value.document()) == Ok::<FeeOverrideValue, Fault>(value),
        stored_override(Some(value.document())) matches Some(o) && o.base(pool) == value.bps(pool),
{
    if let FeeOverrideValue::Override { bps } = value {
        let members = seq![("override"@, JsonView::Int(bps as int))];
        assert(members.drop_last() =~= Seq::empty());
        assert(json::member_of(members, "override"@) == Some(JsonView::Int(bps as int)));
        assert(stored_override(Some(value.document())) == Some(FeeBpsOverride::Override(bps)));
    }
}

/// How far a proposed override has come.
#[derive(Debug, Clone, Copy, PartialEq, Eq, Structural)]
pub enum FeeOverrideStatus {
    Pending,
    Confirmed,
    Rejected,
    Expired,
}

/// A proposed override.
#[derive(Debug, PartialEq, Eq)]
pub struct FeeOverrideProposal {
    pub id: u128,
    pub market: MarketId,
    pub value: FeeOverrideValue,
    pub proposer_token_id: String,
    pub confirmer_token_id: Option<String>,
    pub reason: String,
    pub replay_key: String,
    pub status: FeeOverrideStatus,
    pub confirm_not_before: Timestamp,
    pub expires_at: Timestamp,
    pub pool_stamp_bps: u16,
}

/// A proposed override, as plain values.
pub struct OverrideView {
    pub id: u128,
    pub market: MarketId,
    pub value: FeeOverrideValue,
    pub proposer_token_id: Seq<char>,
    pub confirmer_token_id: Option<Seq<char>>,
    pub reason: Seq<char>,
    pub replay_key: Seq<char>,
    pub status: FeeOverrideStatus,
    pub confirm_not_before: Timestamp,
    pub expires_at: Timestamp,
    pub pool_stamp_bps: u16,
}

impl View for FeeOverrideProposal {
    type V = OverrideView;

    open spec fn view(&self) -> OverrideView {
        OverrideView {
            id: self.id,
            market: self.market,
            value: self.value,
            proposer_token_id: self.proposer_token_id@,
            confirmer_token_id: text::option_view(self.confirmer_token_id),
            reason: self.reason@,
            replay_key: self.replay_key@,
            status: self.status,
            confirm_not_before: self.confirm_not_before,
            expires_at: self.expires_at,
            pool_stamp_bps: self.pool_stamp_bps,
        }
    }
}

impl Clone for FeeOverrideProposal {
    fn clone(&self) -> (r: Self)
        ensures
            r@ == self@,
    {
        FeeOverrideProposal {
            id: self.id,
            market: self.market,
            value: self.value,
            proposer_token_id: self.proposer_token_id.clone(),
            confirmer_token_id: text::clone_option(&self.confirmer_token_id),
            reason: self.reason.clone(),
            replay_key: self.replay_key.clone(),
            status: self.status,
            confirm_not_before: self.confirm_not_before,
            expires_at: self.expires_at,
            pool_stamp_bps: self.pool_stamp_bps,
        }
    }
}

/// A request to override a market's fee, or to revert that.
#[derive(Debug, Clone, PartialEq, Eq)]
pub struct ProposeFeeOverride {
    pub actor: AdminContext,
    pub market: MarketId,
    pub value: FeeOverrideValue,
    pub reason: String,
    pub replay_key: String,
}

/// A request to confirm a proposed override.
#[derive(Debug, Clone, PartialEq, Eq)]
pub struct ConfirmFeeOverride {
    pub actor: AdminContext,
    pub id: u128,
}

/// A role that decides on money.
pub open spec fn is_finance(role: AdminRole) -> bool {
    role == AdminRole::Finance || role == AdminRole::Superadmin
}

/// The distance of two fees.
pub open spec fn fee_distance(a: u16, b: u16) -> int {
    if a >= b {
        a - b
    } else {
        b - a
    }
}

/// Why an override is refused for its size, if it is: reverting is always
/// allowed, an override stays within bounds and close to what applies now.
pub open spec fn size_fault(
    market: MarketId,
    value: FeeOverrideValue,
    pool: u16,
    current: FeeOverrideValue,
) -> Option<Fault> {
    match value {
        FeeOverrideValue::Inherit => None,
        FeeOverrideValue::Override { bps } => if !(10 <= bps <= 200) {
            Some(
                Fault::ConfigInvalid {
                    key: override_key_text(market),
                    reason: "override bps must be in [10, 200]"@,
                },
            )
        } else if fee_distance(bps, current.bps(pool)) > FEE_OVERRIDE_MAX_DELTA_BPS {
            Some(
                Fault::ConfigInvalid {
                    key: override_key_text(market),
                    reason: "delta exceeds 20bp vs pool stamp or last override"@,
                },
            )
        } else {
            None
        },
    }
}

/// What proposing an override has read so far.
#[derive(Debug, Clone, Copy, PartialEq, Eq, Structural)]
pub struct OverrideFacts {
    /// The fee stamped on the pool.
    pub pool_stamp: Option<u16>,
    pub current: Option<FeeOverrideValue>,
    /// A fresh identity.
    pub fresh_id: Option<u128>,
}

/// What proposing an override reads next.
#[derive(Debug, Clone, Copy, PartialEq, Eq, Structural)]
pub enum OverrideNeed {
    PoolStamp(MarketId),
    CurrentOverride(MarketId),
    FreshId,
}

/// What becomes of a proposed override next.
#[derive(Debug, PartialEq, Eq)]
pub enum OverrideStep {
    Need(OverrideNeed),
    Refuse(AppError),
    /// Store this proposal.
    Propose(FeeOverrideProposal),
}

/// What becomes of a proposed override next, as plain values.
pub enum OverrideVerdict {
    Need(OverrideNeed),
    Refuse(Fault),
    Propose(OverrideView),
}

impl View for OverrideStep {
    type V = OverrideVerdict;

    open spec fn view(&self) -> OverrideVerdict {
        match self {
            OverrideStep::Need(n) => OverrideVerdict::Need(*n),
            OverrideStep::Refuse(e) => OverrideVerdict::Refuse(e@),
            OverrideStep::Propose(proposal) => OverrideVerdict::Propose(proposal@),
        }
    }
}

/// What becomes of a proposed override after what was read so far.
pub open spec fn propose_override_step(
    cmd: ProposeFeeOverride,
    now: Timestamp,
    facts: OverrideFacts,
) -> OverrideVerdict {
    match cmd.actor@ {
        ActorView::Machine => OverrideVerdict::Refuse(
            Fault::AdminForbidden("fee override requires an admin actor"@),
        ),
        ActorView::Admin { token_digest, role } => if !is_finance(role) {
            OverrideVerdict::Refuse(
                Fault::AdminForbidden("fee override proposer must be finance"@),
            )
        } else if unicode::blank(cmd.reason@) {
            OverrideVerdict::Refuse(
                Fault::ConfigInvalid {
                    key: override_key_text(cmd.market),
                    reason: "reason is mandatory"@,
                },
            )
        } else {
            match (facts.pool_stamp, facts.current) {
                (None, _) => OverrideVerdict::Need(OverrideNeed::PoolStamp(cmd.market)),
                (_, None) => OverrideVerdict::Need(OverrideNeed::CurrentOverride(cmd.market)),
                (Some(pool), Some(current)) => match size_fault(
                    cmd.market,
                    cmd.value,
                    pool,
                    current,
                ) {
                    Some(f) => OverrideVerdict::Refuse(f),
                    None => match facts.fresh_id {
                        None => OverrideVerdict::Need(OverrideNeed::FreshId),
                        Some(id) => OverrideVerdict::Propose(
                            OverrideView {
                                id,
                                market: cmd.market,
                                value: cmd.value,
                                proposer_token_id: token_digest,
                                confirmer_token_id: None,
                                reason: cmd.reason@,
                                replay_key: cmd.replay_key@,
                                status: FeeOverrideStatus::Pending,
                                confirm_not_before: now.later(FEE_OVERRIDE_DELAY_SECS as int),
                                expires_at: now.later(
                                    FEE_OVERRIDE_DELAY_SECS + FEE_OVERRIDE_WINDOW_SECS,
                                ),
                                pool_stamp_bps: pool,
                            },
                        ),
                    },
                },
            }
        },
    }
}

/// Proposing fee overrides at some time.
#[derive(Debug, Clone, Copy, PartialEq, Eq, Structural)]
pub struct ProposeFeeOverrideOp {
    pub now: Timestamp,
}

fn finance_role(role: AdminRole) -> (r: bool)
    ensures
        r == is_finance(role),
{
    match role {
        AdminRole::Finance | AdminRole::Superadmin => true,
        _ => false,
    }
}

impl ProposeFeeOverrideOp {
    /// What to read next, or the proposal to store.
    pub fn execute(&self, cmd: &ProposeFeeOverride, facts: &OverrideFacts) -> (r: OverrideStep)
        requires
            self.now.wf(),
            self.now.has_room(FEE_OVERRIDE_DELAY_SECS + FEE_OVERRIDE_WINDOW_SECS),
        ensures
            r@ == propose_override_step(*cmd, self.now, *facts),
    {
        let (digest, role) = match &cmd.actor {
            AdminContext::Machine => return OverrideStep::Refuse(
                AppError::AdminForbidden("fee override requires an admin actor"),
            ),
            AdminContext::Admin { token_digest, role } => (token_digest, *role),
        };
        if !finance_role(role) {
            return OverrideStep::Refuse(
                AppError::AdminForbidden("fee override proposer must be finance"),
            );
        }
        if unicode::is_blank(cmd.reason.as_str()) {
            return OverrideStep::Refuse(
                AppError::ConfigInvalid {
                    key: override_key(cmd.market),
                    reason: "reason is mandatory",
                },
            );
        }
        let pool: u16 = match facts.pool_stamp {
            None => return OverrideStep::Need(OverrideNeed::PoolStamp(cmd.market)),
            Some(pool) => pool,
        };
        let current = match facts.current {
            None => return OverrideStep::Need(OverrideNeed::CurrentOverride(cmd.market)),
            Some(current) => current,
        };
        if let FeeOverrideValue::Override { bps } = cmd.value {
            if bps < 10 || bps > 200 {
                return OverrideStep::Refuse(
                    AppError::ConfigInvalid {
                        key: override_key(cmd.market),
                        reason: "override bps must be in [10, 200]",
                    },
                );
            }
            let baseline: u16 = current.bps_or_pool(pool);
            let distance: u16 = if bps >= baseline {
                bps - baseline
            } else {
                baseline - bps
            };
            if distance as i64 > FEE_OVERRIDE_MAX_DELTA_BPS {
                return OverrideStep::Refuse(
                    AppError::ConfigInvalid {
                        key: override_key(cmd.market),
                        reason: "delta exceeds 20bp vs pool stamp or last override",
                    },
                );
            }
        }
        let id: u128 = match facts.fresh_id {
            None => return OverrideStep::Need(OverrideNeed::FreshId),
            Some(id) => id,
        };
        OverrideStep::Propose(
            FeeOverrideProposal {
                id,
                market: cmd.market,
                value: cmd.value,
                proposer_token_id: digest.clone(),
                confirmer_token_id: None,
                reason: cmd.reason.clone(),
                replay_key: cmd.replay_key.clone(),
                status: FeeOverrideStatus::Pending,
                confirm_not_before: self.now.plus_secs(FEE_OVERRIDE_DELAY_SECS),
                expires_at: self.now.plus_secs(FEE_OVERRIDE_DELAY_SECS + FEE_OVERRIDE_WINDOW_SECS),
                pool_stamp_bps: pool,
            },
        )
    }
}

/// What becomes of a confirmed override next.
#[derive(Debug, PartialEq, Eq)]
pub enum ConfirmOverrideStep {
    /// The proposal is needed, locked.
    ProposalForUpdate,
    /// The next generation is needed.
    NextGeneration,
    Refuse(AppError),
    /// Write the confirmed proposal under this generation, with its event.
    Confirm(FeeOverrideProposal, i64, Event),
}

/// What becomes of a confirmed override next, as plain values.
pub enum ConfirmOverrideVerdict {
    ProposalForUpdate,
    NextGeneration,
    Refuse(Fault),
    Confirm(OverrideView, i64, EventView),
}

impl View for ConfirmOverrideStep {
    type V = ConfirmOverrideVerdict;

    open spec fn view(&self) -> ConfirmOverrideVerdict {
        match self {
            ConfirmOverrideStep::ProposalForUpdate => ConfirmOverrideVerdict::ProposalForUpdate,
            ConfirmOverrideStep::NextGeneration => ConfirmOverrideVerdict::NextGeneration,
            ConfirmOverrideStep::Refuse(e) => ConfirmOverrideVerdict::Refuse(e@),
            ConfirmOverrideStep::Confirm(proposal, generation, event) =>
                ConfirmOverrideVerdict::Confirm(proposal@, *generation, event@),
        }
    }
}

/// The event of a changed fee.
pub open spec fn fee_changed_event(
    market: MarketId,
    value: FeeOverrideValue,
    generation: i64,
) -> EventView {
    EventView {
        event_type: "MarketFeeChanged"@,
        aggregate_type: "market"@,
        aggregate_id: market.0,
        payload: JsonView::Object(
            seq![
                ("market_id"@, JsonView::Text(identity::uuid_text(market.0))),
                ("override"@, value.document()),
                ("generation"@, JsonView::Int(generation as int)),
            ],
        ),
    }
}

/// What becomes of a confirmation after what was read so far.
pub open spec fn confirm_override_step(
    cmd: ConfirmFeeOverride,
    now: Timestamp,
    proposal: Option<OverrideView>,
    generation: Option<i64>,
) -> ConfirmOverrideVerdict {
    match cmd.actor@ {
        ActorView::Machine => ConfirmOverrideVerdict::Refuse(
            Fault::AdminForbidden("fee override confirm requires an admin actor"@),
        ),
        ActorView::Admin { token_digest, role } => if !is_finance(role) {
            ConfirmOverrideVerdict::Refuse(
                Fault::AdminForbidden("fee override confirmer must be finance or superadmin"@),
            )
        } else {
            match proposal {
                None => ConfirmOverrideVerdict::ProposalForUpdate,
                Some(p) => if p.status != FeeOverrideStatus::Pending {
                    ConfirmOverrideVerdict::Refuse(
                        Fault::ProposalConflict("fee override is not pending"@),
                    )
                } else if p.proposer_token_id == token_digest {
                    ConfirmOverrideVerdict::Refuse(
                        Fault::AdminForbidden("confirmer token must be distinct"@),
                    )
                } else if now.0 < p.confirm_not_before.0 {
                    ConfirmOverrideVerdict::Refuse(
                        Fault::ProposalConflict("confirm_not_before has not elapsed"@),
                    )
                } else if now.0 >= p.expires_at.0 {
                    ConfirmOverrideVerdict::Refuse(
                        Fault::ProposalConflict("fee override proposal expired"@),
                    )
                } else {
                    match generation {
                        None => ConfirmOverrideVerdict::NextGeneration,
                        Some(n) => ConfirmOverrideVerdict::Confirm(
                            OverrideView {
                                confirmer_token_id: Some(token_digest),
                                status: FeeOverrideStatus::Confirmed,
                                ..p
                            },
                            n,
                            fee_changed_event(p.market, p.value, n),
                        ),
                    }
                },
            }
        },
    }
}

/// What an optional proposal says.
pub open spec fn proposal_view(proposal: Option<FeeOverrideProposal>) -> Option<OverrideView> {
    match proposal {
        Some(p) => Some(p@),
        None => None,
    }
}

/// Confirming fee overrides at some time.
#[derive(Debug, Clone, Copy, PartialEq, Eq, Structural)]
pub struct ConfirmFeeOverrideOp {
    pub now: Timestamp,
}

impl ConfirmFeeOverrideOp {
    /// What to read next, or what the confirmed override writes.
    pub fn execute(
        &self,
        cmd: &ConfirmFeeOverride,
        proposal: &Option<FeeOverrideProposal>,
        generation: Option<i64>,
    ) -> (r: ConfirmOverrideStep)
        ensures
            r@ == confirm_override_step(*cmd, self.now, proposal_view(*proposal), generation),
    {
        let (digest, role) = match &cmd.actor {
            AdminContext::Machine => return ConfirmOverrideStep::Refuse(
                AppError::AdminForbidden("fee override confirm requires an admin actor"),
            ),
            AdminContext::Admin { token_digest, role } => (token_digest, *role),
        };
        if !finance_role(role) {
            return ConfirmOverrideStep::Refuse(
                AppError::AdminForbidden("fee override confirmer must be finance or superadmin"),
            );
        }
        let pending = match proposal {
            None => return ConfirmOverrideStep::ProposalForUpdate,
            Some(pending) => pending,
        };
        if pending.status != FeeOverrideStatus::Pending {
            return ConfirmOverrideStep::Refuse(
                AppError::ProposalConflict("fee override is not pending"),
            );
        }
        if text::same_text(pending.proposer_token_id.as_str(), digest.as_str()) {
            return ConfirmOverrideStep::Refuse(
                AppError::AdminForbidden("confirmer token must be distinct"),
            );
        }
        if self.now.before(pending.confirm_not_before) {
            return ConfirmOverrideStep::Refuse(
                AppError::ProposalConflict("confirm_not_before has not elapsed"),
            );
        }
        if !self.now.before(pending.expires_at) {
            return ConfirmOverrideStep::Refuse(
                AppError::ProposalConflict("fee override proposal expired"),
            );
        }
        let next: i64 = match generation {
            None => return ConfirmOverrideStep::NextGeneration,
            Some(next) => next,
        };
        let members: Vec<(String, Json)> = vec![
            json::member("market_id", Json::Text(identity::format_uuid(pending.market.0))),
            json::member("override", pending.value.as_json()),
            json::member("generation", Json::Int(next)),
        ];
        assert(json::members_view(members@) =~= fee_changed_event(
            pending.market,
            pending.value,
            next,
        ).payload->Object_0);
        let event = Event {
            event_type: MARKET_FEE_CHANGED,
            aggregate_type: "market",
            aggregate_id: pending.market.0,
            payload: Json::object(members),
        };
        let mut confirmed = pending.clone();
        confirmed.confirmer_token_id = Some(digest.clone());
        confirmed.status = FeeOverrideStatus::Confirmed;
        ConfirmOverrideStep::Confirm(confirmed, next, event)
    }
}

/// Whatever is confirmed was proposed by another token, has waited, has not
/// expired, and both roles decide on money.
pub proof fn law_confirmed_overrides_passed_dual_control(
    cmd: ConfirmFeeOverride,
    now: Timestamp,
    proposal: Option<OverrideView>,
    generation: Option<i64>,
)
    requires
        confirm_override_step(cmd, now, proposal, generation) is Confirm,
    ensures
        cmd.actor@ is Admin && is_finance(cmd.actor@->role),
        proposal matches Some(p) && p.status == FeeOverrideStatus::Pending && p.proposer_token_id
            != cmd.actor@->token_digest && p.confirm_not_before.0 <= now.0 < p.expires_at.0,
{
}

/// One override moves the fee by at most the limit, and keeps it within its
/// bounds; reverting to the pool's fee is always allowed.
pub proof fn law_overrides_move_in_small_steps(
    cmd: ProposeFeeOverride,
    now: Timestamp,
    facts: OverrideFacts,
)
    requires
        propose_override_step(cmd, now, facts) is Propose,
    ensures
        cmd.value matches FeeOverrideValue::Override { bps } ==> 10 <= bps <= 200 && fee_distance(
            bps,
            facts.current->0.bps(facts.pool_stamp->0),
        ) <= FEE_OVERRIDE_MAX_DELTA_BPS,
        forall|market: MarketId, pool: u16, current: FeeOverrideValue|
            #[trigger] size_fault(market, FeeOverrideValue::Inherit, pool, current) is None,
{
}

/// What a stored override says: nothing, `null` and `"inherit"` inherit, an
/// object of one member `override` is its number, and nothing else is one. A bare
/// number may be proposed but is never stored.
pub proof fn law_what_an_override_document_says(n: int, other: (Seq<char>, JsonView))
    ensures
        stored_override(None) == Some(FeeBpsOverride::Inherit),
        stored_override(Some(JsonView::Null)) == Some(FeeBpsOverride::Inherit),
        stored_override(Some(JsonView::Text("inherit"@))) == Some(FeeBpsOverride::Inherit),
        stored_override(Some(JsonView::Int(n))) is None,
        0 <= n <= 65_535 ==> stored_override(
            Some(JsonView::Object(seq![("override"@, JsonView::Int(n))])),
        ) == Some(FeeBpsOverride::Override(n as u16)),
        n < 0 || n > 65_535 ==> stored_override(
            Some(JsonView::Object(seq![("override"@, JsonView::Int(n))])),
        ) is None,
        stored_override(
            Some(JsonView::Object(seq![("override"@, JsonView::Int(n)), other])),
        ) is None,
        0 <= n <= 65_535 ==> value_of(JsonView::Int(n)) == Ok::<FeeOverrideValue, Fault>(
            FeeOverrideValue::Override { bps: n as u16 },
        ),
        n < 0 || n > 65_535 ==> value_of(JsonView::Int(n)) is Err,
        value_of(JsonView::Null) is Err,
{
    let members = seq![("override"@, JsonView::Int(n))];
    assert(members.drop_last() =~= Seq::empty());
    assert(json::member_of(members, "override"@) == Some(JsonView::Int(n)));
}

/// An override replaces the pool's fee, and inheriting keeps it.
pub proof fn law_overrides_replace_the_pool_fee(pool: u16, bps: u16)
    ensures
        FeeBpsOverride::Inherit.base(pool) == pool,
        FeeBpsOverride::Override(bps).base(pool) == bps,
        FeeOverrideValue::Inherit.bps(pool) == pool,
        (FeeOverrideValue::Override { bps }).bps(pool) == bps,
{
}

/// What a proposed override holds: it is asked for by someone who decides on
/// money and says why, moves the fee by at most twenty basis points within 10 and
/// 200, may be confirmed from five minutes on and for fifteen minutes.
pub proof fn law_what_a_proposed_override_holds(
    cmd: ProposeFeeOverride,
    now: Timestamp,
    facts: OverrideFacts,
)
    requires
        now.wf(),
    ensures
        propose_override_step(cmd, now, facts) matches OverrideVerdict::Propose(p) ==> ({
            &&& cmd.actor@ matches ActorView::Admin { token_digest, role } && (role
                == AdminRole::Finance || role == AdminRole::Superadmin) && p.proposer_token_id
                == token_digest
            &&& !unicode::blank(cmd.reason@)
            &&& p.market == cmd.market && p.value == cmd.value && p.reason == cmd.reason@
                && p.replay_key == cmd.replay_key@
            &&& p.status == FeeOverrideStatus::Pending && p.confirmer_token_id is None
            &&& p.confirm_not_before.0 == now.0 + 300_000_000_000
            &&& p.expires_at.0 == now.0 + 1_200_000_000_000
            &&& facts.fresh_id == Some(p.id)
            &&& facts.pool_stamp matches Some(pool) && p.pool_stamp_bps == pool && (
            facts.current matches Some(current) && (cmd.value matches FeeOverrideValue::Override {
                bps,
            } ==> 10 <= bps <= 200 && (match current {
                FeeOverrideValue::Inherit => -20 <= bps - pool <= 20,
                FeeOverrideValue::Override { bps: last } => -20 <= bps - last <= 20,
            })))
        }),
{
}

/// Whoever decides on money and says why may propose every small enough override,
/// and every return to the pool's fee.
pub proof fn law_small_overrides_are_proposed(
    cmd: ProposeFeeOverride,
    now: Timestamp,
    facts: OverrideFacts,
    pool: u16,
    last: u16,
)
    requires
        cmd.actor@ matches ActorView::Admin { token_digest, role } && (role == AdminRole::Finance
            || role == AdminRole::Superadmin),
        !unicode::blank(cmd.reason@),
        facts.pool_stamp == Some(pool),
        facts.current == Some(FeeOverrideValue::Inherit) && last == pool || facts.current == Some(
            FeeOverrideValue::Override { bps: last },
        ),
        facts.fresh_id is Some,
    ensures
        cmd.value == FeeOverrideValue::Inherit ==> propose_override_step(
            cmd,
            now,
            facts,
        ) is Propose,
        cmd.value matches FeeOverrideValue::Override { bps } ==> (propose_override_step(
            cmd,
            now,
            facts,
        ) is Propose <==> 10 <= bps <= 200 && -20 <= bps - last <= 20),
{
}

/// A pending override is confirmed exactly by another token of someone who
/// decides on money, from its waiting time on and before it expires. What is
/// confirmed is what was proposed.
pub proof fn law_when_an_override_is_confirmed(
    cmd: ConfirmFeeOverride,
    now: Timestamp,
    p: OverrideView,
    n: i64,
)
    ensures
        confirm_override_step(cmd, now, Some(p), Some(n)) is Confirm <==> (
        cmd.actor@ matches ActorView::Admin { token_digest, role } && (role == AdminRole::Finance
            || role == AdminRole::Superadmin) && p.proposer_token_id != token_digest)
            && p.status == FeeOverrideStatus::Pending && p.confirm_not_before.0 <= now.0
            && now.0 < p.expires_at.0,
        confirm_override_step(cmd, now, Some(p), Some(n)) matches ConfirmOverrideVerdict::Confirm(
            done,
            generation,
            event,
        ) ==> done.value == p.value && done.market == p.market && done.id == p.id && done.status
            == FeeOverrideStatus::Confirmed && done.proposer_token_id == p.proposer_token_id && (
        cmd.actor@ matches ActorView::Admin { token_digest, role } && done.confirmer_token_id
            == Some(token_digest)) && generation == n && event.aggregate_id == p.market.0
            && event.event_type == "MarketFeeChanged"@,
        confirm_override_step(cmd, now, None, Some(n)) !is Confirm,
        confirm_override_step(cmd, now, Some(p), None) !is Confirm,
{
}

} // verus!
