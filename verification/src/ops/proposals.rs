//! Two-phase proposals for sensitive configuration keys: distinct principals,
//! expiry, rejection, and the emergency revert that is filled in from the
//! change history. A confirmed proposal goes through the same core as a direct
//! write, in one transaction.

use crate::clock::Timestamp;
use crate::error;
use crate::error::{AppError, Fault, StoreError, StoreFault};
use crate::identity;
use crate::json;
use crate::json::{Json, JsonView, Members};
use crate::model;
use crate::model::{
    ActionView, ActorView, AdminAction, AdminContext, AdminRole, ChangeView, ConfigChange,
    ConfigEntry, ProposalStatus,
};
use crate::ops::catalog;
use crate::ops::catalog::WriteRule;
use crate::ops::config;
use crate::ops::fingerprint;
use crate::ops::set_config;
use crate::ops::set_config::{
    AppliedPatch, AppliedView, ApplyFacts, ApplyNeed, ApplyStep, ApplyVerdict, NeedView,
};
use crate::ops::snapshot;
use crate::ops::snapshot::Values;
use crate::text;
use vstd::prelude::*;

verus! {

/// How long a proposal lives where the catalog row cannot be read.
pub const DEFAULT_TTL_SECS: i64 = 900;

/// The role may propose and confirm changes of a key: the listed one, or a
/// superadmin.
pub open spec fn may_propose(role: AdminRole, key: Seq<char>) -> bool {
    match catalog::rule_of(key) {
        Some(rule) => match rule.write {
            WriteRule::TwoPhase(listed) => role == listed || role == AdminRole::Superadmin,
            WriteRule::Direct(listed) => role == listed || role == AdminRole::Superadmin,
        },
        None => false,
    }
}

/// May `role` propose and confirm changes of `key`?
pub fn role_may_propose(role: AdminRole, key: &str) -> (r: bool)
    ensures
        r == may_propose(role, key@),
{
    match catalog::rule_for(key) {
        Some(rule) => match rule.write {
            WriteRule::TwoPhase(listed) => role == listed || role == AdminRole::Superadmin,
            WriteRule::Direct(listed) => role == listed || role == AdminRole::Superadmin,
        },
        None => false,
    }
}

/// A stored proposal.
#[derive(Debug, PartialEq, Eq)]
pub struct ConfigProposal {
    pub id: u128,
    pub idempotency_key: String,
    pub patch: Json,
    pub patch_hash: String,
    pub base_generation: i64,
    pub proposer_token_id: String,
    pub proposer_role: AdminRole,
    pub reason: String,
    pub status: ProposalStatus,
    pub expires_at: Timestamp,
    pub confirmer_token_id: Option<String>,
    pub resulting_generation: Option<i64>,
}

/// A stored proposal, as plain values.
pub struct ProposalView {
    pub id: u128,
    pub idempotency_key: Seq<char>,
    pub patch: JsonView,
    pub patch_hash: Seq<char>,
    pub base_generation: i64,
    pub proposer_token_id: Seq<char>,
    pub proposer_role: AdminRole,
    pub reason: Seq<char>,
    pub status: ProposalStatus,
    pub expires_at: Timestamp,
    pub confirmer_token_id: Option<Seq<char>>,
    pub resulting_generation: Option<i64>,
}

impl View for ConfigProposal {
    type V = ProposalView;

    open spec fn view(&self) -> ProposalView {
        ProposalView {
            id: self.id,
            idempotency_key: self.idempotency_key@,
            patch: self.patch@,
            patch_hash: self.patch_hash@,
            base_generation: self.base_generation,
            proposer_token_id: self.proposer_token_id@,
            proposer_role: self.proposer_role,
            reason: self.reason@,
            status: self.status,
            expires_at: self.expires_at,
            confirmer_token_id: text::option_view(self.confirmer_token_id),
            resulting_generation: self.resulting_generation,
        }
    }
}

impl Clone for ConfigProposal {
    fn clone(&self) -> (r: Self)
        ensures
            r@ == self@,
    {
        ConfigProposal {
            id: self.id,
            idempotency_key: self.idempotency_key.clone(),
            patch: self.patch.clone(),
            patch_hash: self.patch_hash.clone(),
            base_generation: self.base_generation,
            proposer_token_id: self.proposer_token_id.clone(),
            proposer_role: self.proposer_role,
            reason: self.reason.clone(),
            status: self.status,
            expires_at: self.expires_at,
            confirmer_token_id: text::clone_option(&self.confirmer_token_id),
            resulting_generation: self.resulting_generation,
        }
    }
}

/// A request to propose a change.
#[derive(Debug, Clone, PartialEq, Eq)]
pub struct CreateProposalCmd {
    pub actor: AdminContext,
    /// The patch, or none where a generation is to be reverted.
    pub patch: Option<Json>,
    /// The generation to revert: the patch is filled in from its change rows.
    /// Never a pause: pause keys are left out, and a generation of pauses only
    /// is refused.
    pub revert_of_generation: Option<i64>,
    pub reason: String,
    pub idempotency_key: String,
}

/// A key that pauses trading or voting.
pub open spec fn is_pause(key: Seq<char>) -> bool {
    ||| key == "trading_paused"@
    ||| text::starts_with(key, "market_paused:"@)
    ||| text::starts_with(key, "voting_paused:"@)
}

fn is_pause_key(key: &str) -> (r: bool)
    ensures
        r == is_pause(key@),
{
    text::same_text(key, "trading_paused") || text::strip(key, "market_paused:").is_some()
        || text::strip(key, "voting_paused:").is_some()
}

/// The members of the revert: every changed key but the pauses, back to its old
/// value.
pub open spec fn revert_members(changes: Seq<ChangeView>) -> Members
    decreases changes.len(),
{
    if changes.len() == 0 {
        Seq::empty()
    } else {
        let head = revert_members(changes.drop_last());
        let change = changes.last();
        if is_pause(change.key) {
            head
        } else {
            match change.old {
                Some(was) => head.push((change.key, was)),
                None => head,
            }
        }
    }
}

/// The first change, pauses aside, that created its key.
pub open spec fn created_key(changes: Seq<ChangeView>) -> Option<Seq<char>>
    decreases changes.len(),
{
    if changes.len() == 0 {
        None
    } else {
        match created_key(changes.drop_last()) {
            Some(key) => Some(key),
            None => if !is_pause(changes.last().key) && changes.last().old is None {
                Some(changes.last().key)
            } else {
                None
            },
        }
    }
}

/// Why a generation cannot be reverted, if it cannot.
pub open spec fn revert_fault(changes: Seq<ChangeView>) -> Option<Fault> {
    if changes.len() == 0 {
        Some(Fault::Store(StoreFault::NotFound("config generation"@)))
    } else {
        match created_key(changes) {
            Some(key) => Some(
                Fault::ConfigInvalid { key, reason: "cannot revert a key's creation"@ },
            ),
            None => if revert_members(changes).len() == 0 {
                Some(
                    Fault::ConfigInvalid {
                        key: "patch"@,
                        reason: "generation contains only pause changes; nothing to revert"@,
                    },
                )
            } else {
                None
            },
        }
    }
}

proof fn lemma_created_key_stays(changes: Seq<ChangeView>, n: int)
    requires
        0 <= n <= changes.len(),
        created_key(changes.take(n)) is Some,
    ensures
        created_key(changes) == created_key(changes.take(n)),
    decreases changes.len() - n,
{
    if n < changes.len() {
        assert(changes.take(n + 1).drop_last() =~= changes.take(n));
        lemma_created_key_stays(changes, n + 1);
    } else {
        assert(changes.take(n) =~= changes);
    }
}

/// Fills the revert of a generation in from its change rows.
///
/// # Errors
///
/// Not found for a generation without changes; [`AppError::ConfigInvalid`] where
/// a key was created, or where only pauses changed.
pub fn revert_patch_from_changes(changes: &[ConfigChange]) -> (r: Result<Json, AppError>)
    ensures
        match revert_fault(model::changes_view(changes@)) {
            Some(f) => error::failed(r, f),
            None => r matches Ok(patch) && patch@ == JsonView::Object(
                revert_members(model::changes_view(changes@)),
            ),
        },
{
    if changes.len() == 0 {
        return Err(AppError::Store(StoreError::NotFound("config generation")));
    }
    let ghost all = model::changes_view(changes@);
    let mut members: Vec<(String, Json)> = Vec::new();
    let mut i: usize = 0;
    assert(json::members_view(members@) =~= revert_members(all.take(0)));
    while i < changes.len()
        invariant
            i <= changes@.len(),
            0 < changes@.len(),
            all == model::changes_view(changes@),
            created_key(all.take(i as int)) is None,
            json::members_view(members@) == revert_members(all.take(i as int)),
        decreases changes.len() - i,
    {
        let change = &changes[i];
        proof {
            assert(all.take(i + 1).drop_last() =~= all.take(i as int));
            assert(all.take(i + 1).last() == change@);
        }
        if !is_pause_key(change.key.as_str()) {
            match &change.old {
                None => {
                    proof {
                        lemma_created_key_stays(all, i + 1);
                    }
                    return Err(
                        AppError::ConfigInvalid {
                            key: change.key.clone(),
                            reason: "cannot revert a key's creation",
                        },
                    );
                },
                Some(was) => {
                    let ghost kept = json::members_view(members@);
                    members.push((change.key.clone(), was.clone()));
                    assert(json::members_view(members@) =~= kept.push((change.key@, was@)));
                },
            }
        }
        i += 1;
    }
    assert(all.take(i as int) =~= all);
    if members.len() == 0 {
        return Err(
            AppError::ConfigInvalid {
                key: "patch".to_owned(),
                reason: "generation contains only pause changes; nothing to revert",
            },
        );
    }
    Ok(Json::object(members))
}

/// Why some keys may not be proposed through the two phases, if one may not: the
/// first that is not sensitive applies directly.
pub open spec fn direct_key(keys: Seq<Seq<char>>) -> Option<Seq<char>>
    decreases keys.len(),
{
    if keys.len() == 0 {
        None
    } else {
        match direct_key(keys.drop_last()) {
            Some(key) => Some(key),
            None => if catalog::sensitive(keys.last()) {
                None
            } else {
                Some(keys.last())
            },
        }
    }
}

/// The role may propose changes of all these keys.
pub open spec fn may_propose_all(role: AdminRole, keys: Seq<Seq<char>>) -> bool {
    forall|i: int| 0 <= i < keys.len() ==> may_propose(role, #[trigger] keys[i])
}

proof fn lemma_direct_key_stays(keys: Seq<Seq<char>>, n: int)
    requires
        0 <= n <= keys.len(),
        direct_key(keys.take(n)) is Some,
    ensures
        direct_key(keys) == direct_key(keys.take(n)),
    decreases keys.len() - n,
{
    if n < keys.len() {
        assert(keys.take(n + 1).drop_last() =~= keys.take(n));
        lemma_direct_key_stays(keys, n + 1);
    } else {
        assert(keys.take(n) =~= keys);
    }
}

fn find_direct_key(keys: &[String]) -> (r: Option<String>)
    ensures
        text::option_view(r) == direct_key(text::texts(keys@)),
{
    let ghost all = text::texts(keys@);
    let mut i: usize = 0;
    while i < keys.len()
        invariant
            i <= keys@.len(),
            all == text::texts(keys@),
            direct_key(all.take(i as int)) is None,
        decreases keys.len() - i,
    {
        proof {
            assert(all.take(i + 1).drop_last() =~= all.take(i as int));
            assert(all.take(i + 1).last() == keys@[i as int]@);
        }
        if !catalog::is_sensitive(keys[i].as_str()) {
            proof {
                lemma_direct_key_stays(all, i + 1);
            }
            return Some(keys[i].clone());
        }
        i += 1;
    }
    assert(all.take(i as int) =~= all);
    None
}

fn role_may_propose_all(role: AdminRole, keys: &[String]) -> (r: bool)
    ensures
        r == may_propose_all(role, text::texts(keys@)),
{
    let ghost all = text::texts(keys@);
    let mut i: usize = 0;
    while i < keys.len()
        invariant
            i <= keys@.len(),
            all == text::texts(keys@),
            forall|k: int| 0 <= k < i ==> may_propose(role, #[trigger] all[k]),
        decreases keys.len() - i,
    {
        if !role_may_propose(role, keys[i].as_str()) {
            assert(!may_propose(role, all[i as int]));
            return false;
        }
        i += 1;
    }
    true
}

/// What creating a proposal has read so far.
#[derive(Debug, PartialEq, Eq)]
pub struct CreateFacts {
    /// The change rows of the generation to revert.
    pub history: Option<Vec<ConfigChange>>,
    /// The locked generation.
    pub generation: Option<i64>,
    pub entries: Option<Vec<ConfigEntry>>,
    pub existing: Option<Option<ConfigProposal>>,
    pub now: Option<Timestamp>,
    /// A fresh identity.
    pub fresh_id: Option<u128>,
}

/// How long a proposal lives.
pub open spec fn ttl_of(values: Values) -> int {
    match snapshot::value_at(values, "proposal_ttl_secs"@) {
        Some(v) => match json::int_of(v) {
            Some(n) => n,
            None => DEFAULT_TTL_SECS as int,
        },
        None => DEFAULT_TTL_SECS as int,
    }
}

/// The committed values.
pub open spec fn committed(entries: Seq<ConfigEntry>) -> Values {
    json::to_map(snapshot::entries_view(entries))
}

impl CreateFacts {
    /// Nothing read yet.
    pub fn new() -> (r: Self)
        ensures
            r.history is None && r.generation is None && r.entries is None && r.existing is None
                && r.now is None && r.fresh_id is None,
    {
        CreateFacts {
            history: None,
            generation: None,
            entries: None,
            existing: None,
            now: None,
            fresh_id: None,
        }
    }

    /// The expiry lies within the calendar.
    pub open spec fn wf(&self) -> bool {
        match (self.now, self.entries) {
            (Some(now), Some(entries)) => now.wf() && now.has_room(ttl_of(committed(entries@))),
            _ => true,
        }
    }
}

/// What creating a proposal reads or does next.
#[derive(Debug, Clone, Copy, PartialEq, Eq, Structural)]
pub enum CreateNeed {
    ChangesInGeneration(i64),
    LockGeneration,
    ConfigEntries,
    ProposalByKey,
    Now,
    FreshId,
}

/// What becomes of a new proposal next.
#[derive(Debug, PartialEq, Eq)]
pub enum CreateStep {
    Need(CreateNeed),
    Refuse(AppError),
    /// The stored proposal is the answer.
    Replay,
    /// Store this proposal with its audit row.
    Create(ConfigProposal, AdminAction),
}

/// What becomes of a new proposal next, as plain values.
pub enum CreateVerdict {
    Need(CreateNeed),
    Refuse(Fault),
    Replay,
    Create(ProposalView, ActionView),
}

impl View for CreateStep {
    type V = CreateVerdict;

    open spec fn view(&self) -> CreateVerdict {
        match self {
            CreateStep::Need(n) => CreateVerdict::Need(*n),
            CreateStep::Refuse(e) => CreateVerdict::Refuse(e@),
            CreateStep::Replay => CreateVerdict::Replay,
            CreateStep::Create(proposal, row) => CreateVerdict::Create(proposal@, row@),
        }
    }
}

/// What the patch of a proposal is.
pub enum PatchSource {
    Patch(JsonView),
    Need(i64),
    Fault(Fault),
}

/// The patch of a proposal: the one that was given, of sensitive keys only, or
/// the revert of a generation; exactly one of them.
pub open spec fn patch_source(
    patch: Option<JsonView>,
    revert_of_generation: Option<i64>,
    history: Option<Seq<ChangeView>>,
) -> PatchSource {
    match (patch, revert_of_generation) {
        (Some(given), None) => match set_config::shape_fault(given) {
            Some(f) => PatchSource::Fault(f),
            None => match direct_key(set_config::keys_of(given)) {
                Some(key) => PatchSource::Fault(
                    Fault::ConfigInvalid {
                        key,
                        reason: "non-sensitive keys apply directly through SetConfig"@,
                    },
                ),
                None => PatchSource::Patch(given),
            },
        },
        (None, Some(generation)) => match history {
            None => PatchSource::Need(generation),
            Some(changes) => match revert_fault(changes) {
                Some(f) => PatchSource::Fault(f),
                None => PatchSource::Patch(JsonView::Object(revert_members(changes))),
            },
        },
        _ => PatchSource::Fault(
            Fault::ConfigInvalid {
                key: "patch"@,
                reason: "exactly one of patch or revert_of_generation is required"@,
            },
        ),
    }
}

/// The change rows that were read.
pub open spec fn history_view(history: Option<Vec<ConfigChange>>) -> Option<Seq<ChangeView>> {
    match history {
        Some(changes) => Some(model::changes_view(changes@)),
        None => None,
    }
}

/// The subject of an audit row about a proposal.
pub open spec fn proposal_subject(id: u128) -> Seq<char> {
    "config_proposal:"@ + identity::uuid_text(id)
}

/// The step once the patch is known.
pub open spec fn create_with(
    token_digest: Seq<char>,
    role: AdminRole,
    cmd: CreateProposalCmd,
    patch: JsonView,
    facts: CreateFacts,
) -> CreateVerdict {
    if !may_propose_all(role, set_config::keys_of(patch)) {
        CreateVerdict::Refuse(
            Fault::AdminForbidden("role does not propose changes to this config key"@),
        )
    } else {
        match facts.generation {
            None => CreateVerdict::Need(CreateNeed::LockGeneration),
            Some(base) => match facts.entries {
                None => CreateVerdict::Need(CreateNeed::ConfigEntries),
                Some(entries) => match config::patch_fault(committed(entries@), patch) {
                    Some(f) => CreateVerdict::Refuse(f),
                    None => match facts.existing {
                        None => CreateVerdict::Need(CreateNeed::ProposalByKey),
                        Some(Some(existing)) => if existing.patch_hash@
                            == fingerprint::patch_digest(patch) {
                            CreateVerdict::Replay
                        } else {
                            CreateVerdict::Refuse(
                                Fault::ProposalConflict(
                                    "idempotency key was reused with a different patch"@,
                                ),
                            )
                        },
                        Some(None) => match (facts.fresh_id, facts.now) {
                            (None, _) => CreateVerdict::Need(CreateNeed::FreshId),
                            (_, None) => CreateVerdict::Need(CreateNeed::Now),
                            (Some(id), Some(now)) => CreateVerdict::Create(
                                ProposalView {
                                    id,
                                    idempotency_key: cmd.idempotency_key@,
                                    patch,
                                    patch_hash: fingerprint::patch_digest(patch),
                                    base_generation: base,
                                    proposer_token_id: token_digest,
                                    proposer_role: role,
                                    reason: cmd.reason@,
                                    status: ProposalStatus::Pending,
                                    expires_at: now.later(ttl_of(committed(entries@))),
                                    confirmer_token_id: None,
                                    resulting_generation: None,
                                },
                                ActionView {
                                    actor_role: role,
                                    actor_token_digest: token_digest,
                                    action: "propose_config"@,
                                    subject: proposal_subject(id),
                                    before: None,
                                    after: Some(patch),
                                    reason: Some(cmd.reason@),
                                },
                            ),
                        },
                    },
                },
            },
        }
    }
}

/// What becomes of a new proposal after what was read so far.
pub open spec fn create_step(cmd: CreateProposalCmd, facts: CreateFacts) -> CreateVerdict {
    match cmd.actor@ {
        ActorView::Machine => CreateVerdict::Refuse(
            Fault::AdminForbidden("config proposals require an admin actor"@),
        ),
        ActorView::Admin { token_digest, role } => match patch_source(
            json::option_view(cmd.patch),
            cmd.revert_of_generation,
            history_view(facts.history),
        ) {
            PatchSource::Fault(f) => CreateVerdict::Refuse(f),
            PatchSource::Need(generation) => CreateVerdict::Need(
                CreateNeed::ChangesInGeneration(generation),
            ),
            PatchSource::Patch(patch) => create_with(token_digest, role, cmd, patch, facts),
        },
    }
}

/// A key proposes one patch: once a proposal is stored under it, the key never
/// creates another one, whatever the request says.
pub proof fn law_proposal_key_is_used_once(cmd: CreateProposalCmd, facts: CreateFacts)
    requires
        facts.existing matches Some(stored) && stored is Some,
    ensures
        !(create_step(cmd, facts) is Create),
        create_step(cmd, facts) is Replay ==> (patch_source(
            json::option_view(cmd.patch),
            cmd.revert_of_generation,
            history_view(facts.history),
        ) matches PatchSource::Patch(patch) && facts.existing.unwrap().unwrap().patch_hash@
            == fingerprint::patch_digest(patch)),
{
}

/// A reused key answers by what was proposed under it: a patch that is still
/// valid and says the same replays the stored proposal, in whatever order its
/// members are listed, and one whose hash differs from the stored one's is a
/// conflict.
pub proof fn law_reused_key_replays_or_conflicts(
    cmd: CreateProposalCmd,
    facts: CreateFacts,
    existing: ConfigProposal,
    patch: JsonView,
)
    requires
        cmd.actor@ is Admin,
        patch_source(
            json::option_view(cmd.patch),
            cmd.revert_of_generation,
            history_view(facts.history),
        ) == PatchSource::Patch(patch),
        may_propose_all(cmd.actor@->role, set_config::keys_of(patch)),
        facts.generation is Some,
        facts.entries matches Some(entries) && config::patch_fault(committed(entries@), patch)
            is None,
        facts.existing == Some(Some(existing)),
        existing.patch_hash@ == fingerprint::patch_digest(existing.patch@),
    ensures
        json::same_content(existing.patch@, patch) ==> create_step(cmd, facts) is Replay,
        fingerprint::patch_digest(existing.patch@) != fingerprint::patch_digest(patch)
            ==> create_step(cmd, facts) == CreateVerdict::Refuse(
            Fault::ProposalConflict("idempotency key was reused with a different patch"@),
        ),
{
    if json::same_content(existing.patch@, patch) {
        fingerprint::law_same_patch_same_hash(existing.patch@, patch);
    }
}

/// A new proposal comes of exactly one of a patch and a generation to revert. It
/// is pending, without a confirmer and without effect, on top of the generation
/// as it was read, and its hash is that of its patch.
pub proof fn law_new_proposals_are_pending(cmd: CreateProposalCmd, facts: CreateFacts)
    requires
        create_step(cmd, facts) is Create,
    ensures
        cmd.actor@ is Admin,
        cmd.patch is Some <==> cmd.revert_of_generation is None,
        create_step(cmd, facts) matches CreateVerdict::Create(proposal, row) && proposal.status
            == ProposalStatus::Pending && facts.generation == Some(proposal.base_generation)
            && proposal.confirmer_token_id is None && proposal.resulting_generation is None
            && proposal.idempotency_key == cmd.idempotency_key@ && proposal.patch_hash
            == fingerprint::patch_digest(proposal.patch) && proposal.proposer_token_id
            == cmd.actor@->token_digest && config::patch_fault(
            committed(facts.entries.unwrap()@),
            proposal.patch,
        ) is None,
        facts.existing matches Some(None),
{
}

/// Creating proposals.
#[derive(Debug, Clone, Copy, PartialEq, Eq)]
pub struct CreateProposal;

impl CreateProposal {
    /// What to read next, or the new proposal. The patch is validated against
    /// the current snapshot already; confirming validates it again.
    pub fn execute(&self, cmd: &CreateProposalCmd, facts: &CreateFacts) -> (r: CreateStep)
        requires
            facts.wf(),
        ensures
            r@ == create_step(*cmd, *facts),
    {
        let (digest, role) = match &cmd.actor {
            AdminContext::Machine => return CreateStep::Refuse(
                AppError::AdminForbidden("config proposals require an admin actor"),
            ),
            AdminContext::Admin { token_digest, role } => (token_digest, *role),
        };
        let patch = match (&cmd.patch, cmd.revert_of_generation) {
            (Some(given), None) => {
                let keys = match set_config::patch_keys(given) {
                    Ok(keys) => keys,
                    Err(e) => return CreateStep::Refuse(e),
                };
                if let Some(key) = find_direct_key(keys.as_slice()) {
                    return CreateStep::Refuse(
                        AppError::ConfigInvalid {
                            key,
                            reason: "non-sensitive keys apply directly through SetConfig",
                        },
                    );
                }
                given.clone()
            },
            (None, Some(generation)) => match &facts.history {
                None => return CreateStep::Need(CreateNeed::ChangesInGeneration(generation)),
                Some(changes) => match revert_patch_from_changes(changes.as_slice()) {
                    Ok(patch) => patch,
                    Err(e) => return CreateStep::Refuse(e),
                },
            },
            _ => return CreateStep::Refuse(
                AppError::ConfigInvalid {
                    key: "patch".to_owned(),
                    reason: "exactly one of patch or revert_of_generation is required",
                },
            ),
        };
        self.create(digest.as_str(), role, cmd, patch, facts)
    }

    /// The steps once the patch is known.
    fn create(
        &self,
        digest: &str,
        role: AdminRole,
        cmd: &CreateProposalCmd,
        patch: Json,
        facts: &CreateFacts,
    ) -> (r: CreateStep)
        requires
            facts.wf(),
            set_config::shape_fault(patch@) is None,
        ensures
            r@ == create_with(digest@, role, *cmd, patch@, *facts),
    {
        let keys = match set_config::patch_keys(&patch) {
            Ok(keys) => keys,
            Err(e) => return CreateStep::Refuse(e),
        };
        if !role_may_propose_all(role, keys.as_slice()) {
            return CreateStep::Refuse(
                AppError::AdminForbidden("role does not propose changes to this config key"),
            );
        }
        let base: i64 = match facts.generation {
            None => return CreateStep::Need(CreateNeed::LockGeneration),
            Some(base) => base,
        };
        let entries = match &facts.entries {
            None => return CreateStep::Need(CreateNeed::ConfigEntries),
            Some(entries) => entries,
        };
        let current = snapshot::snapshot_of(entries.as_slice());
        match config::validate_patch(&current, &patch) {
            Ok(_) => {},
            Err(e) => return CreateStep::Refuse(e),
        }
        let hash = fingerprint::patch_hash(&patch);
        match &facts.existing {
            None => return CreateStep::Need(CreateNeed::ProposalByKey),
            Some(Some(existing)) => {
                if text::same_text(existing.patch_hash.as_str(), hash.as_str()) {
                    return CreateStep::Replay;
                }
                return CreateStep::Refuse(
                    AppError::ProposalConflict("idempotency key was reused with a different patch"),
                );
            },
            Some(None) => {},
        }
        let id: u128 = match facts.fresh_id {
            None => return CreateStep::Need(CreateNeed::FreshId),
            Some(id) => id,
        };
        let now = match facts.now {
            None => return CreateStep::Need(CreateNeed::Now),
            Some(now) => now,
        };
        let ttl: i64 = match current.get("proposal_ttl_secs") {
            Some(v) => match v.as_i64() {
                Some(n) => n,
                None => DEFAULT_TTL_SECS,
            },
            None => DEFAULT_TTL_SECS,
        };
        let row = AdminAction {
            actor_role: role,
            actor_token_digest: digest.to_owned(),
            action: "propose_config".to_owned(),
            subject: text::join2("config_proposal:", identity::format_uuid(id).as_str()),
            before: None,
            after: Some(patch.clone()),
            reason: Some(cmd.reason.clone()),
        };
        let proposal = ConfigProposal {
            id,
            idempotency_key: cmd.idempotency_key.clone(),
            patch,
            patch_hash: hash,
            base_generation: base,
            proposer_token_id: digest.to_owned(),
            proposer_role: role,
            reason: cmd.reason.clone(),
            status: ProposalStatus::Pending,
            expires_at: now.plus_secs(ttl),
            confirmer_token_id: None,
            resulting_generation: None,
        };
        CreateStep::Create(proposal, row)
    }
}

/// A request to settle a proposal.
#[derive(Debug, Clone, PartialEq, Eq)]
pub struct SettleProposalCmd {
    pub actor: AdminContext,
    pub id: u128,
    pub reason: Option<String>,
}

/// The audit row of a settled proposal.
pub open spec fn settle_row(
    role: AdminRole,
    digest: Seq<char>,
    proposal: ProposalView,
    action: Seq<char>,
    reason: Option<Seq<char>>,
) -> ActionView {
    ActionView {
        actor_role: role,
        actor_token_digest: digest,
        action,
        subject: proposal_subject(proposal.id),
        before: None,
        after: Some(proposal.patch),
        reason,
    }
}

/// The audit row of a settled proposal.
fn settle_audit(
    role: AdminRole,
    digest: &str,
    proposal: &ConfigProposal,
    action: &str,
    reason: Option<String>,
) -> (r: AdminAction)
    ensures
        r@ == settle_row(role, digest@, proposal@, action@, text::option_view(reason)),
{
    AdminAction {
        actor_role: role,
        actor_token_digest: digest.to_owned(),
        action: action.to_owned(),
        subject: text::join2("config_proposal:", identity::format_uuid(proposal.id).as_str()),
        before: None,
        after: Some(proposal.patch.clone()),
        reason,
    }
}

/// What settling a proposal has read so far.
#[derive(Debug, PartialEq, Eq)]
pub struct SettleFacts {
    pub now: Option<Timestamp>,
    pub proposal: Option<ConfigProposal>,
    pub apply: ApplyFacts,
}

impl SettleFacts {
    /// Nothing read yet.
    pub fn new() -> (r: Self)
        ensures
            r.apply.wf(),
            r.now is None && r.proposal is None,
    {
        SettleFacts { now: None, proposal: None, apply: ApplyFacts::new() }
    }
}

/// What becomes of a proposal to be settled next.
#[derive(Debug, PartialEq, Eq)]
pub enum SettleStep {
    /// The time is needed.
    Now,
    /// The proposal is needed, locked.
    ProposalForUpdate,
    Need(ApplyNeed),
    Refuse(AppError),
    /// Store the expired proposal with its audit row, then refuse with the error.
    Expire(ConfigProposal, AdminAction, AppError),
    /// Store the settled proposal with its audit row.
    Settle(ConfigProposal, AdminAction),
    /// Write the patch, then store the confirmed proposal with its audit row.
    Confirm(AppliedPatch, ConfigProposal, AdminAction),
}

/// What becomes of a proposal to be settled next, as plain values.
pub enum SettleVerdict {
    Now,
    ProposalForUpdate,
    Need(NeedView),
    Refuse(Fault),
    Expire(ProposalView, ActionView, Fault),
    Settle(ProposalView, ActionView),
    Confirm(AppliedView, ProposalView, ActionView),
}

impl View for SettleStep {
    type V = SettleVerdict;

    open spec fn view(&self) -> SettleVerdict {
        match self {
            SettleStep::Now => SettleVerdict::Now,
            SettleStep::ProposalForUpdate => SettleVerdict::ProposalForUpdate,
            SettleStep::Need(n) => SettleVerdict::Need(n@),
            SettleStep::Refuse(e) => SettleVerdict::Refuse(e@),
            SettleStep::Expire(proposal, row, e) => SettleVerdict::Expire(proposal@, row@, e@),
            SettleStep::Settle(proposal, row) => SettleVerdict::Settle(proposal@, row@),
            SettleStep::Confirm(applied, proposal, row) => SettleVerdict::Confirm(
                applied@,
                proposal@,
                row@,
            ),
        }
    }
}

/// The proposal at another status.
pub open spec fn with_status(proposal: ProposalView, status: ProposalStatus) -> ProposalView {
    ProposalView { status, ..proposal }
}

/// What an error of the core means for a confirmation: a patch that is no longer
/// valid is a conflict.
pub open spec fn confirm_fault(fault: Fault) -> Fault {
    match fault {
        Fault::ConfigInvalid { .. } => Fault::ProposalConflict(
            "the base generation moved incompatibly"@,
        ),
        other => other,
    }
}

/// The step of a confirmation once the proposal is known to be pending and the
/// confirmer to be another principal.
pub open spec fn confirm_with(
    token_digest: Seq<char>,
    role: AdminRole,
    reason: Option<Seq<char>>,
    proposal: ProposalView,
    now: Timestamp,
    apply: ApplyFacts,
) -> SettleVerdict {
    match set_config::shape_fault(proposal.patch) {
        Some(f) => SettleVerdict::Refuse(f),
        None => if !may_propose_all(role, set_config::keys_of(proposal.patch)) {
            SettleVerdict::Refuse(
                Fault::AdminForbidden("role does not confirm changes to this config key"@),
            )
        } else {
            match set_config::apply_step(proposal.patch, now, None, apply) {
                ApplyVerdict::Need(n) => SettleVerdict::Need(n),
                ApplyVerdict::Refuse(f) => SettleVerdict::Refuse(confirm_fault(f)),
                ApplyVerdict::Apply(applied) => {
                    let confirmed = ProposalView {
                        status: ProposalStatus::Confirmed,
                        confirmer_token_id: Some(token_digest),
                        resulting_generation: Some(applied.generation as i64),
                        ..proposal
                    };
                    SettleVerdict::Confirm(
                        applied,
                        confirmed,
                        settle_row(role, token_digest, confirmed, "confirm_config_proposal"@, reason),
                    )
                },
            }
        },
    }
}

/// What becomes of a confirmation after what was read so far.
pub open spec fn confirm_step(cmd: SettleProposalCmd, facts: SettleFacts) -> SettleVerdict {
    match cmd.actor@ {
        ActorView::Machine => SettleVerdict::Refuse(
            Fault::AdminForbidden("config proposals require an admin actor"@),
        ),
        ActorView::Admin { token_digest, role } => match (facts.now, facts.proposal) {
            (None, _) => SettleVerdict::Now,
            (_, None) => SettleVerdict::ProposalForUpdate,
            (Some(now), Some(proposal)) => if proposal.status != ProposalStatus::Pending {
                SettleVerdict::Refuse(Fault::ProposalConflict("proposal is already settled"@))
            } else if now.0 >= proposal.expires_at.0 {
                let expired = with_status(proposal@, ProposalStatus::Expired);
                SettleVerdict::Expire(
                    expired,
                    settle_row(role, token_digest, expired, "expire_config_proposal"@, None),
                    Fault::ProposalConflict("proposal has expired"@),
                )
            } else if token_digest == proposal.proposer_token_id@ {
                SettleVerdict::Refuse(
                    Fault::AdminForbidden(
                        "confirmation requires a principal distinct from the proposer"@,
                    ),
                )
            } else {
                confirm_with(
                    token_digest,
                    role,
                    text::option_view(cmd.reason),
                    proposal@,
                    now,
                    facts.apply,
                )
            },
        },
    }
}

/// What becomes of a rejection after what was read so far.
pub open spec fn reject_step(cmd: SettleProposalCmd, facts: SettleFacts) -> SettleVerdict {
    match cmd.actor@ {
        ActorView::Machine => SettleVerdict::Refuse(
            Fault::AdminForbidden("config proposals require an admin actor"@),
        ),
        ActorView::Admin { token_digest, role } => match facts.proposal {
            None => SettleVerdict::ProposalForUpdate,
            Some(proposal) => if proposal.status != ProposalStatus::Pending {
                SettleVerdict::Refuse(Fault::ProposalConflict("proposal is already settled"@))
            } else {
                match facts.now {
                    None => SettleVerdict::Now,
                    Some(now) => {
                        let late = now.0 >= proposal.expires_at.0;
                        let settled = with_status(
                            proposal@,
                            if late {
                                ProposalStatus::Expired
                            } else {
                                ProposalStatus::Rejected
                            },
                        );
                        SettleVerdict::Settle(
                            settled,
                            settle_row(
                                role,
                                token_digest,
                                settled,
                                if late {
                                    "expire_config_proposal"@
                                } else {
                                    "reject_config_proposal"@
                                },
                                text::option_view(cmd.reason),
                            ),
                        )
                    },
                }
            },
        },
    }
}

/// Confirming proposals.
#[derive(Debug, Clone, Copy, PartialEq, Eq)]
pub struct ConfirmProposal;

impl ConfirmProposal {
    /// What to read next, or what the confirmed proposal writes. The patch is
    /// validated again, against the values as they are now.
    pub fn execute(&self, cmd: &SettleProposalCmd, facts: &SettleFacts) -> (r: SettleStep)
        requires
            facts.apply.wf(),
        ensures
            r@ == confirm_step(*cmd, *facts),
    {
        let (digest, role) = match &cmd.actor {
            AdminContext::Machine => return SettleStep::Refuse(
                AppError::AdminForbidden("config proposals require an admin actor"),
            ),
            AdminContext::Admin { token_digest, role } => (token_digest, *role),
        };
        let now = match facts.now {
            None => return SettleStep::Now,
            Some(now) => now,
        };
        let proposal = match &facts.proposal {
            None => return SettleStep::ProposalForUpdate,
            Some(proposal) => proposal,
        };
        if proposal.status != ProposalStatus::Pending {
            return SettleStep::Refuse(AppError::ProposalConflict("proposal is already settled"));
        }
        if !now.before(proposal.expires_at) {
            let mut expired = proposal.clone();
            expired.status = ProposalStatus::Expired;
            let row = settle_audit(
                role,
                digest.as_str(),
                &expired,
                "expire_config_proposal",
                None,
            );
            return SettleStep::Expire(
                expired,
                row,
                AppError::ProposalConflict("proposal has expired"),
            );
        }
        if text::same_text(digest.as_str(), proposal.proposer_token_id.as_str()) {
            return SettleStep::Refuse(
                AppError::AdminForbidden(
                    "confirmation requires a principal distinct from the proposer",
                ),
            );
        }
        let keys = match set_config::patch_keys(&proposal.patch) {
            Ok(keys) => keys,
            Err(e) => return SettleStep::Refuse(e),
        };
        if !role_may_propose_all(role, keys.as_slice()) {
            return SettleStep::Refuse(
                AppError::AdminForbidden("role does not confirm changes to this config key"),
            );
        }
        match set_config::apply_patch(&proposal.patch, now, None, &facts.apply) {
            ApplyStep::Need(n) => SettleStep::Need(n),
            ApplyStep::Refuse(AppError::ConfigInvalid { .. }) => SettleStep::Refuse(
                AppError::ProposalConflict("the base generation moved incompatibly"),
            ),
            ApplyStep::Refuse(e) => SettleStep::Refuse(e),
            ApplyStep::Apply(applied) => {
                let mut confirmed = proposal.clone();
                confirmed.status = ProposalStatus::Confirmed;
                confirmed.confirmer_token_id = Some(digest.clone());
                confirmed.resulting_generation = Some(applied.generation);
                let row = settle_audit(
                    role,
                    digest.as_str(),
                    &confirmed,
                    "confirm_config_proposal",
                    text::clone_option(&cmd.reason),
                );
                SettleStep::Confirm(applied, confirmed, row)
            },
        }
    }
}

/// Rejecting proposals.
#[derive(Debug, Clone, Copy, PartialEq, Eq)]
pub struct RejectProposal;

impl RejectProposal {
    /// What to read next, or the settled proposal. Either principal may reject;
    /// an expired proposal settles as expired.
    pub fn execute(&self, cmd: &SettleProposalCmd, facts: &SettleFacts) -> (r: SettleStep)
        ensures
            r@ == reject_step(*cmd, *facts),
    {
        let (digest, role) = match &cmd.actor {
            AdminContext::Machine => return SettleStep::Refuse(
                AppError::AdminForbidden("config proposals require an admin actor"),
            ),
            AdminContext::Admin { token_digest, role } => (token_digest, *role),
        };
        let proposal = match &facts.proposal {
            None => return SettleStep::ProposalForUpdate,
            Some(proposal) => proposal,
        };
        if proposal.status != ProposalStatus::Pending {
            return SettleStep::Refuse(AppError::ProposalConflict("proposal is already settled"));
        }
        let now = match facts.now {
            None => return SettleStep::Now,
            Some(now) => now,
        };
        let late = !now.before(proposal.expires_at);
        let mut settled = proposal.clone();
        settled.status = if late {
            ProposalStatus::Expired
        } else {
            ProposalStatus::Rejected
        };
        let row = settle_audit(
            role,
            digest.as_str(),
            &settled,
            if late {
                "expire_config_proposal"
            } else {
                "reject_config_proposal"
            },
            text::clone_option(&cmd.reason),
        );
        SettleStep::Settle(settled, row)
    }
}

/// A revert is never a pause: no key that pauses trading or voting is in it.
pub proof fn law_revert_never_pauses(changes: Seq<ChangeView>, i: int)
    requires
        0 <= i < revert_members(changes).len(),
    ensures
        !is_pause(revert_members(changes)[i].0),
    decreases changes.len(),
{
    if changes.len() > 0 {
        let head = revert_members(changes.drop_last());
        if i < head.len() {
            law_revert_never_pauses(changes.drop_last(), i);
        }
    }
}

/// A revert puts back every changed key: each member is a changed key with the
/// value it had before, and no changed key but the pauses is left out.
pub proof fn law_revert_restores_the_old_values(changes: Seq<ChangeView>, i: int)
    requires
        revert_fault(changes) is None,
        0 <= i < changes.len(),
        !is_pause(changes[i].key),
    ensures
        changes[i].old is Some,
        revert_members(changes).contains((changes[i].key, changes[i].old.unwrap())),
{
    lemma_revert_has(changes, i);
}

proof fn lemma_revert_has(changes: Seq<ChangeView>, i: int)
    requires
        created_key(changes) is None,
        0 <= i < changes.len(),
        !is_pause(changes[i].key),
    ensures
        changes[i].old is Some,
        revert_members(changes).contains((changes[i].key, changes[i].old.unwrap())),
    decreases changes.len(),
{
    let head = revert_members(changes.drop_last());
    if i < changes.len() - 1 {
        lemma_revert_has(changes.drop_last(), i);
        let want = (changes[i].key, changes[i].old.unwrap());
        let k = choose|k: int| 0 <= k < head.len() && head[k] == want;
        assert(revert_members(changes)[k] == want);
    } else {
        let want = (changes[i].key, changes[i].old.unwrap());
        assert(revert_members(changes)[head.len() as int] == want);
    }
}

/// Dual control: whatever a confirmation writes was proposed by another token,
/// had not expired, and is within the roles of the one who confirms.
pub proof fn law_confirmed_proposals_passed_dual_control(cmd: SettleProposalCmd, facts: SettleFacts)
    requires
        confirm_step(cmd, facts) is Confirm,
    ensures
        cmd.actor@ is Admin,
        facts.proposal matches Some(proposal) && proposal.status == ProposalStatus::Pending
            && proposal.proposer_token_id@ != cmd.actor@->token_digest && (facts.now matches Some(
            now,
        ) && now.0 < proposal.expires_at.0) && may_propose_all(
            cmd.actor@->role,
            set_config::keys_of(proposal.patch@),
        ),
{
}

/// Who may propose and confirm changes of a key: the role that the catalog lists
/// for it, and a superadmin; nobody for a key that the catalog does not know.
pub proof fn law_who_may_propose(role: AdminRole, key: Seq<char>, listed: AdminRole)
    ensures
        catalog::rule_of(key) matches Some(rule) ==> (rule.write == WriteRule::TwoPhase(listed)
            || rule.write == WriteRule::Direct(listed)) ==> (may_propose(role, key) <==> role
            == listed || role == AdminRole::Superadmin),
        catalog::rule_of(key) is None ==> !may_propose(role, key),
{
}

/// Only keys that need two phases are proposed: a patch with any other key is
/// refused for the first of them.
pub proof fn law_only_sensitive_keys_are_proposed(keys: Seq<Seq<char>>)
    ensures
        direct_key(keys) is None <==> forall|i: int|
            0 <= i < keys.len() ==> (catalog::rule_of(#[trigger] keys[i]) matches Some(rule)
                && rule.write is TwoPhase),
    decreases keys.len(),
{
    if keys.len() > 0 {
        let head = keys.drop_last();
        law_only_sensitive_keys_are_proposed(head);
        assert(keys.last() == keys[keys.len() - 1]);
        if direct_key(head) is None {
            assert forall|i: int| 0 <= i < keys.len() - 1 implies (catalog::rule_of(
                #[trigger] keys[i],
            ) matches Some(rule) && rule.write is TwoPhase) by {
                assert(head[i] == keys[i]);
            }
        } else {
            let i = choose|i: int|
                0 <= i < head.len() && !(catalog::rule_of(#[trigger] head[i]) matches Some(rule)
                    && rule.write is TwoPhase);
            assert(keys[i] == head[i]);
        }
    }
}

/// A revert takes each change back in order and leaves the pauses alone; a key
/// that was created cannot be taken back.
pub proof fn law_reverts_take_changes_back(changes: Seq<ChangeView>, change: ChangeView)
    ensures
        is_pause(change.key) ==> revert_members(changes.push(change)) == revert_members(changes)
            && created_key(changes.push(change)) == created_key(changes),
        !is_pause(change.key) ==> (change.old matches Some(was) ==> revert_members(
            changes.push(change),
        ) == revert_members(changes).push((change.key, was)) && created_key(changes.push(change))
            == created_key(changes)),
        !is_pause(change.key) && change.old is None && created_key(changes) is None ==> created_key(
            changes.push(change),
        ) == Some(change.key),
        revert_fault(Seq::empty()) is Some,
        created_key(changes) is Some ==> revert_fault(changes) is Some,
        changes.len() > 0 && created_key(changes) is None ==> (revert_fault(changes) is None
            <==> revert_members(changes).len() > 0),
{
    assert(changes.push(change).drop_last() =~= changes);
    if changes.len() == 0 {
        assert(created_key(changes) is None);
    }
}

/// Which keys are pauses: the global one, and those of a market.
pub proof fn law_which_keys_are_pauses(market: Seq<char>)
    ensures
        is_pause("trading_paused"@),
        is_pause("market_paused:"@ + market),
        is_pause("voting_paused:"@ + market),
        !is_pause("min_fee_bps"@),
        !is_pause("trade_fee_bps"@),
{
    reveal_strlit("trading_paused");
    reveal_strlit("market_paused:");
    reveal_strlit("voting_paused:");
    reveal_strlit("min_fee_bps");
    reveal_strlit("trade_fee_bps");
    assert("trading_paused"@.len() == 14 && "market_paused:"@.len() == 14 && "voting_paused:"@.len()
        == 14 && "min_fee_bps"@.len() == 11 && "trade_fee_bps"@.len() == 13);
    text::law_prefixes_come_off("market_paused:"@, market, market);
    text::law_prefixes_come_off("voting_paused:"@, market, market);
}

/// What a new proposal holds: the patch, the locked generation, its proposer, and
/// an expiry as long after now as the catalog says, a quarter of an hour where it
/// says nothing; and its audit row says the same.
pub proof fn law_what_a_new_proposal_holds(cmd: CreateProposalCmd, facts: CreateFacts)
    requires
        facts.wf(),
    ensures
        create_step(cmd, facts) matches CreateVerdict::Create(p, row) ==> ({
            &&& cmd.actor@ matches ActorView::Admin { token_digest, role } && p.proposer_token_id
                == token_digest && p.proposer_role == role && row.actor_role == role
                && row.actor_token_digest == token_digest
            &&& facts.generation == Some(p.base_generation)
            &&& facts.fresh_id == Some(p.id)
            &&& p.status == ProposalStatus::Pending && p.confirmer_token_id is None
                && p.resulting_generation is None
            &&& p.idempotency_key == cmd.idempotency_key@ && p.reason == cmd.reason@
            &&& cmd.patch matches Some(given) ==> cmd.revert_of_generation is None && p.patch
                == given@
            &&& cmd.patch is None ==> cmd.revert_of_generation is Some && (
            facts.history matches Some(changes) && p.patch == JsonView::Object(
                revert_members(model::changes_view(changes@)),
            ))
            &&& row.action == "propose_config"@ && row.after == Some(p.patch) && row.reason == Some(
                cmd.reason@,
            )
            &&& facts.now matches Some(now) && (facts.entries matches Some(entries) && (
            match snapshot::value_at(
                json::to_map(snapshot::entries_view(entries@)),
                "proposal_ttl_secs"@,
            ) {
                Some(JsonView::Int(secs)) => p.expires_at.0 == now.0 + 1_000_000_000 * secs,
                _ => p.expires_at.0 == now.0 + 900_000_000_000,
            }))
        }),
{
}

/// A pending proposal is confirmed exactly before it expires, by another token
/// whose role may propose every key of it, and where its patch still applies. What
/// is stored is the proposal with who confirmed it and what it led to.
pub proof fn law_when_a_proposal_is_confirmed(
    cmd: SettleProposalCmd,
    facts: SettleFacts,
    proposal: ConfigProposal,
    now: Timestamp,
)
    requires
        facts.proposal == Some(proposal),
        facts.now == Some(now),
        set_config::shape_fault(proposal.patch@) is None,
    ensures
        confirm_step(cmd, facts) is Confirm <==> (cmd.actor@ matches ActorView::Admin {
            token_digest,
            role,
        } && token_digest != proposal.proposer_token_id@ && (forall|i: int|
            0 <= i < set_config::keys_of(proposal.patch@).len() ==> may_propose(
                role,
                #[trigger] set_config::keys_of(proposal.patch@)[i],
            ))) && proposal.status == ProposalStatus::Pending && now.0 < proposal.expires_at.0
            && set_config::apply_step(proposal.patch@, now, None, facts.apply) is Apply,
        confirm_step(cmd, facts) matches SettleVerdict::Confirm(applied, done, row) ==> (
        cmd.actor@ matches ActorView::Admin { token_digest, role } && done.status
            == ProposalStatus::Confirmed && done.confirmer_token_id == Some(token_digest)
            && done.resulting_generation == Some(applied.generation as i64) && done.patch
            == proposal.patch@ && done.id == proposal.id && done.proposer_token_id
            == proposal.proposer_token_id@ && done.base_generation == proposal.base_generation
            && row.action == "confirm_config_proposal"@ && row.actor_role == role
            && row.actor_token_digest == token_digest && row.after == Some(proposal.patch@)),
        cmd.actor@ is Admin && proposal.status == ProposalStatus::Pending ==> (confirm_step(
            cmd,
            facts,
        ) is Expire <==> now.0 >= proposal.expires_at.0),
{
}

/// A pending proposal that is rejected in time is rejected, and later it is
/// expired; whoever administers may do either, the proposer too.
pub proof fn law_what_a_rejection_settles(
    cmd: SettleProposalCmd,
    facts: SettleFacts,
    proposal: ConfigProposal,
    now: Timestamp,
)
    requires
        facts.proposal == Some(proposal),
        facts.now == Some(now),
        cmd.actor@ is Admin,
    ensures
        reject_step(cmd, facts) is Settle <==> proposal.status == ProposalStatus::Pending,
        reject_step(cmd, facts) matches SettleVerdict::Settle(done, row) ==> done.status == (if now.0
            < proposal.expires_at.0 {
            ProposalStatus::Rejected
        } else {
            ProposalStatus::Expired
        }) && done.patch == proposal.patch@ && done.id == proposal.id && done.confirmer_token_id
            == text::option_view(proposal.confirmer_token_id) && done.resulting_generation
            == proposal.resulting_generation,
{
}

/// A patch that no longer applies is a conflict for whoever confirms it; every
/// other refusal stays what it is.
pub proof fn law_outdated_patches_are_conflicts(fault: Fault)
    ensures
        fault is ConfigInvalid ==> confirm_fault(fault) is ProposalConflict,
        fault !is ConfigInvalid ==> confirm_fault(fault) == fault,
{
}

/// A proposal is a patch or the revert of a generation: both or neither is
/// refused.
pub proof fn law_proposals_have_one_source(
    patch: JsonView,
    generation: i64,
    history: Option<Seq<ChangeView>>,
)
    ensures
        patch_source(Some(patch), Some(generation), history) is Fault,
        patch_source(None, None, history) is Fault,
        patch_source(None, Some(generation), None) == PatchSource::Need(generation),
        patch_source(Some(patch), None, history) matches PatchSource::Patch(p) ==> p == patch,
{
}

} // verus!
