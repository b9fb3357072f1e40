//! Changing the configuration: direct writes, proposals under dual control, fee
//! overrides, and the watch that previews read, over a small store in memory.

use opinions::clock::Timestamp;
use opinions::error::{AppError, StoreError};
use opinions::json::Json;
use opinions::model::{
    AdminAction, AdminContext, AdminRole, ConfigChange, ConfigEntry, Event, MarketId,
    ProposalStatus,
};
use opinions::ops::audit::{
    audit_for, page_limit, principal_digest, required_audit_for, OpsError, OpsPolicy,
};
use opinions::ops::fee_override::{
    override_key, ConfirmFeeOverride, ConfirmFeeOverrideOp, ConfirmOverrideStep,
    FeeOverrideProposal, FeeOverrideStatus, FeeOverrideValue, OverrideFacts, OverrideNeed,
    OverrideStep, ProposeFeeOverride, ProposeFeeOverrideOp, FEE_OVERRIDE_DELAY_SECS,
    FEE_OVERRIDE_WINDOW_SECS, MARKET_FEE_CHANGED,
};
use opinions::ops::proposals::{
    revert_patch_from_changes, role_may_propose, ConfigProposal, ConfirmProposal, CreateFacts,
    CreateNeed, CreateProposal, CreateProposalCmd, CreateStep, RejectProposal, SettleFacts,
    SettleProposalCmd, SettleStep,
};
use opinions::ops::reconciler::{ConfigSnapshot, ConfigWatch, Reconciler, StaticConfigReads};
use opinions::ops::set_config::{
    market_of, patch_keys, pause_frames, AppliedPatch, ApplyFacts, ApplyNeed, MarketTimes,
    SetConfig, SetConfigCmd, SetConfigOutcome, SetConfigStep,
};
use opinions::ops::snapshot::Snapshot;
use std::collections::BTreeMap;

const MARKET: MarketId = MarketId(77);

fn start() -> Timestamp {
    Timestamp::from_secs(1_700_000_000)
}

fn ints(values: [i64; 5]) -> Json {
    Json::Array(values.map(Json::Int).into())
}

fn patch(key: &str, value: Json) -> Json {
    Json::Object(vec![(key.to_string(), value)])
}

fn admin(role: AdminRole, token: &str) -> AdminContext {
    AdminContext::Admin { token_digest: token.to_string(), role }
}

fn market_key(prefix: &str) -> String {
    format!("{prefix}:{}", uuid::Uuid::from_u128(MARKET.0))
}

struct World {
    now: Timestamp,
    entries: BTreeMap<String, Json>,
    generation: i64,
    history: BTreeMap<i64, Vec<ConfigChange>>,
    proposals: BTreeMap<u128, ConfigProposal>,
    audits: Vec<AdminAction>,
    outbox: Vec<Event>,
    market: Option<MarketTimes>,
    next_id: u128,
}

impl World {
    fn new() -> World {
        let mut entries = BTreeMap::new();
        entries.insert("trade_fee_bps".to_string(), Json::Int(100));
        entries.insert("min_fee_bps".to_string(), Json::Int(10));
        entries.insert("sweep_delay_secs".to_string(), Json::Int(180));
        entries.insert("discount_flip_window_secs".to_string(), Json::Int(3600));
        entries.insert("fee_discount_bp_by_tier".to_string(), ints([0, 0, 10, 20, 30]));
        entries.insert(
            "position_cap_micro_by_tier".to_string(),
            ints([25_000_000, 50_000_000, 100_000_000, 250_000_000, 500_000_000]),
        );
        entries.insert("trading_paused".to_string(), Json::Bool(false));
        entries.insert("daily_slots".to_string(), Json::Int(2));
        World {
            now: start(),
            entries,
            generation: 1,
            history: BTreeMap::new(),
            proposals: BTreeMap::new(),
            audits: Vec::new(),
            outbox: Vec::new(),
            market: Some(MarketTimes {
                tally_hidden_at: start().plus_secs(3_600),
                closes_at: start().plus_secs(7_200),
            }),
            next_id: 1,
        }
    }

    fn rows(&self) -> Vec<ConfigEntry> {
        self.entries
            .iter()
            .map(|(key, value)| ConfigEntry { key: key.clone(), value: value.clone() })
            .collect()
    }

    fn answer(&self, need: ApplyNeed, facts: &mut ApplyFacts) {
        match need {
            ApplyNeed::ExclusiveFences(_) => facts.fences_held = true,
            ApplyNeed::LockGeneration => facts.generation = Some(self.generation),
            ApplyNeed::ConfigEntries => facts.entries = Some(self.rows()),
            ApplyNeed::MarketTimes(market) => {
                let times = if market == MARKET { self.market } else { None };
                facts.markets.push((market, times));
            }
        }
    }

    fn commit(&mut self, applied: AppliedPatch) {
        for change in &applied.changes {
            self.entries.insert(change.key.clone(), change.new.clone());
        }
        self.generation = applied.generation;
        if !applied.changes.is_empty() {
            self.history.insert(applied.generation, applied.changes);
        }
        self.outbox.extend(applied.events);
    }

    fn set(&mut self, cmd: &SetConfigCmd) -> Result<SetConfigOutcome, AppError> {
        let mut facts = ApplyFacts::new();
        let mut now: Option<Timestamp> = None;
        loop {
            match SetConfig.execute(cmd, now, &facts) {
                SetConfigStep::Now => now = Some(self.now),
                SetConfigStep::Need(need) => self.answer(need, &mut facts),
                SetConfigStep::Refuse(e) => return Err(e),
                SetConfigStep::Apply(applied, audit) => {
                    let outcome = applied.outcome();
                    self.commit(applied);
                    self.audits.push(audit);
                    return Ok(outcome);
                }
            }
        }
    }

    fn create(&mut self, cmd: &CreateProposalCmd) -> Result<ConfigProposal, AppError> {
        let mut facts = CreateFacts::new();
        loop {
            match CreateProposal.execute(cmd, &facts) {
                CreateStep::Refuse(e) => return Err(e),
                CreateStep::Replay => {
                    let found = self
                        .proposals
                        .values()
                        .find(|p| p.idempotency_key == cmd.idempotency_key);
                    return Ok(found.unwrap().clone());
                }
                CreateStep::Create(proposal, audit) => {
                    self.proposals.insert(proposal.id, proposal.clone());
                    self.audits.push(audit);
                    return Ok(proposal);
                }
                CreateStep::Need(need) => match need {
                    CreateNeed::ChangesInGeneration(g) => {
                        facts.history =
                            Some(self.history.get(&g).map_or(Vec::new(), Vec::clone));
                    }
                    CreateNeed::LockGeneration => facts.generation = Some(self.generation),
                    CreateNeed::ConfigEntries => facts.entries = Some(self.rows()),
                    CreateNeed::ProposalByKey => {
                        let found = self
                            .proposals
                            .values()
                            .find(|p| p.idempotency_key == cmd.idempotency_key);
                        facts.existing = Some(found.cloned());
                    }
                    CreateNeed::Now => facts.now = Some(self.now),
                    CreateNeed::FreshId => {
                        self.next_id += 1;
                        facts.fresh_id = Some(self.next_id);
                    }
                },
            }
        }
    }

    fn settle(
        &mut self,
        confirm: bool,
        cmd: &SettleProposalCmd,
    ) -> Result<ConfigProposal, AppError> {
        let mut facts = SettleFacts::new();
        loop {
            let step = if confirm {
                ConfirmProposal.execute(cmd, &facts)
            } else {
                RejectProposal.execute(cmd, &facts)
            };
            match step {
                SettleStep::Now => facts.now = Some(self.now),
                SettleStep::ProposalForUpdate => match self.proposals.get(&cmd.id) {
                    Some(p) => facts.proposal = Some(p.clone()),
                    None => return Err(AppError::Store(StoreError::NotFound("proposal"))),
                },
                SettleStep::Need(need) => self.answer(need, &mut facts.apply),
                SettleStep::Refuse(e) => return Err(e),
                SettleStep::Expire(p, audit, e) => {
                    self.proposals.insert(p.id, p);
                    self.audits.push(audit);
                    return Err(e);
                }
                SettleStep::Settle(p, audit) => {
                    self.proposals.insert(p.id, p.clone());
                    self.audits.push(audit);
                    return Ok(p);
                }
                SettleStep::Confirm(applied, p, audit) => {
                    self.commit(applied);
                    self.proposals.insert(p.id, p.clone());
                    self.audits.push(audit);
                    return Ok(p);
                }
            }
        }
    }

    fn confirm(
        &mut self,
        role: AdminRole,
        token: &str,
        id: u128,
    ) -> Result<ConfigProposal, AppError> {
        self.settle(true, &SettleProposalCmd { actor: admin(role, token), id, reason: None })
    }

    fn reject(&mut self, actor: AdminContext, id: u128) -> Result<ConfigProposal, AppError> {
        self.settle(
            false,
            &SettleProposalCmd { actor, id, reason: Some("wrong number".to_string()) },
        )
    }

    fn propose(&mut self, key: &str, value: Json) -> Result<ConfigProposal, AppError> {
        self.create(&proposal_cmd(admin(AdminRole::Finance, "finance-1"), value, key))
    }

    fn propose_fee(&mut self, key: &str, fee: i64) -> ConfigProposal {
        self.propose(key, patch("trade_fee_bps", Json::Int(fee))).unwrap()
    }
}

fn proposal_cmd(actor: AdminContext, patch: Json, key: &str) -> CreateProposalCmd {
    CreateProposalCmd {
        actor,
        patch: Some(patch),
        revert_of_generation: None,
        reason: "reason".to_string(),
        idempotency_key: key.to_string(),
    }
}

fn set_cmd(role: AdminRole, patch: Json) -> SetConfigCmd {
    SetConfigCmd {
        actor: admin(role, "digest"),
        patch,
        reason: "test".to_string(),
        idempotency_key: "set-1".to_string(),
        expected_base_generation: None,
    }
}

// Direct writes.

#[test]
fn a_direct_ops_key_applies_with_generation_change_row_audit_and_wake() {
    let mut world = World::new();
    let outcome = world
        .set(&set_cmd(AdminRole::Ops, patch("sweep_delay_secs", Json::Int(300))))
        .unwrap();
    assert_eq!(outcome.generation, 2, "the seed is generation 1");
    assert_eq!(outcome.changed_keys, vec!["sweep_delay_secs".to_string()]);
    assert_eq!(world.entries["sweep_delay_secs"], Json::Int(300));
    assert_eq!(world.generation, 2);
    let changes = &world.history[&2];
    assert_eq!(changes.len(), 1);
    assert_eq!(changes[0].old, Some(Json::Int(180)));
    assert_eq!(changes[0].new, Json::Int(300));
    assert_eq!(world.audits.len(), 1);
    assert_eq!(world.audits[0].action, "set_config");
    assert_eq!(world.audits[0].actor_role, AdminRole::Ops);
    assert_eq!(world.outbox.len(), 1, "one ConfigChanged wake, no pause frame");
    assert_eq!(world.outbox[0].event_type, "ConfigChanged");
}

#[test]
fn sensitive_keys_and_wrong_roles_and_machines_are_403() {
    let mut world = World::new();
    let err = world
        .set(&set_cmd(AdminRole::Finance, patch("trade_fee_bps", Json::Int(110))))
        .unwrap_err();
    assert!(matches!(err, AppError::AdminForbidden(_)), "sensitive keys need a proposal");
    let err = world
        .set(&set_cmd(AdminRole::Finance, patch("sweep_delay_secs", Json::Int(300))))
        .unwrap_err();
    assert!(matches!(err, AppError::AdminForbidden(_)), "ops key, finance actor");
    let mut machine = set_cmd(AdminRole::Ops, patch("sweep_delay_secs", Json::Int(300)));
    machine.actor = AdminContext::Machine;
    assert!(matches!(world.set(&machine), Err(AppError::AdminForbidden(_))));
    assert_eq!(world.generation, 1, "nothing observable on error");
    assert!(world.outbox.is_empty());
    assert!(world.audits.is_empty());
}

#[test]
fn bounds_violations_are_typed_422_and_write_nothing() {
    let mut world = World::new();
    let err = world
        .set(&set_cmd(AdminRole::Ops, patch("sweep_delay_secs", Json::Int(30))))
        .unwrap_err();
    assert!(matches!(err, AppError::ConfigInvalid { .. }));
    let err = world.set(&set_cmd(AdminRole::Ops, patch("nope", Json::Int(1)))).unwrap_err();
    assert!(matches!(err, AppError::ConfigInvalid { .. }));
    assert_eq!(world.generation, 1);
}

#[test]
fn a_moved_expected_base_is_a_typed_409() {
    let mut world = World::new();
    let mut command = set_cmd(AdminRole::Ops, patch("sweep_delay_secs", Json::Int(300)));
    command.expected_base_generation = Some(7);
    assert_eq!(
        world.set(&command),
        Err(AppError::StaleConfig { preview_generation: 7, current_generation: 1 })
    );
}

#[test]
fn a_noop_patch_keeps_the_generation_but_still_audits() {
    let mut world = World::new();
    let outcome = world
        .set(&set_cmd(AdminRole::Ops, patch("sweep_delay_secs", Json::Int(180))))
        .unwrap();
    assert_eq!(outcome.generation, 1);
    assert!(outcome.changed_keys.is_empty());
    assert_eq!(world.generation, 1);
    assert!(world.outbox.is_empty(), "no wake for a no-op");
    assert_eq!(world.audits.len(), 1, "the admin action is still a fact");
}

#[test]
fn a_trading_pause_emits_its_public_frame_in_the_same_commit() {
    let mut world = World::new();
    world
        .set(&set_cmd(AdminRole::Ops, patch("trading_paused", Json::Bool(true))))
        .unwrap();
    assert_eq!(world.outbox.len(), 2);
    assert_eq!(world.outbox[0].event_type, "TradingPaused");
    assert_eq!(world.outbox[1].event_type, "ConfigChanged");
    world
        .set(&set_cmd(AdminRole::Ops, patch("trading_paused", Json::Bool(false))))
        .unwrap();
    assert_eq!(world.outbox[2].event_type, "TradingResumed");
}

#[test]
fn market_pause_resume_is_forbidden_inside_the_hidden_window() {
    let mut world = World::new();
    let key = market_key("market_paused");
    world.set(&set_cmd(AdminRole::Ops, patch(&key, Json::Bool(true)))).unwrap();
    world.now = start().plus_secs(90 * 60);
    let err =
        world.set(&set_cmd(AdminRole::Ops, patch(&key, Json::Bool(false)))).unwrap_err();
    assert!(matches!(err, AppError::ProposalConflict(_)));
    world.now = start().plus_secs(3 * 3_600);
    world.set(&set_cmd(AdminRole::Ops, patch(&key, Json::Bool(false)))).unwrap();
}

#[test]
fn concurrent_writers_serialize_on_the_generation_row() {
    let mut world = World::new();
    let a = world
        .set(&set_cmd(AdminRole::Ops, patch("sweep_delay_secs", Json::Int(240))))
        .unwrap();
    let b = world
        .set(&set_cmd(AdminRole::Ops, patch("sweep_delay_secs", Json::Int(300))))
        .unwrap();
    assert_eq!(
        vec![a.generation, b.generation],
        vec![2, 3],
        "one generation per writer, serialized"
    );
    assert_eq!(world.generation, 3);
}

#[test]
fn patch_and_pause_frame_helpers_cover_empty_invalid_and_resume_shapes() {
    assert!(matches!(
        patch_keys(&Json::Object(Vec::new())),
        Err(AppError::ConfigInvalid { .. })
    ));
    assert!(matches!(market_of("bad"), Err(AppError::ConfigInvalid { .. })));
    let market = uuid::Uuid::new_v4();
    assert_eq!(market_of(&market.to_string()).unwrap(), MarketId(market.as_u128()));
    let events = pause_frames(&[
        ConfigChange {
            key: format!("market_paused:{market}"),
            old: Some(Json::Bool(true)),
            new: Json::Bool(false),
        },
        ConfigChange {
            key: format!("voting_paused:{market}"),
            old: Some(Json::Bool(true)),
            new: Json::Bool(false),
        },
        ConfigChange {
            key: "market_paused:not-a-uuid".into(),
            old: None,
            new: Json::Bool(true),
        },
        ConfigChange {
            key: "voting_paused:not-a-uuid".into(),
            old: None,
            new: Json::Bool(true),
        },
    ]);
    assert_eq!(events.len(), 2);
    assert_eq!(events[0].event_type, "TradingResumed");
    assert_eq!(events[1].event_type, "MarketVotingResumed");
    assert_eq!(events[0].aggregate_id, market.as_u128());
    assert_eq!(
        events[0].payload,
        Json::Object(vec![("market_id".to_string(), Json::Text(market.to_string()))])
    );
}

#[test]
fn matching_expected_generation_applies_normally() {
    let mut world = World::new();
    let mut command = set_cmd(AdminRole::Ops, patch("sweep_delay_secs", Json::Int(300)));
    command.expected_base_generation = Some(1);
    assert_eq!(world.set(&command).unwrap().generation, 2);
}

// Proposals.

#[test]
fn the_two_phase_happy_path_applies_with_distinct_tokens() {
    let mut world = World::new();
    let proposal = world.propose_fee("p-1", 115);
    assert_eq!(proposal.status, ProposalStatus::Pending);
    assert_eq!(proposal.base_generation, 1);
    assert_eq!(world.entries["trade_fee_bps"], Json::Int(100), "no apply yet");
    let confirmed = world.confirm(AdminRole::Finance, "finance-2", proposal.id).unwrap();
    assert_eq!(confirmed.status, ProposalStatus::Confirmed);
    assert_eq!(confirmed.resulting_generation, Some(2));
    assert_eq!(world.entries["trade_fee_bps"], Json::Int(115));
    assert_eq!(world.generation, 2);
    assert_eq!(world.audits.len(), 2, "propose + confirm each audit");
    assert_eq!(world.audits[0].action, "propose_config");
    assert_eq!(world.audits[1].action, "confirm_config_proposal");
}

#[test]
fn same_token_confirmation_is_403_and_applies_nothing() {
    let mut world = World::new();
    let proposal = world.propose_fee("p-2", 115);
    let err = world.confirm(AdminRole::Finance, "finance-1", proposal.id).unwrap_err();
    assert!(matches!(err, AppError::AdminForbidden(_)));
    assert_eq!(world.entries["trade_fee_bps"], Json::Int(100));
    assert_eq!(world.generation, 1);
}

#[test]
fn a_non_sensitive_key_is_rejected_toward_set_config() {
    let mut world = World::new();
    let err = world
        .create(&proposal_cmd(
            admin(AdminRole::Ops, "ops-1"),
            patch("sweep_delay_secs", Json::Int(300)),
            "p-3",
        ))
        .unwrap_err();
    assert!(matches!(err, AppError::ConfigInvalid { .. }));
}

#[test]
fn out_of_bounds_patches_422_at_create_time() {
    let mut world = World::new();
    let err = world.propose("p-4", patch("trade_fee_bps", Json::Int(500))).unwrap_err();
    assert!(matches!(err, AppError::ConfigInvalid { .. }));
}

#[test]
fn create_is_idempotent_by_key_and_conflicts_on_a_different_patch() {
    let mut world = World::new();
    let first = world.propose_fee("p-5", 115);
    let replay = world.propose_fee("p-5", 115);
    assert_eq!(first.id, replay.id, "same key + same patch replays");
    let err = world.propose("p-5", patch("trade_fee_bps", Json::Int(120))).unwrap_err();
    assert!(matches!(err, AppError::ProposalConflict(_)));
}

#[test]
fn expiry_refuses_confirmation_and_settles_the_row() {
    let mut world = World::new();
    let proposal = world.propose_fee("p-6", 115);
    world.now = start().plus_secs(901);
    let err = world.confirm(AdminRole::Finance, "finance-2", proposal.id).unwrap_err();
    assert!(matches!(err, AppError::ProposalConflict(_)));
    assert_eq!(
        world.proposals[&proposal.id].status,
        ProposalStatus::Expired,
        "the expiry is settled durably"
    );
    assert_eq!(world.generation, 1);
    let err = world.confirm(AdminRole::Finance, "finance-2", proposal.id).unwrap_err();
    assert!(matches!(err, AppError::ProposalConflict(_)));
}

#[test]
fn reject_unblocks_a_fresh_proposal_for_the_same_key() {
    let mut world = World::new();
    let first = world.propose_fee("p-7", 115);
    let rejected = world.reject(admin(AdminRole::Finance, "finance-1"), first.id).unwrap();
    assert_eq!(rejected.status, ProposalStatus::Rejected);
    assert_eq!(world.generation, 1, "reject applies nothing");
    let second = world.propose_fee("p-8", 118);
    let confirmed = world.confirm(AdminRole::Superadmin, "root-1", second.id).unwrap();
    assert_eq!(confirmed.status, ProposalStatus::Confirmed);
    assert_eq!(world.entries["trade_fee_bps"], Json::Int(118));
}

#[test]
fn an_incompatibly_moved_base_conflicts_at_confirm_time() {
    let mut world = World::new();
    let a = world.propose_fee("p-9", 118);
    let b = world.propose_fee("p-10", 85);
    world.confirm(AdminRole::Finance, "finance-2", b.id).unwrap();
    assert_eq!(
        world.confirm(AdminRole::Finance, "finance-2", a.id),
        Err(AppError::ProposalConflict("the base generation moved incompatibly"))
    );
    assert_eq!(world.entries["trade_fee_bps"], Json::Int(85));
}

#[test]
fn emergency_revert_prefills_from_history_under_the_same_dual_control() {
    let mut world = World::new();
    let p = world.propose_fee("p-11", 115);
    world.confirm(AdminRole::Finance, "finance-2", p.id).unwrap();
    assert_eq!(world.generation, 2);
    let revert = world
        .create(&CreateProposalCmd {
            actor: admin(AdminRole::Finance, "finance-1"),
            patch: None,
            revert_of_generation: Some(2),
            reason: "revert the fee move".to_string(),
            idempotency_key: "p-12".to_string(),
        })
        .unwrap();
    assert_eq!(revert.patch, patch("trade_fee_bps", Json::Int(100)), "pre-filled from old");
    let err = world.confirm(AdminRole::Finance, "finance-1", revert.id).unwrap_err();
    assert!(matches!(err, AppError::AdminForbidden(_)));
    world.confirm(AdminRole::Finance, "finance-2", revert.id).unwrap();
    assert_eq!(world.entries["trade_fee_bps"], Json::Int(100));
    assert_eq!(world.generation, 3, "a revert is a NEW generation");
}

#[test]
fn a_voting_pause_rides_proposals_and_respects_the_hidden_window() {
    let mut world = World::new();
    let key = market_key("voting_paused");
    let pause = |idem: &str| {
        proposal_cmd(
            admin(AdminRole::Superadmin, "root-1"),
            patch(&key, Json::Bool(true)),
            idem,
        )
    };
    let p = world.create(&pause("p-13")).unwrap();
    world.now = start().plus_secs(61 * 60);
    let err = world.confirm(AdminRole::Superadmin, "root-2", p.id).unwrap_err();
    assert!(matches!(err, AppError::ProposalConflict(_)));
    world.now = start().plus_secs(5 * 60);
    let p2 = world.create(&pause("p-14")).unwrap();
    world.confirm(AdminRole::Superadmin, "root-2", p2.id).unwrap();
    assert_eq!(world.entries[&key], Json::Bool(true));
    assert!(world.outbox.iter().any(|e| e.event_type == "MarketVotingPaused"));
    world.now = start().plus_secs(61 * 60);
    let p3 = world.create(&pause("p-14-late-repeat")).unwrap();
    assert!(matches!(
        world.confirm(AdminRole::Superadmin, "root-2", p3.id),
        Err(AppError::ProposalConflict(_))
    ));
}

#[test]
fn machine_actors_and_unlisted_roles_cannot_propose() {
    let mut world = World::new();
    for actor in [AdminContext::Machine, admin(AdminRole::Curator, "curator-1")] {
        let err = world
            .create(&proposal_cmd(actor, patch("trade_fee_bps", Json::Int(110)), "p-15"))
            .unwrap_err();
        assert!(matches!(err, AppError::AdminForbidden(_)));
    }
}

#[test]
fn revert_prefill_rejects_missing_pause_only_and_created_keys() {
    assert!(matches!(
        revert_patch_from_changes(&[]),
        Err(AppError::Store(StoreError::NotFound("config generation")))
    ));
    assert!(matches!(
        revert_patch_from_changes(&[ConfigChange {
            key: "trading_paused".into(),
            old: Some(Json::Bool(false)),
            new: Json::Bool(true),
        }]),
        Err(AppError::ConfigInvalid { .. })
    ));
    assert!(matches!(
        revert_patch_from_changes(&[ConfigChange {
            key: "trade_fee_bps".into(),
            old: None,
            new: Json::Int(100),
        }]),
        Err(AppError::ConfigInvalid { .. })
    ));
    assert_eq!(
        revert_patch_from_changes(&[ConfigChange {
            key: "trade_fee_bps".into(),
            old: Some(Json::Int(100)),
            new: Json::Int(110),
        }])
        .unwrap(),
        patch("trade_fee_bps", Json::Int(100))
    );
    assert!(!role_may_propose(AdminRole::Superadmin, "unknown"));
}

#[test]
fn malformed_and_unauthorized_settlement_paths_are_typed() {
    let mut world = World::new();
    for (document, revert) in
        [(None, None), (Some(patch("trade_fee_bps", Json::Int(110))), Some(1))]
    {
        assert!(matches!(
            world.create(&CreateProposalCmd {
                actor: admin(AdminRole::Finance, "finance-1"),
                patch: document,
                revert_of_generation: revert,
                reason: "bad shape".into(),
                idempotency_key: "bad".into(),
            }),
            Err(AppError::ConfigInvalid { .. })
        ));
    }
    assert!(matches!(
        world.create(&CreateProposalCmd {
            actor: admin(AdminRole::Finance, "finance-1"),
            patch: None,
            revert_of_generation: Some(99),
            reason: "missing".into(),
            idempotency_key: "missing-generation".into(),
        }),
        Err(AppError::Store(StoreError::NotFound(_)))
    ));
    let proposal = world.propose_fee("settle-auth", 110);
    let machine =
        SettleProposalCmd { actor: AdminContext::Machine, id: proposal.id, reason: None };
    assert!(matches!(world.settle(true, &machine), Err(AppError::AdminForbidden(_))));
    assert!(matches!(
        world.confirm(AdminRole::Ops, "ops-2", proposal.id),
        Err(AppError::AdminForbidden(_))
    ));
    assert!(matches!(world.settle(false, &machine), Err(AppError::AdminForbidden(_))));
    let finance = || admin(AdminRole::Finance, "finance-1");
    world.reject(finance(), proposal.id).unwrap();
    assert!(matches!(
        world.reject(finance(), proposal.id),
        Err(AppError::ProposalConflict(_))
    ));
    let expiring = world.propose_fee("reject-expired", 115);
    world.now = start().plus_secs(901);
    let expired = world.reject(finance(), expiring.id).unwrap();
    assert_eq!(expired.status, ProposalStatus::Expired);
}

// Fee overrides.

struct FeeDesk {
    current: FeeOverrideValue,
    proposals: BTreeMap<u128, FeeOverrideProposal>,
    generation: i64,
    last_event: Option<Event>,
    next_id: u128,
}

impl FeeDesk {
    fn new() -> FeeDesk {
        FeeDesk {
            current: FeeOverrideValue::Inherit,
            proposals: BTreeMap::new(),
            generation: 1,
            last_event: None,
            next_id: 0,
        }
    }

    fn propose(
        &mut self,
        actor: AdminContext,
        value: FeeOverrideValue,
        reason: &str,
    ) -> Result<FeeOverrideProposal, AppError> {
        let cmd = ProposeFeeOverride {
            actor,
            market: MARKET,
            value,
            reason: reason.to_string(),
            replay_key: "key".to_string(),
        };
        let mut facts = OverrideFacts { pool_stamp: None, current: None, fresh_id: None };
        loop {
            match (ProposeFeeOverrideOp { now: start() }).execute(&cmd, &facts) {
                OverrideStep::Refuse(e) => return Err(e),
                OverrideStep::Propose(p) => {
                    self.proposals.insert(p.id, p.clone());
                    return Ok(p);
                }
                OverrideStep::Need(OverrideNeed::PoolStamp(_)) => facts.pool_stamp = Some(100),
                OverrideStep::Need(OverrideNeed::CurrentOverride(_)) => {
                    facts.current = Some(self.current.clone());
                }
                OverrideStep::Need(OverrideNeed::FreshId) => {
                    self.next_id += 1;
                    facts.fresh_id = Some(self.next_id);
                }
            }
        }
    }

    fn confirm(
        &mut self,
        actor: AdminContext,
        id: u128,
        after: i64,
    ) -> Result<(FeeOverrideProposal, i64), AppError> {
        let op = ConfirmFeeOverrideOp { now: start().plus_secs(after) };
        let cmd = ConfirmFeeOverride { actor, id };
        let mut proposal: Option<FeeOverrideProposal> = None;
        let mut generation: Option<i64> = None;
        loop {
            match op.execute(&cmd, &proposal, generation) {
                ConfirmOverrideStep::Refuse(e) => return Err(e),
                ConfirmOverrideStep::ProposalForUpdate => {
                    proposal = Some(self.proposals[&id].clone());
                }
                ConfirmOverrideStep::NextGeneration => {
                    self.generation += 1;
                    generation = Some(self.generation);
                }
                ConfirmOverrideStep::Confirm(p, g, event) => {
                    self.current = p.value.clone();
                    self.proposals.insert(p.id, p.clone());
                    self.last_event = Some(event);
                    return Ok((p, g));
                }
            }
        }
    }
}

fn finance(token: &str) -> AdminContext {
    admin(AdminRole::Finance, token)
}

#[test]
fn propose_and_confirm_writes_generation_and_frame() {
    let mut desk = FeeDesk::new();
    let proposed = desk
        .propose(finance("a"), FeeOverrideValue::Override { bps: 110 }, "reprice")
        .unwrap();
    assert_eq!(proposed.status, FeeOverrideStatus::Pending);
    assert_eq!(
        proposed.expires_at,
        proposed.confirm_not_before.plus_secs(FEE_OVERRIDE_WINDOW_SECS)
    );
    assert!(matches!(
        desk.confirm(finance("b"), proposed.id, 0),
        Err(AppError::ProposalConflict(_))
    ));
    assert!(matches!(
        desk.confirm(finance("a"), proposed.id, FEE_OVERRIDE_DELAY_SECS),
        Err(AppError::AdminForbidden(_))
    ));
    let (confirmed, generation) =
        desk.confirm(finance("b"), proposed.id, FEE_OVERRIDE_DELAY_SECS).unwrap();
    assert_eq!(confirmed.status, FeeOverrideStatus::Confirmed);
    assert_eq!(generation, 2);
    assert_eq!(desk.last_event.as_ref().unwrap().event_type, MARKET_FEE_CHANGED);
    assert_eq!(desk.current, FeeOverrideValue::Override { bps: 110 });
}

#[test]
fn revert_is_inherit_and_delta_and_roles_are_enforced() {
    let mut desk = FeeDesk::new();
    let huge =
        desk.propose(finance("a"), FeeOverrideValue::Override { bps: 200 }, "too far");
    assert!(matches!(huge, Err(AppError::ConfigInvalid { .. })));
    let low = desk.propose(finance("a"), FeeOverrideValue::Override { bps: 1 }, "below floor");
    assert!(matches!(low, Err(AppError::ConfigInvalid { .. })));
    let ops = admin(AdminRole::Ops, "ops");
    assert!(desk.propose(ops, FeeOverrideValue::Inherit, "nope").is_err());
    assert!(desk.propose(AdminContext::Machine, FeeOverrideValue::Inherit, "nope").is_err());
    assert!(desk.propose(finance("a"), FeeOverrideValue::Inherit, "   ").is_err());
}

#[test]
fn revert_writes_inherit_and_the_typed_enum_round_trips() {
    let mut desk = FeeDesk::new();
    let revert = desk.propose(finance("a"), FeeOverrideValue::Inherit, "revert").unwrap();
    assert_eq!(revert.value, FeeOverrideValue::Inherit);
    assert_eq!(revert.value.as_json(), Json::Text("inherit".to_string()));
    assert_eq!(
        FeeOverrideValue::from_json(&Json::Text("inherit".to_string())).unwrap(),
        FeeOverrideValue::Inherit
    );
    assert_eq!(
        FeeOverrideValue::from_json(&patch("override", Json::Int(40))).unwrap(),
        FeeOverrideValue::Override { bps: 40 }
    );
    assert_eq!(
        FeeOverrideValue::from_json(&Json::Int(40)).unwrap(),
        FeeOverrideValue::Override { bps: 40 }
    );
    assert!(FeeOverrideValue::from_json(&Json::Text("nope".to_string())).is_err());
    assert!(FeeOverrideValue::from_json(&patch("override", Json::Int(-1))).is_err());
    assert!(FeeOverrideValue::from_json(&Json::Int(-1)).is_err());
    assert_eq!(FeeOverrideValue::Inherit.bps_or_pool(100), 100);
    assert_eq!(
        override_key(MARKET),
        format!("fee_bps_override:{}", uuid::Uuid::from_u128(MARKET.0))
    );
    for bps in [0u16, 40, u16::MAX] {
        let value = FeeOverrideValue::Override { bps };
        assert_eq!(FeeOverrideValue::from_json(&value.as_json()).unwrap(), value);
    }
}

#[test]
fn confirm_rejects_settled_expired_and_wrong_role_principals() {
    let mut desk = FeeDesk::new();
    let revert = desk.propose(finance("a"), FeeOverrideValue::Inherit, "revert").unwrap();
    desk.proposals.get_mut(&revert.id).unwrap().status = FeeOverrideStatus::Confirmed;
    assert!(matches!(
        desk.confirm(finance("b"), revert.id, FEE_OVERRIDE_DELAY_SECS),
        Err(AppError::ProposalConflict(_))
    ));
    let pending =
        desk.propose(finance("a"), FeeOverrideValue::Override { bps: 110 }, "late").unwrap();
    assert!(matches!(
        desk.confirm(
            finance("b"),
            pending.id,
            FEE_OVERRIDE_DELAY_SECS + FEE_OVERRIDE_WINDOW_SECS + 1
        ),
        Err(AppError::ProposalConflict(_))
    ));
    assert!(desk
        .confirm(AdminContext::Machine, pending.id, FEE_OVERRIDE_DELAY_SECS)
        .is_err());
    assert!(desk
        .confirm(admin(AdminRole::Ops, "c"), pending.id, FEE_OVERRIDE_DELAY_SECS)
        .is_err());
}

// The watch.

struct Feed {
    wake: bool,
    generation: i64,
    loads: u32,
}

impl Feed {
    fn turn(&mut self, reconciler: &mut Reconciler, heal: bool) -> bool {
        let woken = self.wake;
        self.wake = false;
        if !reconciler.tick(woken, heal) {
            return false;
        }
        self.loads += 1;
        let entries = vec![ConfigEntry {
            key: "trade_fee_bps".to_string(),
            value: Json::Int(100 + self.generation),
        }];
        reconciler.reconcile(self.generation, &entries)
    }
}

fn fresh() -> Reconciler {
    Reconciler { watch: ConfigWatch::new() }
}

#[test]
fn a_wake_up_installs_the_authoritative_snapshot() {
    let mut feed = Feed { wake: true, generation: 1, loads: 0 };
    let mut reconciler = fresh();
    assert!(feed.turn(&mut reconciler, false));
    assert_eq!(reconciler.watch.generation(), 1);
    assert_eq!(reconciler.watch.value("trade_fee_bps"), Some(Json::Int(101)));
}

#[test]
fn no_wake_and_no_heal_reads_nothing() {
    let mut feed = Feed { wake: false, generation: 5, loads: 0 };
    let mut reconciler = fresh();
    assert!(!feed.turn(&mut reconciler, false));
    assert_eq!(feed.loads, 0, "events are the wake gate");
    assert_eq!(reconciler.watch.generation(), 0);
}

#[test]
fn a_missed_wake_up_heals_from_the_authoritative_generation() {
    let mut feed = Feed { wake: false, generation: 3, loads: 0 };
    let mut reconciler = fresh();
    assert!(!feed.turn(&mut reconciler, false), "missed wake: nothing");
    assert!(feed.turn(&mut reconciler, true), "heal tick reloads");
    assert_eq!(reconciler.watch.generation(), 3);
}

#[test]
fn an_unchanged_generation_never_reinstalls() {
    let mut feed = Feed { wake: true, generation: 2, loads: 0 };
    let mut reconciler = fresh();
    assert!(feed.turn(&mut reconciler, false));
    feed.wake = true;
    assert!(
        !feed.turn(&mut reconciler, false),
        "same generation: wake consumed, snapshot kept"
    );
    assert_eq!(feed.loads, 2);
}

#[test]
fn the_watch_serves_the_preview_pause_overlay() {
    let mut watch = ConfigWatch::new();
    assert_eq!(watch.value("voting_paused:x"), None);
    let mut entries = Snapshot::new();
    entries.insert("voting_paused:x".to_string(), Json::Bool(true));
    watch.install(ConfigSnapshot { generation: 4, entries });
    assert_eq!(watch.value("voting_paused:x"), Some(Json::Bool(true)));
}

#[test]
fn every_nth_poll_heals() {
    let reconciler = fresh();
    assert!(!reconciler.heals(5, 0));
    assert!(reconciler.heals(6, 3));
    assert!(!reconciler.heals(7, 3));
    assert!(reconciler.heals(0, 3));
}

#[test]
fn static_config_reads_default_to_the_migration_seed_generation() {
    assert_eq!(StaticConfigReads::default().current_generation(), 1);
    assert_eq!(StaticConfigReads(7).current_generation(), 7);
}

// Audit rows and policy.

#[test]
fn machine_actors_produce_no_audit_row_and_no_principal() {
    assert!(audit_for(&AdminContext::Machine, "x", "s".into(), None, None, None).is_none());
    assert_eq!(
        principal_digest(&AdminContext::Machine).unwrap_err(),
        AppError::ProposalConflict("machine actor")
    );
}

#[test]
fn admin_actors_produce_the_redacted_row() {
    let actor = admin(AdminRole::Finance, "digest-a");
    let row =
        audit_for(&actor, "unwind_propose", "market:m".into(), None, None, Some("r".into()))
            .unwrap();
    assert_eq!(row.actor_role, AdminRole::Finance);
    assert_eq!(row.actor_token_digest, "digest-a");
    assert_eq!(row.action, "unwind_propose");
    assert_eq!(principal_digest(&actor).unwrap(), "digest-a");
    assert_eq!(
        required_audit_for(&actor, "x", "s".into(), None, None, None).action,
        "x"
    );
}

#[test]
fn policy_defaults_match_the_published_catalog_seeds() {
    let policy = OpsPolicy::default();
    assert_eq!(policy.faucet_per_call_cap_micro, 1_000_000_000);
    assert_eq!(policy.remedial_market_cap_micro, 500_000_000);
    assert_eq!(policy.remedial_daily_cap_micro, 2_000_000_000);
    assert_eq!(policy.receivable_outstanding_cap_micro, 10_000_000_000);
    assert_eq!(policy.writeoff_per_item_cap_micro, 500_000_000);
    assert_eq!(policy.writeoff_daily_cap_micro, 2_000_000_000);
    let now = Timestamp(0);
    let confirm = policy.confirm_not_before(now);
    assert_eq!(confirm, now.plus_secs(60));
    assert_eq!(policy.expires_at(confirm), confirm.plus_secs(900));
}

#[test]
fn store_errors_preserve_their_typed_application_meaning() {
    let error = OpsError::from(StoreError::NotFound("row"));
    assert_eq!(error, OpsError::App(AppError::Store(StoreError::NotFound("row"))));
}

#[test]
fn audit_page_clamps_limits_before_delegating() {
    assert_eq!(page_limit(0), 1);
    assert_eq!(page_limit(u32::MAX), 200);
    assert_eq!(page_limit(50), 50);
}
