//! Artifact jobs: names, backoff, completion and share cards.

use opinions::clock::Timestamp;
use opinions::error::{AppError, StoreError};
use opinions::market::MarketState;
use opinions::model::{
    ArtifactKind, ContentConfig, JobId, LedgerTxnId, MarketId, MarketRow, OutcomeId,
    RealizationFact, RealizationSource, UserId, VideoJobRow,
};
use opinions::money::MicroUsd;
use opinions::video::artifacts::{asset_file_name, asset_url, kind_name, SVG_MEDIA_TYPE};
use opinions::video::attach_ready::{complete_and_attach, AttachStep};
use opinions::video::jobs::{backoff_available_at, is_terminal, CLAIM_BATCH, RECLAIM_BATCH};
use opinions::video::share_card::{card_address, card_ready, share_card_svg, summarize};
use opinions::video::worker::{claimed_token, complete, lease_secs, Completion};

const YES: OutcomeId = OutcomeId(21);
const NO: OutcomeId = OutcomeId(22);

fn at(unix: i64) -> Timestamp {
    Timestamp::from_secs(unix)
}

#[test]
fn names_derive_only_from_job_uuid_and_kind() {
    let job = JobId(7);
    assert_eq!(
        asset_file_name(job, ArtifactKind::Poster),
        "00000000-0000-0000-0000-000000000007_poster.svg"
    );
    assert_eq!(
        asset_file_name(job, ArtifactKind::MarketVideo),
        "00000000-0000-0000-0000-000000000007_market_video.svg"
    );
    assert_eq!(asset_url(job), "/assets/00000000-0000-0000-0000-000000000007.svg");
    assert_eq!(SVG_MEDIA_TYPE, "image/svg+xml");
}

#[test]
fn kind_names_match_the_database_vocabulary() {
    assert_eq!(kind_name(ArtifactKind::Poster), "poster");
    assert_eq!(kind_name(ArtifactKind::MarketVideo), "market_video");
}

#[test]
fn different_jobs_never_share_a_file() {
    let jobs = [1u128, 2, 16, u128::MAX];
    for a in jobs {
        for b in jobs {
            for kind in [ArtifactKind::Poster, ArtifactKind::MarketVideo] {
                assert_eq!(
                    asset_file_name(JobId(a), kind) == asset_file_name(JobId(b), kind),
                    a == b
                );
                assert!(!asset_file_name(JobId(a), kind).contains('/'));
            }
        }
    }
}

#[test]
fn backoff_doubles_then_saturates_at_two_to_the_eighth() {
    let now = at(1_700_000_000);
    assert_eq!(backoff_available_at(now, 5, 0), now.plus_secs(5));
    assert_eq!(backoff_available_at(now, 5, 1), now.plus_secs(10));
    assert_eq!(backoff_available_at(now, 5, 3), now.plus_secs(40));
    assert_eq!(backoff_available_at(now, 5, 8), now.plus_secs(5 * 256));
    assert_eq!(backoff_available_at(now, 5, 9), backoff_available_at(now, 5, 8));
    assert_eq!(backoff_available_at(now, 5, u32::MAX), backoff_available_at(now, 5, 8));
}

#[test]
fn backoff_saturates_on_multiplication_and_time_overflow() {
    let now = at(1_700_000_000);
    let far = backoff_available_at(now, u64::MAX, 8);
    assert!(far.0 > now.0);
    let clamped = backoff_available_at(now, u64::MAX / 2, u32::MAX);
    assert!(clamped.0 > now.0);
}

#[test]
fn waits_never_shrink_with_attempts() {
    let now = at(1_700_000_000);
    for attempts in 0..12 {
        assert!(
            backoff_available_at(now, 3, attempts).0 <= backoff_available_at(now, 3, attempts + 1).0
        );
    }
}

#[test]
fn terminal_boundary_is_inclusive() {
    assert!(is_terminal(1, 1));
    assert!(!is_terminal(0, 1));
    assert!(is_terminal(3, 3));
    assert!(!is_terminal(2, 3));
    assert!(is_terminal(4, 3));
}

fn config() -> ContentConfig {
    ContentConfig { lease_secs: 60, backoff_base_secs: 5, video_max_attempts: 3 }
}

fn job(attempts: u32) -> VideoJobRow {
    VideoJobRow {
        id: JobId(7),
        market: MarketId(8),
        kind: ArtifactKind::Poster,
        attempts,
        claim_token: Some(99),
    }
}

#[test]
fn a_rendered_job_completes_with_its_asset() {
    assert_eq!(CLAIM_BATCH, 8);
    assert_eq!(RECLAIM_BATCH, 32);
    assert_eq!(claimed_token(&job(1)), Ok(99));
    assert_eq!(
        complete(&job(1), Ok(asset_url(JobId(7))), at(100), &config()),
        Completion::Ready { asset_url: asset_url(JobId(7)) }
    );
    assert_eq!(complete_and_attach(true, None), AttachStep::Attach);
    assert_eq!(complete_and_attach(true, Some(true)), AttachStep::Done(true));
}

#[test]
fn a_lost_completion_attaches_nothing() {
    assert_eq!(complete_and_attach(false, None), AttachStep::Done(false));
}

#[test]
fn a_completed_job_that_cannot_attach_is_an_invariant_failure() {
    match complete_and_attach(true, Some(false)) {
        AttachStep::Fail(StoreError::Invariant(_)) => {}
        other => panic!("{other:?}"),
    }
}

#[test]
fn a_failed_render_is_queued_again_with_backoff() {
    let failed = Err(StoreError::Backend("render exploded".to_string()));
    match complete(&job(1), failed, at(100), &config()) {
        Completion::Error { error, available_at, terminal } => {
            assert!(error.contains("render exploded"));
            assert_eq!(available_at, at(110));
            assert!(!terminal);
        }
        other => panic!("{other:?}"),
    }
}

#[test]
fn the_last_attempt_is_terminal() {
    let failed = Err(StoreError::Unavailable("renderer"));
    match complete(&job(3), failed, at(100), &config()) {
        Completion::Error { terminal, available_at, .. } => {
            assert!(terminal);
            assert_eq!(available_at, at(140));
        }
        other => panic!("{other:?}"),
    }
}

#[test]
fn a_claimed_job_without_a_token_is_an_invariant_failure() {
    let mut bare = job(1);
    bare.claim_token = None;
    assert_eq!(
        claimed_token(&bare),
        Err(StoreError::Invariant("claimed job missing token"))
    );
}

#[test]
fn the_lease_is_clamped_to_the_signed_range() {
    assert_eq!(lease_secs(&config()), 60);
    let mut long = config();
    long.lease_secs = u64::MAX;
    assert_eq!(lease_secs(&long), i64::MAX);
}

fn fact(
    outcome: OutcomeId,
    source: RealizationSource,
    delta: i64,
    payout: i64,
    unix: i64,
) -> RealizationFact {
    RealizationFact {
        user: UserId(1),
        market: MarketId(20),
        outcome,
        source,
        realized_delta: MicroUsd(delta),
        payout: MicroUsd(payout),
        ledger_txn: LedgerTxnId(5),
        created_at: at(unix),
    }
}

fn market_row(state: MarketState) -> MarketRow {
    MarketRow {
        id: MarketId(20),
        state,
        tally_hidden_at: at(5),
        closes_at: at(10),
        yes_outcome: YES,
        no_outcome: NO,
    }
}

#[test]
fn summarize_pins_side_payout_return_and_digest() {
    let row = market_row(MarketState::Resolved);
    let facts =
        vec![fact(YES, RealizationSource::Settlement, 2_500_000, 12_500_000, 100)];
    let summary = summarize(&facts, &row);
    assert!(summary.side_yes);
    assert_eq!(summary.payout_micro, 12_500_000);
    assert_eq!(summary.return_bps, 2_500);
    assert_eq!(summary.realization_digest.len(), 64);
    assert_eq!(summarize(&facts, &row).realization_digest, summary.realization_digest);
    let other =
        vec![fact(YES, RealizationSource::Settlement, 2_500_000, 12_500_001, 100)];
    assert_ne!(summarize(&other, &row).realization_digest, summary.realization_digest);
}

#[test]
fn summarize_handles_losses_voids_and_zero_cost() {
    let row = market_row(MarketState::Resolved);
    let loss = vec![fact(NO, RealizationSource::Settlement, -10_000_000, 0, 100)];
    let summary = summarize(&loss, &row);
    assert!(!summary.side_yes);
    assert_eq!(summary.return_bps, -10_000);
    assert_eq!(summary.payout_micro, 0);
    let zero_cost = vec![fact(YES, RealizationSource::Void, 5, 5, 100)];
    assert_eq!(summarize(&zero_cost, &row).return_bps, 0);
    let mixed = vec![
        fact(YES, RealizationSource::Sell, 1_000_000, 3_000_000, 100),
        fact(NO, RealizationSource::Settlement, 2_000_000, 9_000_000, 200),
    ];
    let mixed_summary = summarize(&mixed, &row);
    assert!(!mixed_summary.side_yes);
    assert_eq!(mixed_summary.payout_micro, 12_000_000);
    assert_eq!(mixed_summary.return_bps, 3_333);
}

#[test]
fn the_digest_reads_every_fact() {
    let row = market_row(MarketState::Resolved);
    let base = summarize(&[fact(YES, RealizationSource::Settlement, 1, 2, 100)], &row);
    let variants = [
        fact(NO, RealizationSource::Settlement, 1, 2, 100),
        fact(YES, RealizationSource::Sell, 1, 2, 100),
        fact(YES, RealizationSource::Settlement, 3, 2, 100),
        fact(YES, RealizationSource::Settlement, 1, 4, 100),
        RealizationFact {
            ledger_txn: LedgerTxnId(6),
            ..fact(YES, RealizationSource::Settlement, 1, 2, 100)
        },
    ];
    for changed in variants {
        assert_ne!(
            summarize(&[changed], &row).realization_digest,
            base.realization_digest
        );
    }
}

#[test]
fn card_address_is_stable_and_input_sensitive() {
    let user = UserId(1);
    let market = MarketId(2);
    let a = card_address(user, market, "digest", 1);
    assert_eq!(a, card_address(user, market, "digest", 1));
    assert_ne!(a, card_address(user, market, "digest", 2));
    assert_ne!(a, card_address(user, market, "other", 1));
    assert_ne!(a, card_address(UserId(3), market, "digest", 1));
}

#[test]
fn cards_wait_for_the_resolution_and_for_participation() {
    let facts = [fact(YES, RealizationSource::Settlement, 2_500_000, 12_500_000, 100)];
    assert_eq!(card_ready(&market_row(MarketState::Live)), Err(AppError::JobNotReady));
    assert_eq!(card_ready(&market_row(MarketState::Voided)), Ok(()));
    assert_eq!(
        share_card_svg(&market_row(MarketState::Live), &facts),
        Err(AppError::JobNotReady)
    );
    assert_eq!(
        share_card_svg(&market_row(MarketState::Resolved), &[]),
        Err(AppError::ArtifactNotFound)
    );
    let card = share_card_svg(&market_row(MarketState::Resolved), &facts).unwrap();
    assert_eq!(card, summarize(&facts, &market_row(MarketState::Resolved)));
}
