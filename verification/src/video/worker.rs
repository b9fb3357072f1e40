//! The decisions of a rendering worker. A claim is committed before anything is
//! rendered; a failed rendering is queued again with a backoff, or ends the job
//! where its attempts are used up.

use crate::clock::Timestamp;
use crate::error;
use crate::error::{StoreError, StoreFault};
use crate::model::{ContentConfig, VideoJobRow};
use crate::video::jobs;
use vstd::prelude::*;

verus! {

/// How long a lease lasts, in seconds.
pub fn lease_secs(config: &ContentConfig) -> (r: i64)
    ensures
        r == (if config.lease_secs > i64::MAX {
            i64::MAX as int
        } else {
            config.lease_secs as int
        }),
{
    if config.lease_secs > i64::MAX as u64 {
        i64::MAX
    } else {
        config.lease_secs as i64
    }
}

/// The token of a claimed job.
///
/// # Errors
///
/// An invariant failure where the job carries none.
pub fn claimed_token(job: &VideoJobRow) -> (r: Result<u128, StoreError>)
    ensures
        match job.claim_token {
            Some(token) => r == Ok::<u128, StoreError>(token),
            None => r matches Err(e) && e@ == StoreFault::Invariant("claimed job missing token"@),
        },
{
    match job.claim_token {
        Some(token) => Ok(token),
        None => Err(StoreError::Invariant("claimed job missing token")),
    }
}

/// How a job is completed.
#[derive(Debug, PartialEq, Eq)]
pub enum Completion {
    /// The artifact is served at this address.
    Ready { asset_url: String },
    /// The rendering failed: the job becomes available again, unless this was
    /// its last attempt.
    Error { error: String, available_at: Timestamp, terminal: bool },
}

/// How a job is completed, as plain values.
pub enum CompletionView {
    Ready { asset_url: Seq<char> },
    Error { error: Seq<char>, available_at: Timestamp, terminal: bool },
}

impl View for Completion {
    type V = CompletionView;

    open spec fn view(&self) -> CompletionView {
        match self {
            Completion::Ready { asset_url } => CompletionView::Ready { asset_url: asset_url@ },
            Completion::Error { error, available_at, terminal } => CompletionView::Error {
                error: error@,
                available_at: *available_at,
                terminal: *terminal,
            },
        }
    }
}

/// How a job is completed after its rendering.
pub open spec fn completion_of(
    job: VideoJobRow,
    outcome: Result<String, StoreError>,
    now: Timestamp,
    config: ContentConfig,
) -> CompletionView {
    match outcome {
        Ok(asset_url) => CompletionView::Ready { asset_url: asset_url@ },
        Err(e) => CompletionView::Error {
            error: error::store_text(e@),
            available_at: now.later(
                jobs::backoff_wait(now, config.backoff_base_secs, job.attempts),
            ),
            terminal: job.attempts >= config.video_max_attempts,
        },
    }
}

/// How a job is completed after its rendering.
pub fn complete(
    job: &VideoJobRow,
    outcome: Result<String, StoreError>,
    now: Timestamp,
    config: &ContentConfig,
) -> (r: Completion)
    requires
        now.wf(),
    ensures
        r@ == completion_of(*job, outcome, now, *config),
{
    match outcome {
        Ok(asset_url) => Completion::Ready { asset_url },
        Err(e) => Completion::Error {
            error: e.message(),
            available_at: jobs::backoff_available_at(now, config.backoff_base_secs, job.attempts),
            terminal: jobs::is_terminal(job.attempts, config.video_max_attempts),
        },
    }
}

/// A rendered job is ready at the address that it was rendered to; a failed one
/// comes back no earlier than now, and ends exactly where its attempts reach the
/// limit.
pub proof fn law_what_becomes_of_a_rendering(
    job: VideoJobRow,
    outcome: Result<String, StoreError>,
    now: Timestamp,
    config: ContentConfig,
)
    requires
        now.wf(),
        256 * config.backoff_base_secs + now.0 as int / 1_000_000_000 < 253_402_300_799,
    ensures
        outcome matches Ok(url) ==> completion_of(job, outcome, now, config)
            == (CompletionView::Ready { asset_url: url@ }),
        outcome is Err ==> (completion_of(job, outcome, now, config) matches CompletionView::Error {
            error,
            available_at,
            terminal,
        } && (terminal <==> job.attempts >= config.video_max_attempts) && error
            == error::store_text(outcome->Err_0@) && (job.attempts == 0 ==> available_at.0 == now.0
            + 1_000_000_000 * config.backoff_base_secs) && (job.attempts == 1 ==> available_at.0
            == now.0 + 2_000_000_000 * config.backoff_base_secs) && (job.attempts >= 8
            ==> available_at.0 == now.0 + 256_000_000_000 * config.backoff_base_secs)),
{
    jobs::law_each_failure_doubles_the_wait(now, config.backoff_base_secs, 0);
    jobs::law_each_failure_doubles_the_wait(now, config.backoff_base_secs, job.attempts);
}

} // verus!
