//! Signed reconciliation at one pinned finalized cut of the chain:
//! `wallet = -external - outbound_unsettled + inbound_unbooked`. Attempts in
//! flight are exposure, never drift.

use crate::ops::alerts;
use crate::ops::alerts::{IncidentKey, DETECTOR_RECON};
use crate::text;
use vstd::prelude::*;

verus! {

/// One pinned finalized cut. The observations that its terms were taken from
/// are kept, so that a page can be reconstructed.
#[derive(Debug, Clone, PartialEq, Eq)]
pub struct ReconciliationCut {
    pub cut_slot: i64,
    pub wallet_balance_micro: i64,
    pub external_balance_micro: i64,
    pub outbound_finalized_unsettled_micro: i64,
    pub inbound_observed_unbooked_micro: i64,
    pub broadcast_unknown_exposure_micro: i64,
    pub wallet_observation: &'static str,
    pub db_observation: &'static str,
}

/// What the wallet holds beyond what the books explain.
pub open spec fn residual(cut: ReconciliationCut) -> int {
    cut.wallet_balance_micro - (-cut.external_balance_micro
        - cut.outbound_finalized_unsettled_micro + cut.inbound_observed_unbooked_micro)
}

/// The sums on the way to the residual fit their type.
pub open spec fn residual_fits(cut: ReconciliationCut) -> bool {
    let ab = cut.wallet_balance_micro + cut.external_balance_micro;
    let abc = ab + cut.outbound_finalized_unsettled_micro;
    &&& i64::MIN <= ab <= i64::MAX
    &&& i64::MIN <= abc <= i64::MAX
    &&& i64::MIN <= residual(cut) <= i64::MAX
}

/// Signed residual in micro-USD. Zero is green.
#[must_use]
pub fn signed_residual(cut: &ReconciliationCut) -> (r: i64)
    requires
        residual_fits(*cut),
    ensures
        r == residual(*cut),
        r == cut.wallet_balance_micro + cut.external_balance_micro
            + cut.outbound_finalized_unsettled_micro - cut.inbound_observed_unbooked_micro,
{
    cut.wallet_balance_micro + cut.external_balance_micro + cut.outbound_finalized_unsettled_micro
        - cut.inbound_observed_unbooked_micro
}

/// True when the residual must page: any micro.
#[must_use]
pub fn pages_at_one_micro(cut: &ReconciliationCut) -> (r: bool)
    requires
        residual_fits(*cut),
    ensures
        r == (residual(*cut) != 0),
        r == (cut.wallet_balance_micro + cut.external_balance_micro
            + cut.outbound_finalized_unsettled_micro != cut.inbound_observed_unbooked_micro),
{
    signed_residual(cut) != 0
}

/// The exposure of attempts in flight, which never enters the residual.
#[must_use]
pub fn exposure_micro(cut: &ReconciliationCut) -> (r: i64)
    ensures
        r == cut.broadcast_unknown_exposure_micro,
{
    cut.broadcast_unknown_exposure_micro
}

/// The incident of a residual at this cut.
#[must_use]
pub fn residual_incident(cut: &ReconciliationCut) -> (r: IncidentKey)
    requires
        residual_fits(*cut),
    ensures
        r@ == (alerts::KeyView {
            detector: "reconciliation_residual"@,
            subject: "slot:"@ + text::decimal(cut.cut_slot as int),
            episode: "residual:"@ + text::decimal(residual(*cut)),
        }),
{
    IncidentKey::new(
        DETECTOR_RECON,
        text::join2("slot:", text::decimal_text(cut.cut_slot).as_str()).as_str(),
        text::join2("residual:", text::decimal_text(signed_residual(cut)).as_str()).as_str(),
    )
}

/// The named states of a reconciliation.
#[derive(Debug, Clone, Copy, PartialEq, Eq, Structural)]
pub enum ReconExample {
    Balanced,
    DroppedObservation,
    ConfirmedOnly,
    FinalizedBeforeDb,
    Replacement,
    OneMicroResidual,
}

/// A cut with these terms, finalized on the chain and read repeatably.
pub open spec fn cut_of(
    cut_slot: i64,
    wallet: i64,
    external: i64,
    outbound: i64,
    inbound: i64,
    exposure: i64,
) -> ReconciliationCut {
    ReconciliationCut {
        cut_slot,
        wallet_balance_micro: wallet,
        external_balance_micro: external,
        outbound_finalized_unsettled_micro: outbound,
        inbound_observed_unbooked_micro: inbound,
        broadcast_unknown_exposure_micro: exposure,
        wallet_observation: "finalized",
        db_observation: "repeatable_read",
    }
}

/// The numbers of a named state.
pub open spec fn example(kind: ReconExample) -> ReconciliationCut {
    match kind {
        ReconExample::Balanced => cut_of(10, 1_000, (-1_000) as i64, 0, 0, 0),
        ReconExample::DroppedObservation => cut_of(11, 1_000, (-500) as i64, 0, 0, 0),
        ReconExample::ConfirmedOnly => cut_of(12, 800, (-800) as i64, 0, 0, 200),
        ReconExample::FinalizedBeforeDb => cut_of(13, 1_500, (-1_000) as i64, 0, 500, 0),
        ReconExample::Replacement => cut_of(14, 900, (-1_000) as i64, 100, 0, 50),
        ReconExample::OneMicroResidual => cut_of(15, 1_001, (-1_000) as i64, 0, 0, 0),
    }
}

fn make_cut(
    cut_slot: i64,
    wallet: i64,
    external: i64,
    outbound: i64,
    inbound: i64,
    exposure: i64,
) -> (r: ReconciliationCut)
    ensures
        r == cut_of(cut_slot, wallet, external, outbound, inbound, exposure),
{
    ReconciliationCut {
        cut_slot,
        wallet_balance_micro: wallet,
        external_balance_micro: external,
        outbound_finalized_unsettled_micro: outbound,
        inbound_observed_unbooked_micro: inbound,
        broadcast_unknown_exposure_micro: exposure,
        wallet_observation: "finalized",
        db_observation: "repeatable_read",
    }
}

/// The numbers of a named state.
#[must_use]
pub fn example_cut(kind: ReconExample) -> (r: ReconciliationCut)
    ensures
        r == example(kind),
        residual_fits(r),
{
    match kind {
        ReconExample::Balanced => make_cut(10, 1_000, -1_000, 0, 0, 0),
        ReconExample::DroppedObservation => make_cut(11, 1_000, -500, 0, 0, 0),
        ReconExample::ConfirmedOnly => make_cut(12, 800, -800, 0, 0, 200),
        ReconExample::FinalizedBeforeDb => make_cut(13, 1_500, -1_000, 0, 500, 0),
        ReconExample::Replacement => make_cut(14, 900, -1_000, 100, 0, 50),
        ReconExample::OneMicroResidual => make_cut(15, 1_001, -1_000, 0, 0, 0),
    }
}

/// Exposure is never drift: cuts that differ only in attempts in flight have the
/// same residual.
pub proof fn law_exposure_is_never_drift(a: ReconciliationCut, exposure: i64)
    ensures
        residual(
            ReconciliationCut { broadcast_unknown_exposure_micro: exposure, ..a },
        ) == residual(a),
{
}

/// The books explain a wallet that holds what came in from outside, less what
/// went out and is not settled, plus what came in and is not booked; every
/// micro-USD beyond that is residual.
pub proof fn law_residual_is_what_the_books_do_not_explain(cut: ReconciliationCut, more: int)
    requires
        cut.wallet_balance_micro == -cut.external_balance_micro
            - cut.outbound_finalized_unsettled_micro + cut.inbound_observed_unbooked_micro + more,
    ensures
        residual(cut) == more,
{
}

/// The named states: only an observation that was dropped and a single micro-USD
/// too much are drift.
pub proof fn law_named_states_have_their_residuals()
    ensures
        residual(example(ReconExample::Balanced)) == 0,
        residual(example(ReconExample::DroppedObservation)) == 500,
        residual(example(ReconExample::ConfirmedOnly)) == 0,
        residual(example(ReconExample::FinalizedBeforeDb)) == 0,
        residual(example(ReconExample::Replacement)) == 0,
        residual(example(ReconExample::OneMicroResidual)) == 1,
        example(ReconExample::ConfirmedOnly).broadcast_unknown_exposure_micro == 200,
        example(ReconExample::Replacement).broadcast_unknown_exposure_micro == 50,
{
}

} // verus!
