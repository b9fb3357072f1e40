//! Vote scoring.

use crate::amm::Side;
use vstd::prelude::*;

verus! {

/// Integer-basis-point components of one published vote score.
#[derive(Clone, Copy, Debug, Eq, PartialEq, Structural)]
pub struct VoteScore {
    pub accuracy_bp: u16,
    pub majority_bp: u16,
    pub score_bp: u16,
}

/// Invalid input to the vote-scoring formula.
#[derive(Clone, Copy, Debug, Eq, PartialEq, Structural)]
pub enum ScoringError {
    /// The crowd guess must be at most 100 percent.
    GuessOutOfRange,
    /// The actual result must be at most 10,000 basis points.
    ActualOutOfRange,
}

/// The distance between two results.
pub open spec fn distance(a: int, b: int) -> int {
    if a < b {
        b - a
    } else {
        a - b
    }
}

/// Accuracy falls by four for each basis point that the guess is off, down to
/// nothing.
pub open spec fn accuracy(crowd_guess_pct: int, actual_yes_bps: int) -> int {
    let lost = 4 * distance(100 * crowd_guess_pct, actual_yes_bps);
    if lost > 10_000 {
        0
    } else {
        10_000 - lost
    }
}

/// Whether `side` holds the majority; at exactly half both sides do.
pub open spec fn wins_majority(side: Side, actual_yes_bps: int) -> bool {
    match side {
        Side::Yes => actual_yes_bps >= 5_000,
        Side::No => actual_yes_bps <= 5_000,
    }
}

/// The majority component.
pub open spec fn majority(side: Side, actual_yes_bps: int) -> int {
    if wins_majority(side, actual_yes_bps) {
        10_000
    } else {
        0
    }
}

/// The score: three parts accuracy, one part majority, rounded down.
pub open spec fn weighed(accuracy_bp: int, majority_bp: int) -> int {
    (75 * accuracy_bp + 25 * majority_bp) / 100
}

/// A closer guess never scores lower, in accuracy or overall, and no component
/// leaves the range of basis points.
pub proof fn law_closer_guess_never_scores_lower(
    side: Side,
    closer: int,
    farther: int,
    actual_yes_bps: int,
)
    requires
        distance(100 * closer, actual_yes_bps) <= distance(100 * farther, actual_yes_bps),
    ensures
        0 <= accuracy(farther, actual_yes_bps) <= accuracy(closer, actual_yes_bps) <= 10_000,
        0 <= majority(side, actual_yes_bps) <= 10_000,
        0 <= weighed(accuracy(farther, actual_yes_bps), majority(side, actual_yes_bps)) <= weighed(
            accuracy(closer, actual_yes_bps),
            majority(side, actual_yes_bps),
        ) <= 10_000,
{
}

/// Scores a vote using the published 75% accuracy / 25% majority formula.
///
/// At exactly 5,000 actual YES basis points, both sides receive the majority
/// component.
///
/// # Errors
///
/// [`ScoringError::GuessOutOfRange`] when `crowd_guess_pct > 100`, or
/// [`ScoringError::ActualOutOfRange`] when `actual_yes_bps > 10_000`.
pub fn score_vote(side: Side, crowd_guess_pct: u8, actual_yes_bps: u16) -> (r: Result<
    VoteScore,
    ScoringError,
>)
    ensures
        match r {
            Err(ScoringError::GuessOutOfRange) => crowd_guess_pct > 100,
            Err(ScoringError::ActualOutOfRange) => crowd_guess_pct <= 100 && actual_yes_bps
                > 10_000,
            Ok(score) => {
                &&& crowd_guess_pct <= 100
                &&& actual_yes_bps <= 10_000
                &&& score.accuracy_bp == accuracy(crowd_guess_pct as int, actual_yes_bps as int)
                &&& score.majority_bp == majority(side, actual_yes_bps as int)
                &&& score.score_bp == weighed(score.accuracy_bp as int, score.majority_bp as int)
                &&& 4 * score.score_bp <= 3 * score.accuracy_bp + score.majority_bp < 4
                    * score.score_bp + 4
                &&& 0 <= 100 * crowd_guess_pct - actual_yes_bps <= 2_500 ==> score.accuracy_bp + 4
                    * (100 * crowd_guess_pct - actual_yes_bps) == 10_000
                &&& 0 <= actual_yes_bps - 100 * crowd_guess_pct <= 2_500 ==> score.accuracy_bp + 4
                    * (actual_yes_bps - 100 * crowd_guess_pct) == 10_000
                &&& 100 * crowd_guess_pct - actual_yes_bps > 2_500 || actual_yes_bps - 100
                    * crowd_guess_pct > 2_500 ==> score.accuracy_bp == 0
                &&& score.majority_bp == if (side == Side::Yes && actual_yes_bps >= 5_000) || (side
                    == Side::No && actual_yes_bps <= 5_000) {
                    10_000int
                } else {
                    0
                }
            },
        },
{
    if crowd_guess_pct > 100 {
        return Err(ScoringError::GuessOutOfRange);
    }
    if actual_yes_bps > 10_000 {
        return Err(ScoringError::ActualOutOfRange);
    }
    let guessed_yes_bps: u16 = crowd_guess_pct as u16 * 100;
    let diff: u16 = if guessed_yes_bps < actual_yes_bps {
        actual_yes_bps - guessed_yes_bps
    } else {
        guessed_yes_bps - actual_yes_bps
    };
    let accuracy_bp: u16 = 10_000u16.saturating_sub(diff * 4);
    let wins: bool = match side {
        Side::Yes => actual_yes_bps >= 5_000,
        Side::No => actual_yes_bps <= 5_000,
    };
    let majority_bp: u16 = if wins {
        10_000
    } else {
        0
    };
    // The same as (75 * accuracy + 25 * majority) / 100, kept within u16.
    let score_bp: u16 = (3 * accuracy_bp + majority_bp) / 4;
    Ok(VoteScore { accuracy_bp, majority_bp, score_bp })
}

/// The score is three quarters of the accuracy and a quarter of the majority,
/// rounded down: a perfect guess on the losing side is worth 7,500, a worthless
/// one on the winning side 2,500, and both together the full 10,000.
pub proof fn law_score_is_three_parts_accuracy(accuracy_bp: int, majority_bp: int)
    ensures
        4 * weighed(accuracy_bp, majority_bp) <= 3 * accuracy_bp + majority_bp < 4 * weighed(
            accuracy_bp,
            majority_bp,
        ) + 4,
        weighed(accuracy_bp + 4, majority_bp) == weighed(accuracy_bp, majority_bp) + 3,
        weighed(accuracy_bp, majority_bp + 4) == weighed(accuracy_bp, majority_bp) + 1,
        accuracy_bp == 10_000 && majority_bp == 0 ==> weighed(accuracy_bp, majority_bp) == 7_500,
        accuracy_bp == 0 && majority_bp == 10_000 ==> weighed(accuracy_bp, majority_bp) == 2_500,
{
}

/// A perfect guess has full accuracy, each basis point off on either side costs
/// four, and a guess 2,500 or more off has none.
pub proof fn law_accuracy_falls_by_four_per_basis_point(crowd_guess_pct: int, actual_yes_bps: int)
    ensures
        actual_yes_bps == 100 * crowd_guess_pct ==> accuracy(crowd_guess_pct, actual_yes_bps)
            == 10_000,
        0 <= actual_yes_bps - 100 * crowd_guess_pct < 2_500 ==> accuracy(
            crowd_guess_pct,
            actual_yes_bps + 1,
        ) == accuracy(crowd_guess_pct, actual_yes_bps) - 4,
        0 <= 100 * crowd_guess_pct - actual_yes_bps < 2_500 ==> accuracy(
            crowd_guess_pct,
            actual_yes_bps - 1,
        ) == accuracy(crowd_guess_pct, actual_yes_bps) - 4,
        actual_yes_bps - 100 * crowd_guess_pct >= 2_500 ==> accuracy(
            crowd_guess_pct,
            actual_yes_bps,
        ) == 0,
        100 * crowd_guess_pct - actual_yes_bps >= 2_500 ==> accuracy(
            crowd_guess_pct,
            actual_yes_bps,
        ) == 0,
{
}

/// The side with more than half the vote has the whole majority part and the
/// other side none of it; at exactly half both have it.
pub proof fn law_majority_goes_to_the_larger_side(actual_yes_bps: int)
    ensures
        actual_yes_bps > 5_000 ==> majority(Side::Yes, actual_yes_bps) == 10_000 && majority(
            Side::No,
            actual_yes_bps,
        ) == 0,
        actual_yes_bps < 5_000 ==> majority(Side::Yes, actual_yes_bps) == 0 && majority(
            Side::No,
            actual_yes_bps,
        ) == 10_000,
        actual_yes_bps == 5_000 ==> majority(Side::Yes, actual_yes_bps) == 10_000 && majority(
            Side::No,
            actual_yes_bps,
        ) == 10_000,
{
}

} // verus!
