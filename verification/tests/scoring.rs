use opinions::amm::Side;
use opinions::scoring::{score_vote, ScoringError};

#[test]
fn accuracy_kernel_has_exact_landmarks() {
    assert_eq!(
        score_vote(Side::Yes, 73, 7_300).unwrap().accuracy_bp,
        10_000
    );
    assert_eq!(score_vote(Side::Yes, 75, 5_000).unwrap().accuracy_bp, 0);
    assert_eq!(score_vote(Side::Yes, 50, 6_250).unwrap().accuracy_bp, 5_000);
}

#[test]
fn yes_majority_straddles_half_and_tie_awards_both_sides() {
    assert_eq!(
        score_vote(Side::Yes, 50, 5_001).unwrap().majority_bp,
        10_000
    );
    assert_eq!(score_vote(Side::Yes, 50, 4_999).unwrap().majority_bp, 0);
    assert_eq!(
        score_vote(Side::Yes, 50, 5_000).unwrap().majority_bp,
        10_000
    );
    assert_eq!(score_vote(Side::No, 50, 5_000).unwrap().majority_bp, 10_000);
}

#[test]
fn no_majority_wins_below_half_only() {
    assert_eq!(score_vote(Side::No, 50, 4_999).unwrap().majority_bp, 10_000);
    assert_eq!(score_vote(Side::No, 50, 5_001).unwrap().majority_bp, 0);
}

#[test]
fn perfect_guess_on_winning_side_scores_ten_thousand() {
    assert_eq!(score_vote(Side::Yes, 70, 7_000).unwrap().score_bp, 10_000);
}

#[test]
fn out_of_range_inputs_are_rejected() {
    assert_eq!(
        score_vote(Side::Yes, 101, 5_000),
        Err(ScoringError::GuessOutOfRange)
    );
    assert_eq!(
        score_vote(Side::Yes, 50, 10_001),
        Err(ScoringError::ActualOutOfRange)
    );
}
