use opinions::ranking::{hot_score, RankError};

#[test]
fn boundaries_and_baseline_are_exact() {
    assert_eq!(hot_score(-1, 0), Ok(250_000));
    assert_eq!(hot_score(0, 3_599), Ok(250_000));
    assert_eq!(hot_score(0, 3_600), Ok(111_111));
    assert_eq!(hot_score(1, 7_199), Ok(222_222));
    assert_eq!(hot_score(i32::MAX, i64::MAX), Ok(0));
    assert_eq!(hot_score(0, -1), Err(RankError::FutureTimestamp));
}

#[test]
fn score_clamps_and_age_decay_are_monotonic() {
    assert_eq!(hot_score(i32::MIN, 0), hot_score(0, 0));
    assert!(hot_score(10, 0).unwrap() > hot_score(1, 0).unwrap());
    assert!(hot_score(1, 0).unwrap() > hot_score(1, 3_600).unwrap());
}
