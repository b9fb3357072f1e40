//! Deterministic integer hot ranking shared with the read projection.

use vstd::prelude::*;

verus! {

/// Why a post has no hot score.
#[derive(Clone, Copy, Debug, Eq, PartialEq, Structural)]
pub enum RankError {
    /// A future timestamp cannot be ranked.
    FutureTimestamp,
}

/// The gravity-two hot score: a negative score counts as none, and age counts
/// in whole hours.
pub open spec fn hotness(score: int, age_secs: int) -> int {
    let points = if score < 0 {
        0
    } else {
        score
    };
    let hours = age_secs / 3_600;
    (points + 1) * 1_000_000 / ((hours + 2) * (hours + 2))
}

proof fn lemma_quotient_bounds(n: int, d: int)
    requires
        0 <= n,
        1 <= d,
    ensures
        0 <= n / d <= n,
{
    assert(0 <= n / d <= n) by (nonlinear_arith)
        requires
            0 <= n,
            1 <= d,
    ;
}

/// A higher score never ranks lower at the same age, and an older post never
/// ranks higher at the same score.
pub proof fn law_hotness_is_monotone(low: int, high: int, young: int, old_age: int)
    requires
        low <= high,
        0 <= young <= old_age,
    ensures
        hotness(low, young) <= hotness(high, young),
        hotness(low, old_age) <= hotness(low, young),
{
    let a = (if low < 0 {
        0
    } else {
        low
    } + 1) * 1_000_000;
    let b = (if high < 0 {
        0
    } else {
        high
    } + 1) * 1_000_000;
    let h = young / 3_600 + 2;
    let k = old_age / 3_600 + 2;
    assert(h * h >= 1 && k * k >= h * h) by (nonlinear_arith)
        requires
            2 <= h <= k,
    ;
    let d = h * h;
    let e = k * k;
    assert(a / d <= b / d) by (nonlinear_arith)
        requires
            0 <= a <= b,
            d >= 1,
    ;
    assert(a / e <= a / d) by (nonlinear_arith)
        requires
            0 <= a,
            1 <= d <= e,
    ;
}

/// Returns the gravity-two hot score.
///
/// # Errors
///
/// [`RankError::FutureTimestamp`] when `age_secs` is negative.
pub fn hot_score(score: i32, age_secs: i64) -> (r: Result<i64, RankError>)
    ensures
        r == (if age_secs < 0 {
            Err::<i64, RankError>(RankError::FutureTimestamp)
        } else {
            Ok(hotness(score as int, age_secs as int) as i64)
        }),
        age_secs >= 0 ==> 0 <= hotness(score as int, age_secs as int) <= i64::MAX,
{
    if age_secs < 0 {
        return Err(RankError::FutureTimestamp);
    }
    let points: i128 = if score < 0 {
        0
    } else {
        score as i128
    };
    let numerator: i128 = (points + 1) * 1_000_000;
    let hours: i128 = age_secs as i128 / 3_600 + 2;
    proof {
        assert(4 <= hours * hours <= 0x1_0000_0000_0000_0000 * 0x10_0000_0000_0000)
            by (nonlinear_arith)
            requires
                2 <= hours <= 0x10_0000_0000_0000,
        ;
        lemma_quotient_bounds(numerator as int, hours * hours);
    }
    Ok((numerator / (hours * hours)) as i64)
}

/// The hot score is a million points for one more than the score, a negative one
/// counting as none, divided by the square of the age in whole hours plus two,
/// and rounded down.
pub proof fn law_hotness_falls_with_the_square_of_the_age(score: int, hours: int, secs: int)
    requires
        hours >= 0,
        0 <= secs < 3_600,
    ensures
        ({
            let h = hotness(score, 3_600 * hours + secs);
            let points = if score <= 0 {
                1_000_000
            } else {
                1_000_000 * score + 1_000_000
            };
            h * ((hours + 2) * (hours + 2)) <= points < (h + 1) * ((hours + 2) * (hours + 2))
        }),
{
    let age = 3_600 * hours + secs;
    assert(age / 3_600 == hours);
    assert((hours + 2) * (hours + 2) > 0) by (nonlinear_arith)
        requires
            hours >= 0,
    ;
    let points = if score <= 0 {
        1_000_000
    } else {
        1_000_000 * score + 1_000_000
    };
    crate::money::lemma_floor(points, (hours + 2) * (hours + 2));
}

} // verus!
