//! Fixed-point voter reputation and inclusive-lower tier mapping.

use vstd::prelude::*;

verus! {

/// One whole reputation, in micro-units.
pub const UNIT: i64 = 1_000_000;

/// Supported reputation half-lives. Each coefficient is the round-half-up
/// value of `2^(-1/H) * 1_000_000`.
#[derive(Clone, Copy, Debug, Eq, PartialEq, Structural)]
pub enum HalfLife {
    H10,
    H20,
    H40,
}

impl HalfLife {
    /// The weight of the old reputation, in millionths.
    pub open spec fn weight(self) -> int {
        match self {
            HalfLife::H10 => 933_033,
            HalfLife::H20 => 965_936,
            HalfLife::H40 => 982_821,
        }
    }

    #[must_use]
    pub fn k_ppm(self) -> (r: u32)
        ensures
            r == self.weight(),
    {
        match self {
            HalfLife::H10 => 933_033,
            HalfLife::H20 => 965_936,
            HalfLife::H40 => 982_821,
        }
    }
}

/// Why an update was refused.
#[derive(Clone, Copy, Debug, Eq, PartialEq, Structural)]
pub enum RepError {
    /// Reputation and score must be within 0..=1,000,000.
    OperandOutOfRange,
}

/// Within the closed fixed-point unit interval.
pub open spec fn in_unit(x: int) -> bool {
    0 <= x <= 1_000_000
}

/// One weighted-average step, rounded half up.
pub open spec fn step(rep_micro: int, score_micro: int, h: HalfLife) -> int {
    (rep_micro * h.weight() + score_micro * (1_000_000 - h.weight()) + 500_000) / 1_000_000
}

/// Reputation moves toward the score and never past it, so it stays in the
/// unit interval; equal reputation and score are a fixed point; and it does
/// move wherever the exact step is more than half a micro-unit.
pub proof fn law_reputation_moves_toward_the_score(rep_micro: int, score_micro: int, h: HalfLife)
    requires
        in_unit(rep_micro),
        in_unit(score_micro),
    ensures
        in_unit(step(rep_micro, score_micro, h)),
        rep_micro <= score_micro ==> rep_micro <= step(rep_micro, score_micro, h) <= score_micro,
        rep_micro >= score_micro ==> score_micro <= step(rep_micro, score_micro, h) <= rep_micro,
        (score_micro - rep_micro) * (1_000_000 - h.weight()) > 500_000 ==> step(
            rep_micro,
            score_micro,
            h,
        ) > rep_micro,
        (rep_micro - score_micro) * (1_000_000 - h.weight()) > 500_000 ==> step(
            rep_micro,
            score_micro,
            h,
        ) < rep_micro,
{
    let k = h.weight();
    let gap = score_micro - rep_micro;
    let total = rep_micro * k + score_micro * (1_000_000 - k);
    assert(total == 1_000_000 * rep_micro + gap * (1_000_000 - k)) by (nonlinear_arith)
        requires
            gap == score_micro - rep_micro,
            total == rep_micro * k + score_micro * (1_000_000 - k),
    ;
    assert(total == 1_000_000 * score_micro - gap * k) by (nonlinear_arith)
        requires
            gap == score_micro - rep_micro,
            total == rep_micro * k + score_micro * (1_000_000 - k),
    ;
    assert(gap >= 0 ==> gap * k >= 0 && gap * (1_000_000 - k) >= 0) by (nonlinear_arith)
        requires
            0 < k < 1_000_000,
    ;
    assert(gap <= 0 ==> gap * k <= 0 && gap * (1_000_000 - k) <= 0) by (nonlinear_arith)
        requires
            0 < k < 1_000_000,
    ;
    assert((rep_micro - score_micro) * (1_000_000 - k) == -(gap * (1_000_000 - k)))
        by (nonlinear_arith)
        requires
            gap == score_micro - rep_micro,
    ;
}

/// Applies one fixed-point weighted-average update with round-half-up
/// division. The coefficient is pinned by [`HalfLife`], so it can never equal
/// the unit and freeze reputation.
///
/// # Errors
///
/// [`RepError::OperandOutOfRange`] for either operand outside the closed
/// fixed-point unit interval.
pub fn update_rep(rep_micro: i64, score_micro: i64, h: HalfLife) -> (r: Result<i64, RepError>)
    ensures
        r == (if in_unit(rep_micro as int) && in_unit(score_micro as int) {
            Ok::<i64, RepError>(step(rep_micro as int, score_micro as int, h) as i64)
        } else {
            Err(RepError::OperandOutOfRange)
        }),
        r matches Ok(next) ==> in_unit(next as int),
        r is Ok <==> 0 <= rep_micro <= 1_000_000 && 0 <= score_micro <= 1_000_000,
{
    if rep_micro < 0 || rep_micro > UNIT || score_micro < 0 || score_micro > UNIT {
        return Err(RepError::OperandOutOfRange);
    }
    proof {
        law_reputation_moves_toward_the_score(rep_micro as int, score_micro as int, h);
    }
    let k: i64 = h.k_ppm() as i64;
    proof {
        assert(0 <= rep_micro * k <= 1_000_000 * 1_000_000 && 0 <= score_micro * (1_000_000 - k)
            <= 1_000_000 * 1_000_000) by (nonlinear_arith)
            requires
                0 <= rep_micro <= 1_000_000,
                0 <= score_micro <= 1_000_000,
                0 <= k <= 1_000_000,
        ;
    }
    Ok((rep_micro * k + score_micro * (UNIT - k) + 500_000) / UNIT)
}

/// One where `reached` holds, nothing elsewhere.
pub open spec fn counted(reached: bool) -> int {
    if reached {
        1
    } else {
        0
    }
}

/// How many of the thresholds `rep_micro` reaches.
pub open spec fn tier_of(rep_micro: int, thresholds: Seq<i64>) -> int {
    counted(rep_micro >= thresholds[0]) + counted(rep_micro >= thresholds[1]) + counted(
        rep_micro >= thresholds[2],
    ) + counted(rep_micro >= thresholds[3])
}

/// More reputation never means a lower tier.
pub proof fn law_tier_is_monotone(low: int, high: int, thresholds: Seq<i64>)
    requires
        low <= high,
    ensures
        0 <= tier_of(low, thresholds) <= tier_of(high, thresholds) <= 4,
{
}

/// Maps reputation into tier 0..=4. Thresholds are inclusive lower bounds
/// and are validated by the configuration catalog.
#[must_use]
pub fn tier_for(rep_micro: i64, thresholds: &[i64; 4]) -> (r: u8)
    ensures
        r == tier_of(rep_micro as int, thresholds@),
        r <= 4,
{
    let mut tier: u8 = 0;
    if rep_micro >= thresholds[0] {
        tier += 1;
    }
    if rep_micro >= thresholds[1] {
        tier += 1;
    }
    if rep_micro >= thresholds[2] {
        tier += 1;
    }
    if rep_micro >= thresholds[3] {
        tier += 1;
    }
    tier
}

/// One update keeps the old reputation with the weight that the half-life gives
/// and takes the score with the rest, rounded half up.
pub proof fn law_update_is_the_weighted_average(rep_micro: int, score_micro: int)
    ensures
        ({
            let next = step(rep_micro, score_micro, HalfLife::H10);
            -500_000 <= 933_033 * rep_micro + 66_967 * score_micro - 1_000_000 * next < 500_000
        }),
        ({
            let next = step(rep_micro, score_micro, HalfLife::H20);
            -500_000 <= 965_936 * rep_micro + 34_064 * score_micro - 1_000_000 * next < 500_000
        }),
        ({
            let next = step(rep_micro, score_micro, HalfLife::H40);
            -500_000 <= 982_821 * rep_micro + 17_179 * score_micro - 1_000_000 * next < 500_000
        }),
{
    lemma_weighted_average(rep_micro, score_micro, HalfLife::H10);
    lemma_weighted_average(rep_micro, score_micro, HalfLife::H20);
    lemma_weighted_average(rep_micro, score_micro, HalfLife::H40);
    assert(HalfLife::H10.weight() * rep_micro == 933_033 * rep_micro);
    assert(HalfLife::H20.weight() * rep_micro == 965_936 * rep_micro);
    assert(HalfLife::H40.weight() * rep_micro == 982_821 * rep_micro);
    assert((1_000_000 - HalfLife::H10.weight()) * score_micro == 66_967 * score_micro);
    assert((1_000_000 - HalfLife::H20.weight()) * score_micro == 34_064 * score_micro);
    assert((1_000_000 - HalfLife::H40.weight()) * score_micro == 17_179 * score_micro);
}

proof fn lemma_weighted_average(rep_micro: int, score_micro: int, h: HalfLife)
    ensures
        ({
            let next = step(rep_micro, score_micro, h);
            -500_000 <= h.weight() * rep_micro + (1_000_000 - h.weight()) * score_micro - 1_000_000
                * next < 500_000
        }),
{
    let w = h.weight();
    assert(rep_micro * w == w * rep_micro && score_micro * (1_000_000 - w) == (1_000_000 - w)
        * score_micro) by (nonlinear_arith);
}

/// A tier counts the thresholds reached, each inclusive: with ascending
/// thresholds tier `k` starts exactly at the `k`-th of them.
pub proof fn law_tier_starts_at_its_threshold(rep_micro: int, thresholds: Seq<i64>)
    requires
        thresholds.len() == 4,
        thresholds[0] <= thresholds[1] <= thresholds[2] <= thresholds[3],
    ensures
        tier_of(rep_micro, thresholds) == 0 <==> rep_micro < thresholds[0],
        tier_of(rep_micro, thresholds) >= 1 <==> rep_micro >= thresholds[0],
        tier_of(rep_micro, thresholds) >= 2 <==> rep_micro >= thresholds[1],
        tier_of(rep_micro, thresholds) >= 3 <==> rep_micro >= thresholds[2],
        tier_of(rep_micro, thresholds) == 4 <==> rep_micro >= thresholds[3],
{
}

} // verus!
