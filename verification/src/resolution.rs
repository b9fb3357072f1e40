//! Redemption values and the settlement of a resolved market.

use crate::amm::Side;
use crate::ledger::AccountId;
use crate::money::{MicroShares, MicroUsd};
use vstd::prelude::*;

verus! {

/// Complete settlement output, with one floor-rounded payout per holding.
#[derive(Clone, Debug, Eq, PartialEq)]
pub struct Settlement {
    pub payouts: Vec<(AccountId, MicroUsd)>,
    pub dust: MicroUsd,
}

/// A rejected redemption or settlement computation.
#[derive(Clone, Copy, Debug, Eq, PartialEq, Structural)]
pub enum ResolutionError {
    /// A value is negative or does not fit its type.
    Overflow,
    /// The settlement did not conserve escrow.
    ConservationViolated { expected: MicroUsd, got: MicroUsd },
    /// The actual YES result must be at most 10,000 basis points.
    ActualOutOfRange,
    /// The holdings are incomplete.
    HoldingsIncomplete { minted: MicroShares, presented: MicroShares },
}

/// One outstanding balance: who holds how many shares of which side.
pub type Holding = (AccountId, Side, MicroShares);

/// What one whole share of `side` redeems for, in micro-USD.
pub open spec fn redemption(actual_yes_bps: int, side: Side) -> int {
    match side {
        Side::Yes => actual_yes_bps * 100,
        Side::No => 1_000_000 - actual_yes_bps * 100,
    }
}

/// What `shares` redeem for, rounded down.
pub open spec fn payout_of(shares: int, redemption_per_share: int) -> int {
    shares * redemption_per_share / 1_000_000
}

/// The shares of `side` among the holdings.
pub open spec fn side_total(holdings: Seq<Holding>, side: Side) -> int
    decreases holdings.len(),
{
    if holdings.len() == 0 {
        0
    } else {
        side_total(holdings.drop_last(), side) + if holdings.last().1 == side {
            holdings.last().2.0 as int
        } else {
            0
        }
    }
}

/// The payout of one holding.
pub open spec fn holding_payout(holding: Holding, actual_yes_bps: int) -> int {
    payout_of(holding.2.0 as int, redemption(actual_yes_bps, holding.1))
}

/// The payouts of all holdings together.
pub open spec fn payout_total(holdings: Seq<Holding>, actual_yes_bps: int) -> int
    decreases holdings.len(),
{
    if holdings.len() == 0 {
        0
    } else {
        payout_total(holdings.drop_last(), actual_yes_bps) + holding_payout(
            holdings.last(),
            actual_yes_bps,
        )
    }
}

/// Some holding is negative.
pub open spec fn has_negative(holdings: Seq<Holding>) -> bool {
    exists|i: int| 0 <= i < holdings.len() && (#[trigger] holdings[i]).2.0 < 0
}

/// The refusal for a side whose holdings do not add up to the minted sets.
pub open spec fn incomplete(minted: int, presented: int) -> ResolutionError {
    if presented > i64::MAX {
        ResolutionError::Overflow
    } else {
        ResolutionError::HoldingsIncomplete {
            minted: MicroShares(minted as i64),
            presented: MicroShares(presented as i64),
        }
    }
}

/// Why a market is not settled, if it is not.
pub open spec fn settlement_error(
    holdings: Seq<Holding>,
    actual_yes_bps: int,
    escrow: int,
) -> Option<ResolutionError> {
    if actual_yes_bps > 10_000 {
        Some(ResolutionError::ActualOutOfRange)
    } else if escrow < 0 || has_negative(holdings) {
        Some(ResolutionError::Overflow)
    } else if side_total(holdings, Side::Yes) != escrow {
        Some(incomplete(escrow, side_total(holdings, Side::Yes)))
    } else if side_total(holdings, Side::No) != escrow {
        Some(incomplete(escrow, side_total(holdings, Side::No)))
    } else if holdings.len() == 0 {
        Some(
            ResolutionError::ConservationViolated {
                expected: MicroUsd(escrow as i64),
                got: MicroUsd(escrow as i64),
            },
        )
    } else {
        None
    }
}

/// The payout of non-negative shares at a valid redemption is the exact share
/// of the escrow less a fraction below one micro.
proof fn lemma_payout_bounds(shares: int, redemption_per_share: int)
    requires
        0 <= shares,
        0 <= redemption_per_share <= 1_000_000,
    ensures
        0 <= payout_of(shares, redemption_per_share) <= shares,
        0 <= shares * redemption_per_share - 1_000_000 * payout_of(shares, redemption_per_share)
            < 1_000_000,
{
    assert(0 <= shares * redemption_per_share <= shares * 1_000_000) by (nonlinear_arith)
        requires
            0 <= shares,
            0 <= redemption_per_share <= 1_000_000,
    ;
}

/// The accumulated rounding stays between nothing and one micro per holding.
proof fn lemma_rounding(holdings: Seq<Holding>, actual_yes_bps: int)
    requires
        !has_negative(holdings),
        0 <= actual_yes_bps <= 10_000,
    ensures
        ({
            let exact = side_total(holdings, Side::Yes) * redemption(actual_yes_bps, Side::Yes)
                + side_total(holdings, Side::No) * redemption(actual_yes_bps, Side::No);
            let lost = exact - 1_000_000 * payout_total(holdings, actual_yes_bps);
            &&& 0 <= lost
            &&& holdings.len() > 0 ==> lost < 1_000_000 * holdings.len()
        }),
    decreases holdings.len(),
{
    if holdings.len() > 0 {
        let head = holdings.drop_last();
        let last = holdings.last();
        assert(last == holdings[holdings.len() - 1]);
        assert forall|i: int| 0 <= i < head.len() implies (#[trigger] head[i]).2.0 >= 0 by {
            assert(head[i] == holdings[i]);
        }
        lemma_rounding(head, actual_yes_bps);
        let y = redemption(actual_yes_bps, Side::Yes);
        let n = redemption(actual_yes_bps, Side::No);
        let s = last.2.0 as int;
        lemma_payout_bounds(s, redemption(actual_yes_bps, last.1));
        let hy = side_total(head, Side::Yes);
        let hn = side_total(head, Side::No);
        assert((hy + s) * y == hy * y + s * y && (hn + s) * n == hn * n + s * n)
            by (nonlinear_arith);
    } else {
        assert(0 * redemption(actual_yes_bps, Side::Yes) == 0);
    }
}

/// Settlement conserves escrow: where a market settles, the payouts and the
/// dust are exactly the escrow, no payout is negative, and the dust is
/// non-negative and smaller than the number of holdings.
pub proof fn law_settlement_conserves(holdings: Seq<Holding>, actual_yes_bps: int, escrow: int)
    requires
        0 <= actual_yes_bps,
        settlement_error(holdings, actual_yes_bps, escrow) is None,
    ensures
        0 <= escrow - payout_total(holdings, actual_yes_bps) < holdings.len(),
        forall|i: int|
            0 <= i < holdings.len() ==> 0 <= holding_payout(#[trigger] holdings[i], actual_yes_bps)
                <= holdings[i].2.0,
{
    lemma_rounding(holdings, actual_yes_bps);
    let y = redemption(actual_yes_bps, Side::Yes);
    let n = redemption(actual_yes_bps, Side::No);
    assert(escrow * y + escrow * n == escrow * 1_000_000) by (nonlinear_arith)
        requires
            y + n == 1_000_000,
    ;
    assert forall|i: int| 0 <= i < holdings.len() implies 0 <= holding_payout(
        #[trigger] holdings[i],
        actual_yes_bps,
    ) <= holdings[i].2.0 by {
        lemma_payout_bounds(holdings[i].2.0 as int, redemption(actual_yes_bps, holdings[i].1));
    }
}

/// A side's total is not negative, and no part of it exceeds it.
proof fn lemma_side_total_bounds(holdings: Seq<Holding>, side: Side)
    requires
        !has_negative(holdings),
    ensures
        0 <= side_total(holdings, side) <= 9_223_372_036_854_775_807 * holdings.len(),
    decreases holdings.len(),
{
    if holdings.len() > 0 {
        let head = holdings.drop_last();
        assert(holdings.last() == holdings[holdings.len() - 1]);
        assert forall|i: int| 0 <= i < head.len() implies (#[trigger] head[i]).2.0 >= 0 by {
            assert(head[i] == holdings[i]);
        }
        lemma_side_total_bounds(head, side);
    }
}

/// Returns the YES and NO redemption values per whole share; the two always
/// sum to one dollar.
///
/// # Errors
///
/// [`ResolutionError::ActualOutOfRange`] when `actual_yes_bps` is greater than
/// 10,000.
pub fn redemptions(actual_yes_bps: u16) -> (r: Result<(MicroUsd, MicroUsd), ResolutionError>)
    ensures
        actual_yes_bps > 10_000 <==> r == Err::<(MicroUsd, MicroUsd), ResolutionError>(
            ResolutionError::ActualOutOfRange,
        ),
        actual_yes_bps <= 10_000 ==> (r matches Ok(pair) && pair.0.0 == 100 * actual_yes_bps
            && pair.1.0 == 100 * (10_000 - actual_yes_bps) && pair.0.0 == redemption(
            actual_yes_bps as int,
            Side::Yes,
        ) && pair.1.0 == redemption(actual_yes_bps as int, Side::No) && pair.0.0 + pair.1.0
            == 1_000_000),
{
    if actual_yes_bps > 10_000 {
        return Err(ResolutionError::ActualOutOfRange);
    }
    let yes: i64 = actual_yes_bps as i64 * 100;
    Ok((MicroUsd(yes), MicroUsd(1_000_000 - yes)))
}

/// Computes one holding's payout, floor-rounded in favor of the house.
///
/// # Errors
///
/// [`ResolutionError::Overflow`] for negative inputs or when the resulting
/// payout cannot fit an `i64`.
pub fn position_payout(shares: MicroShares, redemption_per_share: MicroUsd) -> (r: Result<
    MicroUsd,
    ResolutionError,
>)
    ensures
        r == (if shares.0 < 0 || redemption_per_share.0 < 0 || payout_of(
            shares.0 as int,
            redemption_per_share.0 as int,
        ) > i64::MAX {
            Err::<MicroUsd, ResolutionError>(ResolutionError::Overflow)
        } else {
            Ok(MicroUsd(payout_of(shares.0 as int, redemption_per_share.0 as int) as i64))
        }),
        r matches Ok(p) ==> 1_000_000 * p.0 <= shares.0 * redemption_per_share.0 < 1_000_000 * (p.0
            + 1),
        0 <= shares.0 && 0 <= redemption_per_share.0 <= 1_000_000 ==> r is Ok,
{
    proof {
        if 0 <= shares.0 && 0 <= redemption_per_share.0 <= 1_000_000 {
            lemma_payout_bounds(shares.0 as int, redemption_per_share.0 as int);
        }
    }
    if shares.0 < 0 || redemption_per_share.0 < 0 {
        return Err(ResolutionError::Overflow);
    }
    assert(0 <= shares.0 * redemption_per_share.0 <= 0x7fff_ffff_ffff_ffff * 0x7fff_ffff_ffff_ffff)
        by (nonlinear_arith)
        requires
            0 <= shares.0 <= 0x7fff_ffff_ffff_ffff,
            0 <= redemption_per_share.0 <= 0x7fff_ffff_ffff_ffff,
    ;
    let payout: i128 = shares.0 as i128 * redemption_per_share.0 as i128 / 1_000_000;
    if payout > i64::MAX as i128 {
        return Err(ResolutionError::Overflow);
    }
    Ok(MicroUsd(payout as i64))
}

/// Settles every outstanding YES and NO balance against fully funded escrow.
///
/// Numerically, one micro-share of each side is one micro-USD of complete-set
/// escrow, so `escrow.0` is also the number of minted micro-share sets. Both
/// side totals must equal that number; this makes omitted pool or house
/// inventory a hard error instead of silently treating it as dust.
///
/// # Errors
///
/// [`ResolutionError::ActualOutOfRange`] for an invalid actual result,
/// [`ResolutionError::Overflow`] for negative or unrepresentable values,
/// [`ResolutionError::HoldingsIncomplete`] unless both side totals equal the
/// minted sets, and [`ResolutionError::ConservationViolated`] for a market
/// with no holdings at all, the one complete market whose dust is not below
/// the number of holdings.
pub fn settle_market(holdings: &[Holding], actual_yes_bps: u16, escrow: MicroUsd) -> (r: Result<
    Settlement,
    ResolutionError,
>)
    ensures
        match settlement_error(holdings@, actual_yes_bps as int, escrow.0 as int) {
            Some(e) => r == Err::<Settlement, ResolutionError>(e),
            None => r matches Ok(done) && {
                &&& done.payouts@.len() == holdings@.len()
                &&& forall|i: int|
                    0 <= i < holdings@.len() ==> (#[trigger] done.payouts@[i]).0 == holdings@[i].0
                        && done.payouts@[i].1.0 == holding_payout(
                        holdings@[i],
                        actual_yes_bps as int,
                    )
                &&& done.dust.0 == escrow.0 - payout_total(holdings@, actual_yes_bps as int)
                &&& 0 <= done.dust.0 < holdings@.len()
                &&& forall|i: int| #![trigger done.payouts@[i]]
                    0 <= i < holdings@.len() ==> ({
                        let p = done.payouts@[i].1.0;
                        let n = holdings@[i].2.0;
                        match holdings@[i].1 {
                            Side::Yes => 10_000 * p <= n * actual_yes_bps < 10_000 * (p + 1),
                            Side::No => 10_000 * p <= n * (10_000 - actual_yes_bps) < 10_000 * (p
                                + 1),
                        }
                    })
            },
        },
{
    let (yes_redemption, no_redemption) = match redemptions(actual_yes_bps) {
        Ok(pair) => pair,
        Err(e) => return Err(e),
    };
    if escrow.0 < 0 {
        return Err(ResolutionError::Overflow);
    }
    let minted = MicroShares(escrow.0);
    let mut yes_presented: i128 = 0;
    let mut no_presented: i128 = 0;
    let mut i: usize = 0;
    while i < holdings.len()
        invariant
            i <= holdings.len(),
            actual_yes_bps <= 10_000,
            forall|j: int| 0 <= j < i ==> (#[trigger] holdings@[j]).2.0 >= 0,
            yes_presented == side_total(holdings@.take(i as int), Side::Yes),
            no_presented == side_total(holdings@.take(i as int), Side::No),
            0 <= yes_presented <= 9_223_372_036_854_775_807 * i,
            0 <= no_presented <= 9_223_372_036_854_775_807 * i,
        decreases holdings.len() - i,
    {
        assert(holdings@.take(i + 1).drop_last() =~= holdings@.take(i as int));
        let (_, side, shares) = holdings[i];
        if shares.0 < 0 {
            assert(has_negative(holdings@));
            return Err(ResolutionError::Overflow);
        }
        match side {
            Side::Yes => {
                yes_presented += shares.0 as i128;
            },
            Side::No => {
                no_presented += shares.0 as i128;
            },
        }
        i += 1;
    }
    assert(holdings@.take(i as int) =~= holdings@);
    if yes_presented != escrow.0 as i128 {
        if yes_presented > i64::MAX as i128 {
            return Err(ResolutionError::Overflow);
        }
        return Err(
            ResolutionError::HoldingsIncomplete {
                minted,
                presented: MicroShares(yes_presented as i64),
            },
        );
    }
    if no_presented != escrow.0 as i128 {
        if no_presented > i64::MAX as i128 {
            return Err(ResolutionError::Overflow);
        }
        return Err(
            ResolutionError::HoldingsIncomplete {
                minted,
                presented: MicroShares(no_presented as i64),
            },
        );
    }
    if holdings.len() == 0 {
        return Err(ResolutionError::ConservationViolated { expected: escrow, got: escrow });
    }
    proof {
        law_settlement_conserves(holdings@, actual_yes_bps as int, escrow.0 as int);
    }
    let mut payouts: Vec<(AccountId, MicroUsd)> = Vec::new();
    let mut payout_sum: i128 = 0;
    let mut k: usize = 0;
    while k < holdings.len()
        invariant
            k <= holdings.len(),
            actual_yes_bps <= 10_000,
            yes_redemption.0 == redemption(actual_yes_bps as int, Side::Yes),
            no_redemption.0 == redemption(actual_yes_bps as int, Side::No),
            settlement_error(holdings@, actual_yes_bps as int, escrow.0 as int) is None,
            forall|j: int|
                0 <= j < holdings@.len() ==> 0 <= holding_payout(
                    #[trigger] holdings@[j],
                    actual_yes_bps as int,
                ) <= holdings@[j].2.0,
            payouts@.len() == k,
            forall|j: int|
                0 <= j < k ==> (#[trigger] payouts@[j]).0 == holdings@[j].0 && payouts@[j].1.0
                    == holding_payout(holdings@[j], actual_yes_bps as int),
            payout_sum == payout_total(holdings@.take(k as int), actual_yes_bps as int),
            0 <= payout_sum <= 9_223_372_036_854_775_807 * k,
        decreases holdings.len() - k,
    {
        assert(holdings@.take(k + 1).drop_last() =~= holdings@.take(k as int));
        let (account, side, shares) = holdings[k];
        let redemption = match side {
            Side::Yes => yes_redemption,
            Side::No => no_redemption,
        };
        assert(0 <= holding_payout(holdings@[k as int], actual_yes_bps as int)
            <= holdings@[k as int].2.0);
        let payout = match position_payout(shares, redemption) {
            Ok(payout) => payout,
            Err(e) => return Err(e),
        };
        payout_sum += payout.0 as i128;
        payouts.push((account, payout));
        k += 1;
    }
    assert(holdings@.take(k as int) =~= holdings@);
    let dust: i128 = escrow.0 as i128 - payout_sum;
    proof {
        assert forall|i: int| #![trigger payouts@[i]] 0 <= i < holdings@.len() implies ({
            let p = payouts@[i].1.0;
            let n = holdings@[i].2.0;
            match holdings@[i].1 {
                Side::Yes => 10_000 * p <= n * actual_yes_bps < 10_000 * (p + 1),
                Side::No => 10_000 * p <= n * (10_000 - actual_yes_bps) < 10_000 * (p + 1),
            }
        }) by {
            law_holdings_are_paid_by_the_final_vote(holdings@[i], actual_yes_bps as int);
        }
    }
    Ok(Settlement { payouts, dust: MicroUsd(dust as i64) })
}

/// Shares redeem at the final vote: a YES share at a hundred micro-USD for each
/// basis point of it, a NO share at the rest of a dollar. Each further basis point
/// moves the one up and the other down by a hundred.
pub proof fn law_shares_redeem_at_the_final_vote(actual_yes_bps: int)
    requires
        0 <= actual_yes_bps <= 10_000,
    ensures
        10_000 * redemption(actual_yes_bps, Side::Yes) == 1_000_000 * actual_yes_bps,
        10_000 * redemption(actual_yes_bps, Side::No) == 1_000_000 * (10_000 - actual_yes_bps),
        redemption(actual_yes_bps + 1, Side::Yes) == redemption(actual_yes_bps, Side::Yes) + 100,
        redemption(actual_yes_bps + 1, Side::No) == redemption(actual_yes_bps, Side::No) - 100,
{
}

/// A holding is paid its shares' part of the escrow at the final vote, rounded
/// down.
pub proof fn law_holdings_are_paid_by_the_final_vote(holding: Holding, actual_yes_bps: int)
    requires
        0 <= actual_yes_bps <= 10_000,
    ensures
        ({
            let p = holding_payout(holding, actual_yes_bps);
            let n = holding.2.0;
            match holding.1 {
                Side::Yes => 10_000 * p <= n * actual_yes_bps < 10_000 * (p + 1),
                Side::No => 10_000 * p <= n * (10_000 - actual_yes_bps) < 10_000 * (p + 1),
            }
        }),
{
    let n = holding.2.0 as int;
    let rate = redemption(actual_yes_bps, holding.1);
    crate::money::lemma_floor(n * rate, 1_000_000);
    match holding.1 {
        Side::Yes => {
            assert(n * (actual_yes_bps * 100) == 100 * (n * actual_yes_bps)) by (nonlinear_arith);
        },
        Side::No => {
            let rest = 10_000 - actual_yes_bps;
            assert(rate == rest * 100);
            assert(n * (rest * 100) == 100 * (n * rest)) by (nonlinear_arith);
        },
    }
}

/// The payouts and the dust together are the escrow, and both sides' holdings
/// together are what was minted.
pub proof fn law_settlement_adds_up(holdings: Seq<Holding>, actual_yes_bps: int, escrow: int)
    requires
        0 <= actual_yes_bps,
        settlement_error(holdings, actual_yes_bps, escrow) is None,
    ensures
        actual_yes_bps <= 10_000 && holdings.len() > 0 && escrow >= 0,
        forall|i: int| 0 <= i < holdings.len() ==> (#[trigger] holdings[i]).2.0 >= 0,
        holdings.fold_left(
            0int,
            |sum: int, h: Holding|
                sum + if h.1 == Side::Yes {
                    h.2.0 as int
                } else {
                    0
                },
        ) == escrow,
        holdings.fold_left(
            0int,
            |sum: int, h: Holding|
                sum + if h.1 == Side::No {
                    h.2.0 as int
                } else {
                    0
                },
        ) == escrow,
        payout_total(holdings, actual_yes_bps) == holdings.fold_left(
            0int,
            |sum: int, h: Holding| sum + holding_payout(h, actual_yes_bps),
        ),
{
    lemma_side_total_folds(holdings);
    lemma_payouts_fold(holdings, actual_yes_bps);
}

/// A market settles wherever both sides are complete: whoever presents all the
/// shares of a funded market is paid.
pub proof fn law_complete_markets_settle(holdings: Seq<Holding>, actual_yes_bps: int, escrow: int)
    requires
        0 <= actual_yes_bps <= 10_000,
        holdings.len() > 0,
        escrow >= 0,
        forall|i: int| 0 <= i < holdings.len() ==> (#[trigger] holdings[i]).2.0 >= 0,
        holdings.fold_left(
            0int,
            |sum: int, h: Holding|
                sum + if h.1 == Side::Yes {
                    h.2.0 as int
                } else {
                    0
                },
        ) == escrow,
        holdings.fold_left(
            0int,
            |sum: int, h: Holding|
                sum + if h.1 == Side::No {
                    h.2.0 as int
                } else {
                    0
                },
        ) == escrow,
    ensures
        settlement_error(holdings, actual_yes_bps, escrow) is None,
{
    lemma_side_total_folds(holdings);
}

proof fn lemma_side_total_folds(holdings: Seq<Holding>)
    ensures
        side_total(holdings, Side::Yes) == holdings.fold_left(
            0int,
            |sum: int, h: Holding|
                sum + if h.1 == Side::Yes {
                    h.2.0 as int
                } else {
                    0
                },
        ),
        side_total(holdings, Side::No) == holdings.fold_left(
            0int,
            |sum: int, h: Holding|
                sum + if h.1 == Side::No {
                    h.2.0 as int
                } else {
                    0
                },
        ),
    decreases holdings.len(),
{
    reveal_with_fuel(Seq::fold_left, 2);
    if holdings.len() > 0 {
        lemma_side_total_folds(holdings.drop_last());
    }
}

proof fn lemma_payouts_fold(holdings: Seq<Holding>, actual_yes_bps: int)
    ensures
        payout_total(holdings, actual_yes_bps) == holdings.fold_left(
            0int,
            |sum: int, h: Holding| sum + holding_payout(h, actual_yes_bps),
        ),
    decreases holdings.len(),
{
    reveal_with_fuel(Seq::fold_left, 2);
    if holdings.len() > 0 {
        lemma_payouts_fold(holdings.drop_last(), actual_yes_bps);
    }
}

/// What a settlement is refused for, in order: an impossible vote, a negative
/// amount, a side that does not add up to the minted sets, told with what was
/// presented of it, and a market without holdings.
pub proof fn law_what_a_settlement_is_refused_for(
    holdings: Seq<Holding>,
    actual_yes_bps: int,
    escrow: int,
    yes: int,
    no: int,
)
    requires
        0 <= escrow <= i64::MAX,
        actual_yes_bps <= 10_000,
        forall|i: int| 0 <= i < holdings.len() ==> (#[trigger] holdings[i]).2.0 >= 0,
        yes == holdings.fold_left(
            0int,
            |sum: int, h: Holding|
                sum + if h.1 == Side::Yes {
                    h.2.0 as int
                } else {
                    0
                },
        ),
        no == holdings.fold_left(
            0int,
            |sum: int, h: Holding|
                sum + if h.1 == Side::No {
                    h.2.0 as int
                } else {
                    0
                },
        ),
    ensures
        0 <= yes <= i64::MAX && yes != escrow ==> settlement_error(holdings, actual_yes_bps, escrow)
            == Some(
            ResolutionError::HoldingsIncomplete {
                minted: MicroShares(escrow as i64),
                presented: MicroShares(yes as i64),
            },
        ),
        yes == escrow && 0 <= no <= i64::MAX && no != escrow ==> settlement_error(
            holdings,
            actual_yes_bps,
            escrow,
        ) == Some(
            ResolutionError::HoldingsIncomplete {
                minted: MicroShares(escrow as i64),
                presented: MicroShares(no as i64),
            },
        ),
        yes == escrow && no == escrow && holdings.len() > 0 ==> settlement_error(
            holdings,
            actual_yes_bps,
            escrow,
        ) is None,
{
    lemma_side_total_folds(holdings);
}

/// An impossible vote is told as one, and a negative amount overflows.
pub proof fn law_impossible_settlements_are_refused(
    holdings: Seq<Holding>,
    actual_yes_bps: int,
    escrow: int,
    i: int,
)
    ensures
        settlement_error(holdings, actual_yes_bps, escrow) == Some(
            ResolutionError::ActualOutOfRange,
        ) <==> actual_yes_bps > 10_000,
        actual_yes_bps <= 10_000 && escrow < 0 ==> settlement_error(
            holdings,
            actual_yes_bps,
            escrow,
        ) == Some(ResolutionError::Overflow),
        actual_yes_bps <= 10_000 && 0 <= i < holdings.len() && holdings[i].2.0 < 0
            ==> settlement_error(holdings, actual_yes_bps, escrow) == Some(
            ResolutionError::Overflow,
        ),
{
    if 0 <= i < holdings.len() && holdings[i].2.0 < 0 {
        assert(has_negative(holdings));
    }
}

} // verus!
