//! Integer money. Every amount is a whole number of micro-units.

use vstd::prelude::*;

verus! {

/// A number that an amount of micro-USD or of micro-shares can hold.
pub open spec fn fits(n: int) -> bool {
    i64::MIN <= n <= i64::MAX
}

/// Integer micro-USDC.
#[derive(Debug, Clone, Copy, PartialEq, Eq, PartialOrd, Ord, Hash, Structural)]
pub struct MicroUsd(pub i64);

/// Integer micro-shares.
#[derive(Debug, Clone, Copy, PartialEq, Eq, PartialOrd, Ord, Hash, Structural)]
pub struct MicroShares(pub i64);

/// Fee rate in basis points (1 bp = 0.01%).
#[derive(Debug, Clone, Copy, PartialEq, Eq, PartialOrd, Ord, Hash, Structural)]
pub struct BasisPoints(pub u16);

/// A gross amount split into net and fee; `net + fee == gross` exactly.
#[derive(Debug, Clone, Copy, PartialEq, Eq, Structural)]
pub struct FeeSplit {
    pub net: MicroUsd,
    pub fee: MicroUsd,
}

/// Why an amount could not be split.
#[derive(Debug, Clone, Copy, PartialEq, Eq, Structural)]
pub enum MoneyError {
    /// The amount must be non-negative.
    NegativeAmount,
    /// The result does not fit the amount's type.
    Overflow,
    /// The fee is above 100%.
    FeeTooHigh,
}

/// `n / d` rounded up, for a positive `d`.
pub open spec fn ceil_div(n: int, d: int) -> int {
    (n + d - 1) / d
}

/// The fee due on `gross` at `bps` basis points, rounded up.
pub open spec fn fee_due(gross: int, bps: int) -> int {
    ceil_div(gross * bps, 10_000)
}

/// What splitting a fee out of `gross` gives.
pub open spec fn fee_split(gross: MicroUsd, fee: BasisPoints) -> Result<FeeSplit, MoneyError> {
    if gross.0 < 0 {
        Err(MoneyError::NegativeAmount)
    } else if fee.0 > 10_000 {
        Err(MoneyError::FeeTooHigh)
    } else {
        let due = fee_due(gross.0 as int, fee.0 as int);
        Ok(FeeSplit { net: MicroUsd((gross.0 - due) as i64), fee: MicroUsd(due as i64) })
    }
}

/// A fee of at most 100% of a non-negative amount lies between nothing and the
/// whole amount, and it is the smallest whole amount that is not below the
/// exact share `gross * bps / 10_000`.
pub proof fn lemma_fee_bounds(gross: int, bps: int)
    requires
        0 <= gross,
        0 <= bps <= 10_000,
    ensures
        0 <= fee_due(gross, bps) <= gross,
        gross * bps <= 10_000 * fee_due(gross, bps) < gross * bps + 10_000,
{
    assert(0 <= gross * bps <= gross * 10_000) by (nonlinear_arith)
        requires
            0 <= gross,
            0 <= bps <= 10_000,
    ;
}

/// Splitting always reassembles: for every amount and every fee of at most
/// 100%, net and fee are both non-negative and add up to the gross amount.
pub proof fn law_split_reassembles(gross: MicroUsd, fee: BasisPoints)
    requires
        gross.0 >= 0,
        fee.0 <= 10_000,
    ensures
        fee_split(gross, fee) matches Ok(split) && split.net.0 >= 0 && split.fee.0 >= 0
            && split.net.0 + split.fee.0 == gross.0,
{
    lemma_fee_bounds(gross.0 as int, fee.0 as int);
}

impl MicroUsd {
    /// The sum, or nothing where it does not fit.
    #[must_use]
    pub fn checked_add(self, o: Self) -> (r: Option<Self>)
        ensures
            r == (if i64::MIN <= self.0 + o.0 <= i64::MAX {
                Some(MicroUsd((self.0 + o.0) as i64))
            } else {
                None
            }),
    {
        match self.0.checked_add(o.0) {
            Some(v) => Some(MicroUsd(v)),
            None => None,
        }
    }

    /// The difference, or nothing where it does not fit.
    #[must_use]
    pub fn checked_sub(self, o: Self) -> (r: Option<Self>)
        ensures
            r == (if i64::MIN <= self.0 - o.0 <= i64::MAX {
                Some(MicroUsd((self.0 - o.0) as i64))
            } else {
                None
            }),
    {
        match self.0.checked_sub(o.0) {
            Some(v) => Some(MicroUsd(v)),
            None => None,
        }
    }
}

/// Splits the fee out of `gross`. The fee rounds up, so rounding always favors
/// the house; `net + fee == gross` exactly.
///
/// # Errors
///
/// [`MoneyError::NegativeAmount`] if `gross` is negative, and
/// [`MoneyError::FeeTooHigh`] if `fee` exceeds 10 000 bps. A fee never exceeds
/// the amount it is taken from, so [`MoneyError::Overflow`] does not come.
pub fn apply_fee(gross: MicroUsd, fee: BasisPoints) -> (r: Result<FeeSplit, MoneyError>)
    ensures
        r == fee_split(gross, fee),
        r matches Ok(split) ==> split.net.0 + split.fee.0 == gross.0 && gross.0 * fee.0 <= 10_000
            * split.fee.0 < gross.0 * fee.0 + 10_000,
        r is Ok <==> gross.0 >= 0 && fee.0 <= 10_000,
{
    if gross.0 < 0 {
        return Err(MoneyError::NegativeAmount);
    }
    if fee.0 > 10_000 {
        return Err(MoneyError::FeeTooHigh);
    }
    proof {
        lemma_fee_bounds(gross.0 as int, fee.0 as int);
        assert(0 <= gross.0 * fee.0 <= gross.0 * 10_000) by (nonlinear_arith)
            requires
                0 <= gross.0,
                0 <= fee.0 <= 10_000,
        ;
    }
    let due: i64 = ((gross.0 as i128 * fee.0 as i128 + 9_999) / 10_000) as i64;
    Ok(FeeSplit { net: MicroUsd(gross.0 - due), fee: MicroUsd(due) })
}

/// A quotient rounded down, by its defining inequalities.
pub proof fn lemma_floor(n: int, d: int)
    requires
        d > 0,
    ensures
        (n / d) * d <= n < (n / d + 1) * d,
        n >= 0 ==> n / d >= 0,
{
    assert((n / d) * d <= n < (n / d + 1) * d) by (nonlinear_arith)
        requires
            d > 0,
    ;
    assert(n >= 0 ==> n / d >= 0) by (nonlinear_arith)
        requires
            d > 0,
    ;
}

/// The fee is the least whole amount that is not below its rate's share of the
/// gross amount, and net is what it leaves. Only a negative amount and a rate
/// above 100% are refused.
pub proof fn law_fee_is_the_least_that_covers_its_rate(gross: MicroUsd, fee: BasisPoints)
    ensures
        gross.0 < 0 ==> fee_split(gross, fee) == Err::<FeeSplit, MoneyError>(
            MoneyError::NegativeAmount,
        ),
        gross.0 >= 0 && fee.0 > 10_000 ==> fee_split(gross, fee) == Err::<FeeSplit, MoneyError>(
            MoneyError::FeeTooHigh,
        ),
        gross.0 >= 0 && fee.0 <= 10_000 ==> (fee_split(gross, fee) matches Ok(split) && gross.0
            * fee.0 <= 10_000 * split.fee.0 < gross.0 * fee.0 + 10_000 && split.net.0 == gross.0
            - split.fee.0),
{
    if gross.0 >= 0 && fee.0 <= 10_000 {
        lemma_fee_bounds(gross.0 as int, fee.0 as int);
    }
}

} // verus!
