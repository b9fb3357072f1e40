//! Integer constant-product market maker over complete sets. All quantities
//! are integer micro-units, and rounding always favors the pool.

use crate::money;
use crate::money::{apply_fee, BasisPoints, MicroShares, MicroUsd, MoneyError};
use vstd::prelude::*;

verus! {

/// Closed cap on pool reserves, in micro-shares (= $10^9 of complete sets).
/// Quotes reject not only larger inputs but any resulting reserve above this,
/// so the cap is an invariant of reachable pool states.
pub const MAX_RESERVE: i64 = 1_000_000_000_000_000;

/// Closed cap on trade inputs (collateral in micro-USD, shares in micro-shares).
pub const MAX_AMOUNT: i64 = 1_000_000_000_000_000;

/// Which outcome side a trade touches.
#[derive(Debug, Clone, Copy, PartialEq, Eq, Hash, Structural)]
pub enum Side {
    Yes,
    No,
}

/// Reserves plus the trading fee. Construct via [`Pool::new`]; the constructor
/// is what enforces positive, in-cap reserves.
#[derive(Debug, Clone, Copy, PartialEq, Eq, Structural)]
pub struct Pool {
    pub yes: MicroShares,
    pub no: MicroShares,
    pub fee: BasisPoints,
}

/// Result of a buy quote. `avg_price_micro_per_share` is the all-in gross
/// price per whole share in micro-USD, floor-rounded, for display only.
#[derive(Debug, Clone, Copy, PartialEq, Eq, Structural)]
pub struct BuyQuote {
    pub shares_out: MicroShares,
    pub fee: MicroUsd,
    pub pool_after: Pool,
    pub avg_price_micro_per_share: i64,
}

/// Result of a sell quote. `collateral_out` is post-fee.
#[derive(Debug, Clone, Copy, PartialEq, Eq, Structural)]
pub struct SellQuote {
    pub collateral_out: MicroUsd,
    pub fee: MicroUsd,
    pub pool_after: Pool,
}

/// Why a pool or a quote was refused.
#[derive(Debug, Clone, Copy, PartialEq, Eq, Structural)]
pub enum AmmError {
    /// Pool reserves must be positive.
    EmptyPool,
    /// The amount is too small to move the pool.
    AmountTooSmall,
    /// The sell would drain a pool reserve to zero.
    DrainsPool,
    /// An input or a resulting reserve exceeds the closed cap.
    InputTooLarge,
    /// Arithmetic overflow.
    Overflow,
}

/// How a fee-math failure reads in the market maker's vocabulary.
pub open spec fn amm_error_of(e: MoneyError) -> AmmError {
    match e {
        MoneyError::NegativeAmount => AmmError::AmountTooSmall,
        MoneyError::Overflow => AmmError::Overflow,
        MoneyError::FeeTooHigh => AmmError::InputTooLarge,
    }
}

/// Fee-math failures surface through the market maker's vocabulary: a negative
/// amount is an amount too small to trade, an over-100% fee is an oversized
/// input, and overflow stays overflow.
impl From<MoneyError> for AmmError {
    fn from(e: MoneyError) -> (r: Self) {
        match e {
            MoneyError::NegativeAmount => AmmError::AmountTooSmall,
            MoneyError::Overflow => AmmError::Overflow,
            MoneyError::FeeTooHigh => AmmError::InputTooLarge,
        }
    }
}

impl vstd::std_specs::convert::FromSpecImpl<MoneyError> for AmmError {
    open spec fn obeys_from_spec() -> bool {
        true
    }

    open spec fn from_spec(e: MoneyError) -> Self {
        amm_error_of(e)
    }
}

impl Pool {
    /// Positive reserves within the cap, and a fee of at most 100%.
    pub open spec fn wf(self) -> bool {
        &&& 0 < self.yes.0 <= MAX_RESERVE
        &&& 0 < self.no.0 <= MAX_RESERVE
        &&& self.fee.0 <= 10_000
    }

    /// The reserve of `side`.
    pub open spec fn reserve(self, side: Side) -> int {
        match side {
            Side::Yes => self.yes.0 as int,
            Side::No => self.no.0 as int,
        }
    }

    /// The reserve opposite to `side`.
    pub open spec fn opposite(self, side: Side) -> int {
        match side {
            Side::Yes => self.no.0 as int,
            Side::No => self.yes.0 as int,
        }
    }

    /// The product that trades never shrink.
    pub open spec fn product(self) -> int {
        self.yes.0 * self.no.0
    }

    /// The pool with its sides exchanged.
    pub open spec fn mirrored(self) -> Pool {
        Pool { yes: self.no, no: self.yes, fee: self.fee }
    }

    /// The pool with `reserve` shares on `side` and `opposite` on the other.
    pub open spec fn with_reserves(self, side: Side, reserve: int, opposite: int) -> Pool {
        match side {
            Side::Yes => Pool {
                yes: MicroShares(reserve as i64),
                no: MicroShares(opposite as i64),
                fee: self.fee,
            },
            Side::No => Pool {
                yes: MicroShares(opposite as i64),
                no: MicroShares(reserve as i64),
                fee: self.fee,
            },
        }
    }

    /// # Errors
    ///
    /// [`AmmError::EmptyPool`] for non-positive reserves and
    /// [`AmmError::InputTooLarge`] for reserves above [`MAX_RESERVE`] or a
    /// fee above 10 000 bps.
    pub fn new(yes: MicroShares, no: MicroShares, fee: BasisPoints) -> (r: Result<Self, AmmError>)
        ensures
            r == (if yes.0 <= 0 || no.0 <= 0 {
                Err::<Pool, AmmError>(AmmError::EmptyPool)
            } else if yes.0 > MAX_RESERVE || no.0 > MAX_RESERVE || fee.0 > 10_000 {
                Err(AmmError::InputTooLarge)
            } else {
                Ok((Pool { yes, no, fee }))
            }),
            r matches Ok(pool) ==> pool.wf(),
            r is Ok <==> 0 < yes.0 <= 1_000_000_000_000_000 && 0 < no.0 <= 1_000_000_000_000_000
                && fee.0 <= 10_000,
    {
        if yes.0 <= 0 || no.0 <= 0 {
            return Err(AmmError::EmptyPool);
        }
        if yes.0 > MAX_RESERVE || no.0 > MAX_RESERVE || fee.0 > 10_000 {
            return Err(AmmError::InputTooLarge);
        }
        Ok(Self { yes, no, fee })
    }
}

/// `r` is the floor square root of `x`.
pub open spec fn is_floor_sqrt(x: int, r: int) -> bool {
    0 <= r && r * r <= x < (r + 1) * (r + 1)
}

/// There is only one floor square root.
proof fn lemma_floor_sqrt_unique(x: int, r: int, t: int)
    requires
        is_floor_sqrt(x, r),
        is_floor_sqrt(x, t),
    ensures
        r == t,
{
    assert(r == t) by (nonlinear_arith)
        requires
            0 <= r,
            0 <= t,
            r * r <= x < (r + 1) * (r + 1),
            t * t <= x < (t + 1) * (t + 1),
    ;
}

/// One Newton step from above stays at or above the floor root.
proof fn lemma_newton_step(x: int, r: int, q: int, next: int)
    requires
        0 < r,
        0 <= x,
        q == x / r,
        next == (r + q) / 2,
    ensures
        x < (next + 1) * (next + 1),
{
    assert(x < (q + 1) * r) by (nonlinear_arith)
        requires
            0 < r,
            q == x / r,
    ;
    assert(0 <= q) by (nonlinear_arith)
        requires
            0 < r,
            0 <= x,
            q == x / r,
    ;
    let m = r + q + 1;
    assert(2 * (next + 1) >= m);
    assert(m * m >= 4 * ((q + 1) * r)) by (nonlinear_arith)
        requires
            m == r + q + 1,
    ;
    assert((2 * (next + 1)) * (2 * (next + 1)) >= m * m) by (nonlinear_arith)
        requires
            2 * (next + 1) >= m,
            m >= 0,
    ;
    assert((2 * (next + 1)) * (2 * (next + 1)) == 4 * ((next + 1) * (next + 1)))
        by (nonlinear_arith);
}

/// Floor square root by Newton's method, descending from `2^64`.
pub fn isqrt_u128(x: u128) -> (r: u128)
    ensures
        is_floor_sqrt(x as int, r as int),
        r * r <= x < (r + 1) * (r + 1),
{
    if x < 2 {
        assert(is_floor_sqrt(x as int, x as int)) by (nonlinear_arith)
            requires
                0 <= x < 2,
        ;
        return x;
    }
    let mut r: u128 = 18_446_744_073_709_551_616;
    assert(x < (r + 1) * (r + 1)) by (nonlinear_arith)
        requires
            x <= u128::MAX,
            r == 18_446_744_073_709_551_616,
    ;
    loop
        invariant
            2 <= x,
            0 < r <= 18_446_744_073_709_551_616,
            x < (r + 1) * (r + 1),
        decreases r,
    {
        let q: u128 = x / r;
        proof {
            assert(q <= r + 2) by (nonlinear_arith)
                requires
                    0 < r,
                    x < (r + 1) * (r + 1),
                    q == x / r,
            ;
        }
        let next: u128 = (r + q) / 2;
        if next >= r {
            assert(r * r <= x) by (nonlinear_arith)
                requires
                    0 < r,
                    q == x / r,
                    q >= r,
            ;
            return r;
        }
        proof {
            lemma_newton_step(x as int, r as int, q as int, next as int);
            assert(next > 0) by (nonlinear_arith)
                requires
                    2 <= x,
                    0 < r,
                    q == x / r,
                    next == (r + q) / 2,
                    next < r,
                    x < (next + 1) * (next + 1),
            ;
        }
        r = next;
    }
}

/// The floor root undoes squaring: the root of a square is the number itself,
/// and one below a square has the root one below.
pub proof fn law_sqrt_square_roundtrip(x: int, r: int, t: int)
    requires
        x >= 1,
        is_floor_sqrt(x * x, r),
        is_floor_sqrt(x * x - 1, t),
    ensures
        r == x,
        t == x - 1,
{
    assert(x * x < (x + 1) * (x + 1)) by (nonlinear_arith)
        requires
            x >= 1,
    ;
    lemma_floor_sqrt_unique(x * x, r, x);
    assert((x - 1) * (x - 1) <= x * x - 1) by (nonlinear_arith)
        requires
            x >= 1,
    ;
    lemma_floor_sqrt_unique(x * x - 1, t, x - 1);
}

/// Marginal price of `side` in micro-USD per whole share, rounded down.
pub open spec fn marginal_price(pool: Pool, side: Side) -> int {
    pool.opposite(side) * 1_000_000 / (pool.yes.0 + pool.no.0)
}

/// Marginal price of `side` in micro-USD per whole share (floor). Display
/// only, never used in settlement.
#[must_use]
pub fn price_micro(pool: &Pool, side: Side) -> (r: i64)
    requires
        pool.wf(),
    ensures
        r == marginal_price(*pool, side),
        0 <= r <= 1_000_000,
        side == Side::Yes ==> r * (pool.yes.0 + pool.no.0) <= 1_000_000 * pool.no.0 < (r + 1) * (
        pool.yes.0 + pool.no.0),
        side == Side::No ==> r * (pool.yes.0 + pool.no.0) <= 1_000_000 * pool.yes.0 < (r + 1) * (
        pool.yes.0 + pool.no.0),
{
    proof {
        law_price_is_the_opposite_part(*pool, side);
    }
    let opposite: i128 = match side {
        Side::Yes => pool.no.0 as i128,
        Side::No => pool.yes.0 as i128,
    };
    let total: i128 = pool.yes.0 as i128 + pool.no.0 as i128;
    assert(0 <= opposite * 1_000_000 / (total as int) <= 1_000_000) by (nonlinear_arith)
        requires
            0 < opposite <= total,
    ;
    (opposite * 1_000_000 / total) as i64
}

/// The prices of the two sides are a coherent pair of probabilities: rounding
/// loses at most one micro of their sum.
pub proof fn law_prices_sum_to_one(pool: Pool)
    requires
        pool.wf(),
    ensures
        999_999 <= marginal_price(pool, Side::Yes) + marginal_price(pool, Side::No) <= 1_000_000,
{
    let total = pool.yes.0 + pool.no.0;
    let y = pool.no.0 * 1_000_000;
    let n = pool.yes.0 * 1_000_000;
    assert(y / total + n / total <= 1_000_000 && y / total + n / total >= 999_999)
        by (nonlinear_arith)
        requires
            total > 0,
            y + n == total * 1_000_000,
    ;
}

/// What a buy gives: the fee is split out, `net` complete sets are minted, the
/// opposite leg goes to the pool, and the pool keeps
/// `ceil(reserve * opposite / (opposite + net))` on the bought side.
pub open spec fn buy_quote(
    pool: Pool,
    side: Side,
    collateral: MicroUsd,
    fee: BasisPoints,
) -> Result<BuyQuote, AmmError> {
    if collateral.0 > MAX_AMOUNT {
        Err(AmmError::InputTooLarge)
    } else {
        match money::fee_split(collateral, fee) {
            Err(e) => Err(amm_error_of(e)),
            Ok(split) => {
                let net = split.net.0 as int;
                let other_after = pool.opposite(side) + net;
                let kept = money::ceil_div(pool.reserve(side) * pool.opposite(side), other_after);
                let out = pool.reserve(side) + net - kept;
                if other_after > MAX_RESERVE {
                    Err(AmmError::InputTooLarge)
                } else if out == 0 {
                    Err(AmmError::AmountTooSmall)
                } else {
                    Ok(
                        BuyQuote {
                            shares_out: MicroShares(out as i64),
                            fee: split.fee,
                            pool_after: pool.with_reserves(side, kept, other_after),
                            avg_price_micro_per_share: (collateral.0 * 1_000_000 / out) as i64,
                        },
                    )
                }
            },
        }
    }
}

/// Bounds on the pieces of a buy: the pool keeps between one share and its
/// whole reserve, so the buyer gets at least the minted sets and no more than
/// them plus the reserve.
proof fn lemma_buy_bounds(a: int, b: int, net: int)
    requires
        0 < a,
        0 < b,
        0 <= net,
    ensures
        0 < money::ceil_div(a * b, b + net) <= a,
        money::ceil_div(a * b, b + net) * (b + net) >= a * b,
        net == 0 ==> money::ceil_div(a * b, b + net) == a,
{
    let d = b + net;
    let kept = money::ceil_div(a * b, d);
    assert(0 < a * b <= a * d) by (nonlinear_arith)
        requires
            0 < a,
            0 < b <= d,
    ;
    assert(kept * d <= a * b + d - 1 < kept * d + d) by (nonlinear_arith)
        requires
            d > 0,
            kept == (a * b + d - 1) / d,
    ;
    assert(kept > 0) by (nonlinear_arith)
        requires
            0 < d,
            0 < a * b,
            a * b + d - 1 < kept * d + d,
    ;
    assert(kept <= a) by (nonlinear_arith)
        requires
            0 < d,
            kept * d <= a * b + d - 1,
            a * b <= a * d,
    ;
    if net == 0 {
        assert(kept >= a) by (nonlinear_arith)
            requires
                0 < d,
                a * d + d - 1 < kept * d + d,
        ;
    }
}

/// The all-in price of a buy fits its type with room to spare: what is left of
/// a positive net is at least a ten-thousandth part, rounded down.
proof fn lemma_avg_price_bound(collateral: int, bps: int, out: int)
    requires
        0 <= collateral,
        0 <= bps <= 10_000,
        0 < collateral - money::fee_due(collateral, bps) <= out,
    ensures
        0 <= collateral * 1_000_000 / out <= 20_000_000_000,
{
    money::lemma_fee_bounds(collateral, bps);
    let net = collateral - money::fee_due(collateral, bps);
    assert(collateral * (10_000 - bps) < 10_000 * net + 10_000) by (nonlinear_arith)
        requires
            10_000 * (collateral - net) < collateral * bps + 10_000,
    ;
    if bps == 10_000 {
        assert(collateral * bps == collateral * 10_000);
    }
    assert(collateral <= collateral * (10_000 - bps)) by (nonlinear_arith)
        requires
            0 <= collateral,
            bps < 10_000,
    ;
    assert(collateral <= 20_000 * out);
    assert(0 <= collateral * 1_000_000 / out <= 20_000_000_000) by (nonlinear_arith)
        requires
            0 <= collateral <= 20_000 * out,
            0 < out,
    ;
}

/// Buy `side` with gross `collateral`; see [`buy_quote`].
///
/// # Errors
///
/// [`AmmError::InputTooLarge`] if `collateral` exceeds [`MAX_AMOUNT`], the fee
/// exceeds 100% or the resulting opposite reserve would exceed
/// [`MAX_RESERVE`]; [`AmmError::AmountTooSmall`] if `collateral` is negative
/// or buys zero shares. Under the caps no step overflows.
pub fn quote_buy(
    pool: &Pool,
    side: Side,
    collateral: MicroUsd,
    fee: BasisPoints,
) -> (r: Result<BuyQuote, AmmError>)
    requires
        pool.wf(),
    ensures
        r == buy_quote(*pool, side, collateral, fee),
        r matches Ok(q) ==> q.pool_after.wf() && q.shares_out.0 > 0 && q.fee.0 >= 0,
{
    if collateral.0 > MAX_AMOUNT {
        return Err(AmmError::InputTooLarge);
    }
    let split = match apply_fee(collateral, fee) {
        Ok(split) => split,
        Err(e) => return Err(AmmError::from(e)),
    };
    let (a, b): (i128, i128) = match side {
        Side::Yes => (pool.yes.0 as i128, pool.no.0 as i128),
        Side::No => (pool.no.0 as i128, pool.yes.0 as i128),
    };
    let net: i128 = split.net.0 as i128;
    proof {
        money::lemma_fee_bounds(collateral.0 as int, fee.0 as int);
        lemma_buy_bounds(a as int, b as int, net as int);
        assert(0 < a * b <= 1_000_000_000_000_000 * 1_000_000_000_000_000) by (nonlinear_arith)
            requires
                0 < a <= 1_000_000_000_000_000,
                0 < b <= 1_000_000_000_000_000,
        ;
    }
    let other_after: i128 = b + net;
    if other_after > MAX_RESERVE as i128 {
        return Err(AmmError::InputTooLarge);
    }
    let kept: i128 = (a * b + (other_after - 1)) / other_after;
    let out: i128 = a + net - kept;
    if out == 0 {
        return Err(AmmError::AmountTooSmall);
    }
    proof {
        lemma_avg_price_bound(collateral.0 as int, fee.0 as int, out as int);
    }
    let avg: i128 = collateral.0 as i128 * 1_000_000 / out;
    let pool_after = match side {
        Side::Yes => Pool {
            yes: MicroShares(kept as i64),
            no: MicroShares(other_after as i64),
            fee: pool.fee,
        },
        Side::No => Pool {
            yes: MicroShares(other_after as i64),
            no: MicroShares(kept as i64),
            fee: pool.fee,
        },
    };
    Ok(
        BuyQuote {
            shares_out: MicroShares(out as i64),
            fee: split.fee,
            pool_after,
            avg_price_micro_per_share: avg as i64,
        },
    )
}

/// Burning `c` complete sets after `s` shares came in on the side that holds
/// `a` does not shrink the product of the reserves.
pub open spec fn keeps_product(a: int, b: int, s: int, c: int) -> bool {
    (a + s - c) * (b - c) >= a * b
}

/// `c` is the most complete sets that can be burned without shrinking the
/// product or emptying the opposite reserve.
pub open spec fn is_max_burn(a: int, b: int, s: int, c: int) -> bool {
    &&& 0 <= c < b
    &&& keeps_product(a, b, s, c)
    &&& forall|d: int| c < d < b ==> !#[trigger] keeps_product(a, b, s, d)
}

/// The most complete sets that can be burned.
pub open spec fn max_burn(a: int, b: int, s: int) -> int {
    choose|c: int| is_max_burn(a, b, s, c)
}

/// `(a + s + b)^2 - 4 * s * b`, the discriminant of the burn's quadratic.
pub open spec fn burn_discriminant(a: int, b: int, s: int) -> int {
    (a + s + b) * (a + s + b) - 4 * (s * b)
}

/// The floor square root of `x`.
pub open spec fn floor_sqrt(x: int) -> int {
    choose|r: int| is_floor_sqrt(x, r)
}

/// The smaller root of the burn's quadratic, from the floor square root of its
/// discriminant. It is never below [`max_burn`]; where it reaches the opposite
/// reserve, the sell is refused as draining the pool.
pub open spec fn burn_estimate(a: int, b: int, s: int) -> int {
    (a + s + b - floor_sqrt(burn_discriminant(a, b, s))) / 2
}

/// What a sell gives: the shares return to the pool, the most complete sets
/// that the product allows are burned, and the fee comes out of the proceeds.
pub open spec fn sell_quote(
    pool: Pool,
    side: Side,
    shares: MicroShares,
    fee: BasisPoints,
) -> Result<SellQuote, AmmError> {
    let a = pool.reserve(side);
    let b = pool.opposite(side);
    let s = shares.0 as int;
    let burn = max_burn(a, b, s);
    if s <= 0 {
        Err(AmmError::AmountTooSmall)
    } else if s > MAX_AMOUNT {
        Err(AmmError::InputTooLarge)
    } else if burn_estimate(a, b, s) >= b {
        Err(AmmError::DrainsPool)
    } else if burn == 0 {
        Err(AmmError::AmountTooSmall)
    } else if a + s - burn > MAX_RESERVE {
        Err(AmmError::InputTooLarge)
    } else {
        match money::fee_split(MicroUsd(burn as i64), fee) {
            Err(e) => Err(amm_error_of(e)),
            Ok(split) => Ok(
                SellQuote {
                    collateral_out: split.net,
                    fee: split.fee,
                    pool_after: pool.with_reserves(side, a + s - burn, b - burn),
                },
            ),
        }
    }
}

/// Two greatest burns are the same burn.
proof fn lemma_max_burn_unique(a: int, b: int, s: int, c: int)
    requires
        is_max_burn(a, b, s, c),
    ensures
        max_burn(a, b, s) == c,
{
    let d = max_burn(a, b, s);
    assert(is_max_burn(a, b, s, d));
    if c < d {
        assert(!keeps_product(a, b, s, d));
    }
    if d < c {
        assert(!keeps_product(a, b, s, c));
    }
}

/// No burn between the estimate and the opposite reserve keeps the product.
proof fn lemma_estimate_is_upper_bound(a: int, b: int, s: int, r: int, d: int)
    requires
        0 < a,
        0 < b,
        0 < s,
        is_floor_sqrt(burn_discriminant(a, b, s), r),
        (a + s + b - r) / 2 < d < b,
    ensures
        !keeps_product(a, b, s, d),
{
    let t = a + s + b;
    let disc = burn_discriminant(a, b, s);
    let gap = b - a - s;
    assert(disc == gap * gap + 4 * (a * b)) by (nonlinear_arith)
        requires
            t == a + s + b,
            disc == t * t - 4 * (s * b),
            gap == b - a - s,
    ;
    assert(a * b > 0) by (nonlinear_arith)
        requires
            0 < a,
            0 < b,
    ;
    assert(r >= gap) by (nonlinear_arith)
        requires
            0 <= r,
            disc < (r + 1) * (r + 1),
            disc > gap * gap,
    ;
    let e = 2 * d - t;
    assert(-(r - 1) <= e <= r - 1);
    assert(e * e <= (r - 1) * (r - 1)) by (nonlinear_arith)
        requires
            -(r - 1) <= e <= r - 1,
    ;
    assert((r - 1) * (r - 1) < r * r) by (nonlinear_arith)
        requires
            r >= 1,
    ;
    assert(4 * ((a + s - d) * (b - d)) == e * e - disc + 4 * (a * b)) by (nonlinear_arith)
        requires
            t == a + s + b,
            e == 2 * d - t,
            disc == t * t - 4 * (s * b),
    ;
}

/// Sell `shares` of `side`; see [`sell_quote`].
///
/// # Errors
///
/// [`AmmError::AmountTooSmall`] if `shares` is non-positive or the proceeds
/// round to zero; [`AmmError::InputTooLarge`] if `shares` exceeds
/// [`MAX_AMOUNT`], the fee exceeds 100% or the resulting sell-side reserve
/// would exceed [`MAX_RESERVE`]; [`AmmError::DrainsPool`] if the burn would
/// empty the opposite reserve. Under the caps no step overflows.
pub fn quote_sell(
    pool: &Pool,
    side: Side,
    shares: MicroShares,
    fee: BasisPoints,
) -> (r: Result<SellQuote, AmmError>)
    requires
        pool.wf(),
    ensures
        r == sell_quote(*pool, side, shares, fee),
        r matches Ok(q) ==> q.pool_after.wf() && q.collateral_out.0 >= 0 && q.fee.0 >= 0,
{
    if shares.0 <= 0 {
        return Err(AmmError::AmountTooSmall);
    }
    if shares.0 > MAX_AMOUNT {
        return Err(AmmError::InputTooLarge);
    }
    let (a, b): (u128, u128) = match side {
        Side::Yes => (pool.yes.0 as u128, pool.no.0 as u128),
        Side::No => (pool.no.0 as u128, pool.yes.0 as u128),
    };
    let s: u128 = shares.0 as u128;
    proof {
        let cap: int = 1_000_000_000_000_000;
        let t: int = a + s + b;
        assert(0 < a * b <= cap * cap && 0 < s * b <= cap * cap && t * t <= 9 * (cap * cap))
            by (nonlinear_arith)
            requires
                0 < a <= cap,
                0 < b <= cap,
                0 < s <= cap,
                t == a + s + b,
        ;
        assert(t * t >= 4 * (s * b)) by (nonlinear_arith)
            requires
                t == a + s + b,
                0 < a,
                0 < b,
                0 < s,
        ;
    }
    let product: u128 = a * b;
    let total: u128 = a + s + b;
    let disc: u128 = total * total - 4 * (s * b);
    let root: u128 = isqrt_u128(disc);
    proof {
        assert(is_floor_sqrt(burn_discriminant(a as int, b as int, s as int), root as int));
        lemma_floor_sqrt_unique(
            disc as int,
            root as int,
            floor_sqrt(burn_discriminant(a as int, b as int, s as int)),
        );
        assert(root <= total) by (nonlinear_arith)
            requires
                root * root <= total * total,
                0 <= root,
                0 <= total,
        ;
    }
    let mut c: u128 = (total - root) / 2;
    if c >= b {
        return Err(AmmError::DrainsPool);
    }
    proof {
        assert forall|d: int| c < d < b implies !#[trigger] keeps_product(
            a as int,
            b as int,
            s as int,
            d,
        ) by {
            lemma_estimate_is_upper_bound(a as int, b as int, s as int, root as int, d);
        }
    }
    loop
        invariant_except_break
            0 <= c < b <= 1_000_000_000_000_000,
            0 < a <= 1_000_000_000_000_000,
            0 < s <= 1_000_000_000_000_000,
            product == a * b,
            shares.0 > 0,
            shares.0 <= MAX_AMOUNT,
            a == pool.reserve(side),
            b == pool.opposite(side),
            s == shares.0,
            burn_estimate(a as int, b as int, s as int) < b,
            forall|d: int|
                c < d < b ==> !#[trigger] keeps_product(a as int, b as int, s as int, d),
        ensures
            0 < c < b,
            is_max_burn(a as int, b as int, s as int, c as int),
        decreases c,
    {
        if c == 0 {
            proof {
                assert(keeps_product(a as int, b as int, s as int, 0)) by (nonlinear_arith)
                    requires
                        0 < a,
                        0 < b,
                        0 < s,
                ;
                lemma_max_burn_unique(a as int, b as int, s as int, 0);
            }
            return Err(AmmError::AmountTooSmall);
        }
        proof {
            let cap: int = 1_000_000_000_000_000;
            let x: int = a + s - c;
            let y: int = b - c;
            if x >= 0 {
                assert(0 <= x * y <= 2 * (cap * cap)) by (nonlinear_arith)
                    requires
                        0 <= x <= 2 * cap,
                        0 <= y <= cap,
                ;
            } else {
                assert(x * y < 0 < a * b) by (nonlinear_arith)
                    requires
                        x < 0,
                        y > 0,
                        a > 0,
                        b > 0,
                ;
            }
        }
        if c <= a + s && (a + s - c) * (b - c) >= product {
            break;
        }
        c -= 1;
    }
    proof {
        lemma_max_burn_unique(a as int, b as int, s as int, c as int);
        assert(c <= a + s) by (nonlinear_arith)
            requires
                (a + s - c) * (b - c) >= a * b,
                0 < a,
                0 < b,
                c < b,
        ;
    }
    let sell_after: u128 = a + s - c;
    proof {
        assert(sell_after > 0) by (nonlinear_arith)
            requires
                (a + s - c) * (b - c) >= a * b,
                sell_after == a + s - c,
                0 < a,
                0 < b,
                c < b,
        ;
    }
    if sell_after > MAX_RESERVE as u128 {
        return Err(AmmError::InputTooLarge);
    }
    let other_after: u128 = b - c;
    let split = match apply_fee(MicroUsd(c as i64), fee) {
        Ok(split) => split,
        Err(e) => return Err(AmmError::from(e)),
    };
    proof {
        money::lemma_fee_bounds(c as int, fee.0 as int);
    }
    let pool_after = match side {
        Side::Yes => Pool {
            yes: MicroShares(sell_after as i64),
            no: MicroShares(other_after as i64),
            fee: pool.fee,
        },
        Side::No => Pool {
            yes: MicroShares(other_after as i64),
            no: MicroShares(sell_after as i64),
            fee: pool.fee,
        },
    };
    Ok(SellQuote { collateral_out: split.net, fee: split.fee, pool_after })
}

/// Walks down from `c` to the greatest burn that keeps the product.
proof fn lemma_find_max_burn(a: int, b: int, s: int, c: int)
    requires
        0 < a,
        0 < b,
        0 < s,
        0 <= c < b,
        forall|d: int| c < d < b ==> !#[trigger] keeps_product(a, b, s, d),
    ensures
        is_max_burn(a, b, s, max_burn(a, b, s)),
    decreases c,
{
    if keeps_product(a, b, s, c) {
        assert(is_max_burn(a, b, s, c));
    } else if c == 0 {
        assert(keeps_product(a, b, s, 0)) by (nonlinear_arith)
            requires
                0 < a,
                0 < b,
                0 < s,
        ;
    } else {
        lemma_find_max_burn(a, b, s, c - 1);
    }
}

/// There is always a greatest burn.
proof fn lemma_max_burn_exists(a: int, b: int, s: int)
    requires
        0 < a,
        0 < b,
        0 < s,
    ensures
        is_max_burn(a, b, s, max_burn(a, b, s)),
{
    lemma_find_max_burn(a, b, s, b - 1);
}

/// The product never decreases on buys, and a buy always yields shares:
/// rounding favors the pool. The pool after a buy is within the caps.
pub proof fn law_buy_never_decreases_product(
    pool: Pool,
    side: Side,
    collateral: MicroUsd,
    fee: BasisPoints,
)
    requires
        pool.wf(),
    ensures
        buy_quote(pool, side, collateral, fee) matches Ok(q) ==> {
            &&& q.pool_after.product() >= pool.product()
            &&& q.shares_out.0 > 0
            &&& q.pool_after.wf()
        },
{
    if buy_quote(pool, side, collateral, fee) is Ok {
        let a = pool.reserve(side);
        let b = pool.opposite(side);
        let net = collateral.0 - money::fee_due(collateral.0 as int, fee.0 as int);
        money::lemma_fee_bounds(collateral.0 as int, fee.0 as int);
        lemma_buy_bounds(a, b, net);
        let kept = money::ceil_div(a * b, b + net);
        assert(a * b == b * a) by (nonlinear_arith);
        assert(kept * (b + net) == (b + net) * kept) by (nonlinear_arith);
    }
}

/// The product never decreases on sells, the proceeds are never negative and
/// the pool after a sell is within the caps.
pub proof fn law_sell_never_decreases_product(
    pool: Pool,
    side: Side,
    shares: MicroShares,
    fee: BasisPoints,
)
    requires
        pool.wf(),
    ensures
        sell_quote(pool, side, shares, fee) matches Ok(q) ==> {
            &&& q.pool_after.product() >= pool.product()
            &&& q.collateral_out.0 >= 0
            &&& q.pool_after.wf()
        },
{
    if sell_quote(pool, side, shares, fee) is Ok {
        let a = pool.reserve(side);
        let b = pool.opposite(side);
        let s = shares.0 as int;
        lemma_max_burn_exists(a, b, s);
        let c = max_burn(a, b, s);
        money::lemma_fee_bounds(c, fee.0 as int);
        let x = a + s - c;
        let y = b - c;
        assert(a * b == b * a && x * y == y * x && a * b > 0) by (nonlinear_arith)
            requires
                a > 0,
                b > 0,
        ;
        assert(x > 0) by (nonlinear_arith)
            requires
                x * y >= a * b,
                a * b > 0,
                y > 0,
        ;
    }
}

/// An immediate round trip is never profitable, even at zero fee: selling the
/// shares that a buy gave returns at most the collateral that bought them.
pub proof fn law_round_trip_never_profits(
    pool: Pool,
    side: Side,
    collateral: MicroUsd,
    buy_fee: BasisPoints,
    sell_fee: BasisPoints,
)
    requires
        pool.wf(),
    ensures
        buy_quote(pool, side, collateral, buy_fee) matches Ok(bought) ==> (sell_quote(
            bought.pool_after,
            side,
            bought.shares_out,
            sell_fee,
        ) matches Ok(sold) ==> sold.collateral_out.0 <= collateral.0),
{
    if let Ok(bought) = buy_quote(pool, side, collateral, buy_fee) {
        if let Ok(sold) = sell_quote(bought.pool_after, side, bought.shares_out, sell_fee) {
            let a = pool.reserve(side);
            let b = pool.opposite(side);
            let net = collateral.0 - money::fee_due(collateral.0 as int, buy_fee.0 as int);
            money::lemma_fee_bounds(collateral.0 as int, buy_fee.0 as int);
            lemma_buy_bounds(a, b, net);
            let kept = money::ceil_div(a * b, b + net);
            let s = bought.shares_out.0 as int;
            assert(bought.pool_after.reserve(side) == kept);
            assert(bought.pool_after.opposite(side) == b + net);
            lemma_max_burn_exists(kept, b + net, s);
            let c = max_burn(kept, b + net, s);
            if c > net {
                let x = kept + s - c;
                let y = b + net - c;
                assert(x * y < a * b) by (nonlinear_arith)
                    requires
                        x < a,
                        0 < y < b,
                        0 < a,
                ;
            }
            money::lemma_fee_bounds(c, sell_fee.0 as int);
        }
    }
}

/// The side opposite to `side`.
pub open spec fn other_side(side: Side) -> Side {
    match side {
        Side::Yes => Side::No,
        Side::No => Side::Yes,
    }
}

/// Trading one side of a pool is exactly trading the other side of the
/// mirrored pool, refusals alike.
pub proof fn law_sides_are_symmetric(
    pool: Pool,
    side: Side,
    collateral: MicroUsd,
    shares: MicroShares,
    fee: BasisPoints,
)
    ensures
        match (
            buy_quote(pool, side, collateral, fee),
            buy_quote(pool.mirrored(), other_side(side), collateral, fee),
        ) {
            (Ok(p), Ok(q)) => p.shares_out == q.shares_out && p.fee == q.fee && p.pool_after
                == q.pool_after.mirrored() && p.avg_price_micro_per_share
                == q.avg_price_micro_per_share,
            (Err(d), Err(e)) => d == e,
            _ => false,
        },
        match (
            sell_quote(pool, side, shares, fee),
            sell_quote(pool.mirrored(), other_side(side), shares, fee),
        ) {
            (Ok(p), Ok(q)) => p.collateral_out == q.collateral_out && p.fee == q.fee
                && p.pool_after == q.pool_after.mirrored(),
            (Err(d), Err(e)) => d == e,
            _ => false,
        },
{
    assert(pool.reserve(side) == pool.mirrored().reserve(other_side(side)));
    assert(pool.opposite(side) == pool.mirrored().opposite(other_side(side)));
}

/// What a buy quote says of its amounts: the fee is part of the collateral and
/// leaves something of it.
pub proof fn lemma_buy_facts(pool: Pool, side: Side, collateral: MicroUsd, fee: BasisPoints)
    requires
        pool.wf(),
    ensures
        buy_quote(pool, side, collateral, fee) matches Ok(q) ==> {
            &&& 0 <= q.fee.0 < collateral.0
            &&& 0 < q.shares_out.0
            &&& q.pool_after.wf()
        },
{
    law_buy_never_decreases_product(pool, side, collateral, fee);
    if buy_quote(pool, side, collateral, fee) is Ok {
        let net = collateral.0 - money::fee_due(collateral.0 as int, fee.0 as int);
        money::lemma_fee_bounds(collateral.0 as int, fee.0 as int);
        lemma_buy_bounds(pool.reserve(side), pool.opposite(side), net);
    }
}

/// What a sell quote says of its amounts: collateral and fee are both
/// non-negative and together more than nothing, but never more than the shares.
pub proof fn lemma_sell_facts(pool: Pool, side: Side, shares: MicroShares, fee: BasisPoints)
    requires
        pool.wf(),
    ensures
        sell_quote(pool, side, shares, fee) matches Ok(q) ==> {
            &&& 0 <= q.fee.0
            &&& 0 <= q.collateral_out.0
            &&& 0 < q.collateral_out.0 + q.fee.0 <= shares.0
            &&& q.pool_after.wf()
        },
{
    law_sell_never_decreases_product(pool, side, shares, fee);
    if sell_quote(pool, side, shares, fee) is Ok {
        let a = pool.reserve(side);
        let b = pool.opposite(side);
        let s = shares.0 as int;
        lemma_max_burn_exists(a, b, s);
        let c = max_burn(a, b, s);
        money::lemma_fee_bounds(c, fee.0 as int);
        if c > s {
            let x = a + s - c;
            let y = b - c;
            assert(x * y < a * b) by (nonlinear_arith)
                requires
                    x < a,
                    0 < y < b,
                    0 < a,
            ;
        }
    }
}

/// The marginal price of a side is the opposite reserve's part of both reserves,
/// in micro-USD, rounded down.
pub proof fn law_price_is_the_opposite_part(pool: Pool, side: Side)
    requires
        pool.wf(),
    ensures
        ({
            let opposite = match side {
                Side::Yes => pool.no.0,
                Side::No => pool.yes.0,
            };
            let price = marginal_price(pool, side);
            price * (pool.yes.0 + pool.no.0) <= opposite * 1_000_000 < (price + 1) * (pool.yes.0
                + pool.no.0)
        }),
{
    money::lemma_floor(pool.opposite(side) * 1_000_000, pool.yes.0 + pool.no.0);
}

/// A buy follows the curve: the fee is the least that covers its rate, what is
/// left of the collateral mints complete sets, whose opposite half joins the
/// pool, and of the bought side the pool keeps the least that does not shrink
/// the product. Everything else of that side is the buyer's.
pub proof fn law_buy_follows_the_curve(
    pool: Pool,
    side: Side,
    collateral: MicroUsd,
    fee: BasisPoints,
)
    requires
        pool.wf(),
    ensures
        buy_quote(pool, side, collateral, fee) matches Ok(q) ==> ({
            let (a, b, a_after, b_after) = match side {
                Side::Yes => (pool.yes.0, pool.no.0, q.pool_after.yes.0, q.pool_after.no.0),
                Side::No => (pool.no.0, pool.yes.0, q.pool_after.no.0, q.pool_after.yes.0),
            };
            let net = collateral.0 - q.fee.0;
            &&& collateral.0 * fee.0 <= 10_000 * q.fee.0 < collateral.0 * fee.0 + 10_000
            &&& b_after == b + net
            &&& a_after + q.shares_out.0 == a + net
            &&& (a_after - 1) * b_after < a * b <= a_after * b_after
            &&& q.pool_after.fee == pool.fee
            &&& q.avg_price_micro_per_share * q.shares_out.0 <= collateral.0 * 1_000_000 < (
            q.avg_price_micro_per_share + 1) * q.shares_out.0
        }),
{
    if let Ok(q) = buy_quote(pool, side, collateral, fee) {
        let a = pool.reserve(side);
        let b = pool.opposite(side);
        money::lemma_fee_bounds(collateral.0 as int, fee.0 as int);
        let net = collateral.0 - money::fee_due(collateral.0 as int, fee.0 as int);
        lemma_buy_bounds(a, b, net);
        let d = b + net;
        let kept = money::ceil_div(a * b, d);
        money::lemma_floor(a * b + d - 1, d);
        assert((kept - 1) * d == kept * d - d) by (nonlinear_arith);
        let out = a + net - kept;
        assert(out > 0);
        lemma_avg_price_bound(collateral.0 as int, fee.0 as int, out);
        money::lemma_floor(collateral.0 * 1_000_000, out);
    }
}

/// A buy is refused for its amount, for its rate and for a pool that would grow
/// past the cap, and for nothing else: any collateral that leaves something
/// after the fee buys shares.
pub proof fn law_buys_are_refused_only_for(
    pool: Pool,
    side: Side,
    collateral: MicroUsd,
    fee: BasisPoints,
    due: int,
)
    requires
        pool.wf(),
        collateral.0 * fee.0 <= 10_000 * due < collateral.0 * fee.0 + 10_000,
    ensures
        ({
            let b = match side {
                Side::Yes => pool.no.0,
                Side::No => pool.yes.0,
            };
            let quote = buy_quote(pool, side, collateral, fee);
            &&& collateral.0 > 1_000_000_000_000_000 ==> quote == Err::<BuyQuote, AmmError>(
                AmmError::InputTooLarge,
            )
            &&& collateral.0 < 0 ==> quote == Err::<BuyQuote, AmmError>(AmmError::AmountTooSmall)
            &&& 0 <= collateral.0 <= 1_000_000_000_000_000 && fee.0 > 10_000 ==> quote == Err::<
                BuyQuote,
                AmmError,
            >(AmmError::InputTooLarge)
            &&& 0 <= collateral.0 <= 1_000_000_000_000_000 && fee.0 <= 10_000 && b + collateral.0
                - due > 1_000_000_000_000_000 ==> quote == Err::<BuyQuote, AmmError>(
                AmmError::InputTooLarge,
            )
            &&& 0 <= collateral.0 <= 1_000_000_000_000_000 && fee.0 <= 10_000 && b + collateral.0
                - due <= 1_000_000_000_000_000 && due == collateral.0 ==> quote == Err::<
                BuyQuote,
                AmmError,
            >(AmmError::AmountTooSmall)
            &&& 0 <= collateral.0 <= 1_000_000_000_000_000 && fee.0 <= 10_000 && b + collateral.0
                - due <= 1_000_000_000_000_000 && due < collateral.0 ==> quote is Ok
        }),
{
    if 0 <= collateral.0 <= MAX_AMOUNT && fee.0 <= 10_000 {
        money::lemma_fee_bounds(collateral.0 as int, fee.0 as int);
        assert(due == money::fee_due(collateral.0 as int, fee.0 as int));
        lemma_buy_bounds(pool.reserve(side), pool.opposite(side), collateral.0 - due);
    }
}

/// A sell follows the curve: the shares return to the pool, complete sets are
/// burned out of both reserves, as many as the product allows and not one more,
/// and the fee, the least that covers its rate, comes out of what they are worth.
pub proof fn law_sell_follows_the_curve(
    pool: Pool,
    side: Side,
    shares: MicroShares,
    fee: BasisPoints,
)
    requires
        pool.wf(),
    ensures
        sell_quote(pool, side, shares, fee) matches Ok(q) ==> ({
            let (a, b, a_after, b_after) = match side {
                Side::Yes => (pool.yes.0, pool.no.0, q.pool_after.yes.0, q.pool_after.no.0),
                Side::No => (pool.no.0, pool.yes.0, q.pool_after.no.0, q.pool_after.yes.0),
            };
            let burned = q.collateral_out.0 + q.fee.0;
            &&& burned > 0
            &&& burned * fee.0 <= 10_000 * q.fee.0 < burned * fee.0 + 10_000
            &&& a_after == a + shares.0 - burned
            &&& b_after == b - burned
            &&& a_after * b_after >= a * b
            &&& b_after > 1 ==> (a_after - 1) * (b_after - 1) < a * b
            &&& q.pool_after.fee == pool.fee
        }),
{
    if let Ok(q) = sell_quote(pool, side, shares, fee) {
        let a = pool.reserve(side);
        let b = pool.opposite(side);
        let s = shares.0 as int;
        lemma_max_burn_exists(a, b, s);
        let c = max_burn(a, b, s);
        money::lemma_fee_bounds(c, fee.0 as int);
        lemma_sell_facts(pool, side, shares, fee);
        law_sell_never_decreases_product(pool, side, shares, fee);
        if b - c > 1 {
            assert(!keeps_product(a, b, s, c + 1));
        }
    }
}

/// A sell is refused for its amount, where the shares overwhelm the opposite
/// reserve, where not one set can be burned, where the pool would grow past the
/// cap and for its rate, and for nothing else.
pub proof fn law_sells_are_refused_only_for(
    pool: Pool,
    side: Side,
    shares: MicroShares,
    fee: BasisPoints,
)
    requires
        pool.wf(),
    ensures
        ({
            let (a, b) = match side {
                Side::Yes => (pool.yes.0, pool.no.0),
                Side::No => (pool.no.0, pool.yes.0),
            };
            let s = shares.0;
            let quote = sell_quote(pool, side, shares, fee);
            let drains = 2 * (a * b) <= a + s - b;
            let burns = b > 1 && (a + s - 1) * (b - 1) >= a * b;
            &&& s <= 0 ==> quote == Err::<SellQuote, AmmError>(AmmError::AmountTooSmall)
            &&& s > 1_000_000_000_000_000 ==> quote == Err::<SellQuote, AmmError>(
                AmmError::InputTooLarge,
            )
            &&& 0 < s <= 1_000_000_000_000_000 ==> (quote == Err::<SellQuote, AmmError>(
                AmmError::DrainsPool,
            ) <==> drains)
            &&& 0 < s <= 1_000_000_000_000_000 && !drains ==> (quote == Err::<SellQuote, AmmError>(
                AmmError::AmountTooSmall,
            ) <==> !burns)
            &&& 0 < s <= 1_000_000_000_000_000 && !drains && burns && a + s
                <= 1_000_000_000_000_000 ==> (quote is Ok <==> fee.0 <= 10_000)
            &&& fee.0 > 10_000 ==> quote is Err
            &&& quote != Err::<SellQuote, AmmError>(AmmError::EmptyPool)
            &&& quote != Err::<SellQuote, AmmError>(AmmError::Overflow)
        }),
{
    let a = pool.reserve(side);
    let b = pool.opposite(side);
    let s = shares.0 as int;
    if 0 < s {
        lemma_max_burn_exists(a, b, s);
        let c = max_burn(a, b, s);
        lemma_drains(a, b, s);
        if b > 1 {
            if c == 0 {
                assert(!keeps_product(a, b, s, 1));
            } else {
                assert(keeps_product(a, b, s, c));
                assert((a + s - 1) * (b - 1) >= a * b) by (nonlinear_arith)
                    requires
                        (a + s - c) * (b - c) >= a * b,
                        1 <= c < b,
                        a > 0,
                        s > 0,
                        b > 0,
                ;
            }
        }
    }
}

/// The estimate reaches the opposite reserve exactly where the shares that come
/// in overwhelm it.
proof fn lemma_drains(a: int, b: int, s: int)
    requires
        0 < a,
        0 < b,
        0 < s,
    ensures
        burn_estimate(a, b, s) >= b <==> 2 * (a * b) <= a + s - b,
{
    let t = a + s + b;
    let disc = burn_discriminant(a, b, s);
    let gap = a + s - b;
    assert(disc == gap * gap + 4 * (a * b)) by (nonlinear_arith)
        requires
            t == a + s + b,
            disc == t * t - 4 * (s * b),
            gap == a + s - b,
    ;
    assert(a * b > 0) by (nonlinear_arith)
        requires
            0 < a,
            0 < b,
    ;
    assert(gap * gap >= 0) by (nonlinear_arith);
    lemma_floor_sqrt_exists(disc);
    let r = floor_sqrt(disc);
    assert(is_floor_sqrt(disc, r));
    if 2 * (a * b) <= gap {
        assert(gap * gap <= disc < (gap + 1) * (gap + 1)) by (nonlinear_arith)
            requires
                disc == gap * gap + 4 * (a * b),
                a * b > 0,
                2 * (a * b) <= gap,
        ;
        lemma_floor_sqrt_unique(disc, r, gap);
    } else {
        if gap >= 0 {
            assert(r >= gap + 1) by (nonlinear_arith)
                requires
                    disc < (r + 1) * (r + 1),
                    0 <= r,
                    disc >= gap * gap + 2 * gap + 1,
                    gap >= 0,
            ;
        }
        assert(r > gap);
    }
}

/// Every non-negative number has a floor square root.
proof fn lemma_floor_sqrt_exists(x: int)
    requires
        x >= 0,
    ensures
        is_floor_sqrt(x, floor_sqrt(x)),
    decreases x,
{
    if x == 0 {
        assert(is_floor_sqrt(0, 0));
    } else {
        lemma_floor_sqrt_exists(x - 1);
        let r = floor_sqrt(x - 1);
        if x < (r + 1) * (r + 1) {
            assert(is_floor_sqrt(x, r));
        } else {
            assert((r + 1) * (r + 1) < (r + 2) * (r + 2)) by (nonlinear_arith)
                requires
                    r >= 0,
            ;
            assert(is_floor_sqrt(x, r + 1));
        }
    }
}

} // verus!
