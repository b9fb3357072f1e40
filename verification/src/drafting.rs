//! Content drafts: their shape, their floors and the slots they go live in.

use crate::money::{BasisPoints, MicroUsd};
use crate::unicode;
use vstd::prelude::*;

verus! {

/// Why a draft or a slot was refused.
#[derive(Debug, Clone, Copy, PartialEq, Eq, Structural)]
pub enum DraftingError {
    /// The daily slot count must be positive.
    InvalidSlots,
    /// The flash cadence must be positive.
    InvalidCadence,
    /// The slot's timestamp does not fit.
    TimestampOverflow,
    /// The question must not be empty.
    EmptyQuestion,
    /// The description must not be empty.
    EmptyDescription,
    /// The video script must not be empty.
    EmptyVideoScript,
    /// The slug must not be empty.
    EmptySlug,
    /// The seed must be positive.
    InvalidSeed,
    /// The fee must not exceed 10,000 basis points.
    InvalidFee,
    /// The minimum of votes must be positive.
    InvalidMinVotes,
    /// The hidden window must be shorter than a positive open window.
    InvalidWindow,
    /// The seed is below the tier floor.
    SeedBelowFloor,
    /// The minimum of votes is below the tier floor.
    VotesBelowFloor,
}

/// Who wrote a draft.
#[derive(Debug, Clone, Copy, PartialEq, Eq, Hash, Structural)]
pub enum DraftSource {
    Template,
    Llm,
}

/// Which schedule a draft is for.
#[derive(Debug, Clone, Copy, PartialEq, Eq, Hash, Structural)]
pub enum DraftTier {
    Daily,
    Flash,
}

/// Complete engine output; ordered plain values make generation replayable.
#[derive(Debug, Clone, PartialEq, Eq)]
pub struct DraftSpec {
    pub question: String,
    pub description: String,
    pub video_script: String,
    pub slug: String,
    pub tier: DraftTier,
    pub seed: MicroUsd,
    pub fee: BasisPoints,
    pub min_votes_to_resolve: i32,
    pub open_secs: u64,
    pub hidden_window_secs: u64,
}

/// The first fault in the shape of a draft, given which of its four texts are
/// blank.
pub open spec fn shape_fault(
    blank: (bool, bool, bool, bool),
    seed: int,
    fee: int,
    min_votes: int,
    open_secs: int,
    hidden_secs: int,
) -> Option<DraftingError> {
    if blank.0 {
        Some(DraftingError::EmptyQuestion)
    } else if blank.1 {
        Some(DraftingError::EmptyDescription)
    } else if blank.2 {
        Some(DraftingError::EmptyVideoScript)
    } else if blank.3 {
        Some(DraftingError::EmptySlug)
    } else if seed <= 0 {
        Some(DraftingError::InvalidSeed)
    } else if fee > 10_000 {
        Some(DraftingError::InvalidFee)
    } else if min_votes <= 0 {
        Some(DraftingError::InvalidMinVotes)
    } else if open_secs == 0 || hidden_secs >= open_secs {
        Some(DraftingError::InvalidWindow)
    } else {
        None
    }
}

/// `Ok`, or the fault.
pub open spec fn outcome(fault: Option<DraftingError>) -> Result<(), DraftingError> {
    match fault {
        Some(e) => Err(e),
        None => Ok(()),
    }
}

impl DraftSpec {
    /// The first fault in the shape of this draft.
    pub open spec fn fault(&self) -> Option<DraftingError> {
        shape_fault(
            (
                unicode::blank(self.question@),
                unicode::blank(self.description@),
                unicode::blank(self.video_script@),
                unicode::blank(self.slug@),
            ),
            self.seed.0 as int,
            self.fee.0 as int,
            self.min_votes_to_resolve as int,
            self.open_secs as int,
            self.hidden_window_secs as int,
        )
    }

    /// The first fault in shape or floors.
    pub open spec fn floor_fault(
        &self,
        seed_floor_micro: int,
        min_votes_floor: int,
    ) -> Option<DraftingError> {
        match self.fault() {
            Some(e) => Some(e),
            None => if self.seed.0 < seed_floor_micro {
                Some(DraftingError::SeedBelowFloor)
            } else if self.min_votes_to_resolve < min_votes_floor {
                Some(DraftingError::VotesBelowFloor)
            } else {
                None
            },
        }
    }

    /// Validates everything but the texts, given which of them are blank.
    ///
    /// # Errors
    ///
    /// The first blank text or numeric fault.
    pub fn validate_shape(&self, blank: (bool, bool, bool, bool)) -> (r: Result<(), DraftingError>)
        ensures
            r == outcome(
                shape_fault(
                    blank,
                    self.seed.0 as int,
                    self.fee.0 as int,
                    self.min_votes_to_resolve as int,
                    self.open_secs as int,
                    self.hidden_window_secs as int,
                ),
            ),
    {
        if blank.0 {
            return Err(DraftingError::EmptyQuestion);
        }
        if blank.1 {
            return Err(DraftingError::EmptyDescription);
        }
        if blank.2 {
            return Err(DraftingError::EmptyVideoScript);
        }
        if blank.3 {
            return Err(DraftingError::EmptySlug);
        }
        if self.seed.0 <= 0 {
            return Err(DraftingError::InvalidSeed);
        }
        if self.fee.0 > 10_000 {
            return Err(DraftingError::InvalidFee);
        }
        if self.min_votes_to_resolve <= 0 {
            return Err(DraftingError::InvalidMinVotes);
        }
        if self.open_secs == 0 || self.hidden_window_secs >= self.open_secs {
            return Err(DraftingError::InvalidWindow);
        }
        Ok(())
    }

    /// Validates the generator-independent shape of a draft.
    ///
    /// # Errors
    ///
    /// The first invalid required field or numeric invariant.
    pub fn validate(&self) -> (r: Result<(), DraftingError>)
        ensures
            r == outcome(self.fault()),
    {
        self.validate_shape(
            (
                unicode::is_blank(self.question.as_str()),
                unicode::is_blank(self.description.as_str()),
                unicode::is_blank(self.video_script.as_str()),
                unicode::is_blank(self.slug.as_str()),
            ),
        )
    }

    /// Revalidates the capital and participation floors selected for a tier.
    ///
    /// # Errors
    ///
    /// A shape error or the first tier floor the draft violates.
    pub fn validate_floors(&self, seed_floor_micro: i64, min_votes_floor: i32) -> (r: Result<
        (),
        DraftingError,
    >)
        ensures
            r == outcome(self.floor_fault(seed_floor_micro as int, min_votes_floor as int)),
    {
        match self.validate() {
            Ok(()) => {},
            Err(e) => return Err(e),
        }
        if self.seed.0 < seed_floor_micro {
            return Err(DraftingError::SeedBelowFloor);
        }
        if self.min_votes_to_resolve < min_votes_floor {
            return Err(DraftingError::VotesBelowFloor);
        }
        Ok(())
    }
}

/// The length of every daily interval but the last.
pub open spec fn daily_interval(slots: int) -> int {
    86_400int / slots
}

/// `t` starts one of the `slots` intervals of its UTC day.
pub open spec fn is_daily_slot(t: int, slots: int) -> bool {
    t % 86_400 % daily_interval(slots) == 0 && t % 86_400 / daily_interval(slots) < slots
}

/// The next slot start of the day after `now`, or the next midnight.
pub open spec fn daily_slot_after(now: int, slots: int) -> int {
    let index = now % 86_400 / daily_interval(slots) + 1;
    if index < slots {
        now / 86_400 * 86_400 + index * daily_interval(slots)
    } else {
        (now / 86_400 + 1) * 86_400
    }
}

/// The next multiple of the cadence after `now`.
pub open spec fn flash_slot_after(now: int, cadence: int) -> int {
    (now / cadence + 1) * cadence
}

/// `t`, where it fits a timestamp.
pub open spec fn timestamp(t: int) -> Result<i64, DraftingError> {
    if i64::MIN <= t <= i64::MAX {
        Ok(t as i64)
    } else {
        Err(DraftingError::TimestampOverflow)
    }
}

/// The next daily slot is a slot, it lies strictly after now, and no slot lies
/// between now and it.
pub proof fn law_next_daily_slot_is_next(now: int, slots: int)
    requires
        1 <= slots <= 65_535,
    ensures
        now < daily_slot_after(now, slots) <= now + 86_400,
        is_daily_slot(daily_slot_after(now, slots), slots),
        forall|t: int|
            now < t < daily_slot_after(now, slots) ==> !#[trigger] is_daily_slot(t, slots),
{
    let width = daily_interval(slots);
    assert(1 <= width <= 86_400 && width * slots <= 86_400) by (nonlinear_arith)
        requires
            1 <= slots <= 65_535,
            width == 86_400int / slots,
    ;
    let day = now / 86_400;
    let second = now % 86_400;
    let index = second / width + 1;
    assert((index - 1) * width <= second < index * width && index >= 1) by (nonlinear_arith)
        requires
            0 <= second,
            1 <= width,
            index == second / width + 1,
    ;
    let next = daily_slot_after(now, slots);
    if index < slots {
        assert((index + 1) * width <= slots * width) by (nonlinear_arith)
            requires
                index + 1 <= slots,
                1 <= width,
        ;
        assert((index + 1) * width == index * width + width && slots * width == width * slots)
            by (nonlinear_arith);
        assert(next % 86_400 == index * width) by (nonlinear_arith)
            requires
                next == day * 86_400 + index * width,
                0 <= index * width < 86_400,
        ;
        assert((index * width) % width == 0 && (index * width) / width == index)
            by (nonlinear_arith)
            requires
                1 <= width,
        ;
    } else {
        assert(next % 86_400 == 0);
        assert(0int % width == 0 && 0int / width == 0) by (nonlinear_arith)
            requires
                1 <= width,
        ;
    }
    assert forall|t: int| now < t < next implies !#[trigger] is_daily_slot(t, slots) by {
        let ts = t % 86_400;
        if t / 86_400 == day {
            assert(second < ts);
            let q = ts / width;
            if ts % width == 0 && q < slots {
                assert(ts == q * width) by (nonlinear_arith)
                    requires
                        1 <= width,
                        q == ts / width,
                        ts % width == 0,
                ;
                assert(q >= index) by (nonlinear_arith)
                    requires
                        (index - 1) * width <= second,
                        second < q * width,
                        second < index * width,
                        q * width > (index - 1) * width,
                        1 <= width,
                ;
                assert(q * width >= index * width) by (nonlinear_arith)
                    requires
                        q >= index,
                        1 <= width,
                ;
            }
        }
    }
}

/// The next flash slot is a multiple of the cadence, strictly after now and
/// at most one cadence away.
pub proof fn law_next_flash_slot_is_next(now: int, cadence: int)
    requires
        1 <= cadence,
    ensures
        now < flash_slot_after(now, cadence) <= now + cadence,
        flash_slot_after(now, cadence) % cadence == 0,
{
    let q = now / cadence;
    assert(q * cadence <= now < (q + 1) * cadence && (q + 1) * cadence == q * cadence + cadence)
        by (nonlinear_arith)
        requires
            1 <= cadence,
            q == now / cadence,
    ;
    assert(((q + 1) * cadence) % cadence == 0) by (nonlinear_arith)
        requires
            1 <= cadence,
    ;
}

/// Floor quotient and remainder, also for a negative `n`.
fn floor_div(n: i128, d: i128) -> (r: (i128, i128))
    requires
        1 <= d <= u64::MAX,
        i64::MIN <= n <= i64::MAX,
    ensures
        r.0 == n as int / (d as int),
        r.1 == n as int % (d as int),
        -9_223_372_036_854_775_808 <= r.0 <= 9_223_372_036_854_775_807,
{
    if n >= 0 {
        assert(0 <= n as int / (d as int) <= n) by (nonlinear_arith)
            requires
                0 <= n,
                1 <= d,
        ;
        (n / d, n % d)
    } else {
        let up: i128 = -n;
        let q: i128 = (up + (d - 1)) / d;
        proof {
            let m = up as int;
            let e = d as int;
            let k = q as int;
            assert(0 <= k <= m && m <= k * e < m + e) by (nonlinear_arith)
                requires
                    1 <= m,
                    1 <= e,
                    k == (m + (e - 1)) / e,
            ;
            let rem = k * e - m;
            assert(n as int == (-k) * e + rem) by (nonlinear_arith)
                requires
                    n == -m,
                    rem == k * e - m,
            ;
            vstd::arithmetic::div_mod::lemma_fundamental_div_mod_converse(
                n as int,
                e,
                -k,
                rem,
            );
        }
        (-q, q * d - up)
    }
}

/// Returns the next daily-tier UTC boundary strictly after `unix_seconds`.
/// Each UTC day has `slots` starts: midnight plus `i * floor(86400/slots)`
/// for `i = 0..slots`; the remainder is absorbed by the final interval.
///
/// # Errors
///
/// [`DraftingError::InvalidSlots`] for zero slots or
/// [`DraftingError::TimestampOverflow`] when the next boundary exceeds `i64`.
pub fn next_daily_slot(unix_seconds: i64, slots: u16) -> (r: Result<i64, DraftingError>)
    ensures
        r == (if slots == 0 {
            Err::<i64, DraftingError>(DraftingError::InvalidSlots)
        } else {
            timestamp(daily_slot_after(unix_seconds as int, slots as int))
        }),
        slots > 0 && unix_seconds <= i64::MAX - 86_400 ==> (r matches Ok(t) && unix_seconds < t
            <= unix_seconds + 86_400),
        r == Err::<i64, DraftingError>(DraftingError::InvalidSlots) <==> slots == 0,
{
    if slots == 0 {
        return Err(DraftingError::InvalidSlots);
    }
    let (day, second): (i128, i128) = floor_div(unix_seconds as i128, 86_400);
    let interval: i128 = 86_400 / slots as i128;
    proof {
        law_next_daily_slot_is_next(unix_seconds as int, slots as int);
        assert(1 <= interval <= 86_400) by (nonlinear_arith)
            requires
                1 <= slots <= 65_535,
                interval == 86_400int / (slots as int),
        ;
        assert(0 <= second as int / (interval as int) <= 86_400) by (nonlinear_arith)
            requires
                0 <= second < 86_400,
                1 <= interval,
        ;
    }
    let next_index: i128 = second / interval + 1;
    let next: i128 = if next_index < slots as i128 {
        proof {
            assert(0 <= next_index * interval <= 86_401 * 86_400) by (nonlinear_arith)
                requires
                    0 <= next_index <= 86_401,
                    1 <= interval <= 86_400,
            ;
        }
        day * 86_400 + next_index * interval
    } else {
        (day + 1) * 86_400
    };
    if next > i64::MAX as i128 {
        return Err(DraftingError::TimestampOverflow);
    }
    Ok(next as i64)
}

/// Returns the next cadence boundary strictly after `unix_seconds`.
///
/// # Errors
///
/// [`DraftingError::InvalidCadence`] for a zero cadence or
/// [`DraftingError::TimestampOverflow`] when the next boundary exceeds `i64`.
pub fn next_flash_slot(unix_seconds: i64, cadence_secs: u64) -> (r: Result<i64, DraftingError>)
    ensures
        r == (if cadence_secs == 0 {
            Err::<i64, DraftingError>(DraftingError::InvalidCadence)
        } else {
            timestamp(flash_slot_after(unix_seconds as int, cadence_secs as int))
        }),
        cadence_secs > 0 && unix_seconds + cadence_secs <= i64::MAX ==> (r matches Ok(t)
            && unix_seconds < t <= unix_seconds + cadence_secs && t as int % (cadence_secs as int)
            == 0),
        r == Err::<i64, DraftingError>(DraftingError::InvalidCadence) <==> cadence_secs == 0,
{
    if cadence_secs == 0 {
        return Err(DraftingError::InvalidCadence);
    }
    let cadence: i128 = cadence_secs as i128;
    let (quotient, _): (i128, i128) = floor_div(unix_seconds as i128, cadence);
    proof {
        law_next_flash_slot_is_next(unix_seconds as int, cadence as int);
    }
    let next: i128 = (quotient + 1) * cadence;
    if next > i64::MAX as i128 {
        return Err(DraftingError::TimestampOverflow);
    }
    Ok(next as i64)
}

/// A draft has a valid shape exactly where each of its texts says something, its
/// seed, votes and open window are positive, its fee is at most the whole, and
/// its tally is hidden for less than it is open. The first fault is the one that
/// is named.
pub proof fn law_what_a_draft_needs(d: DraftSpec)
    ensures
        d.fault() is None <==> !unicode::blank(d.question@) && !unicode::blank(d.description@)
            && !unicode::blank(d.video_script@) && !unicode::blank(d.slug@) && d.seed.0 > 0
            && d.fee.0 <= 10_000 && d.min_votes_to_resolve > 0 && d.hidden_window_secs
            < d.open_secs,
        d.fault() == Some(DraftingError::EmptyQuestion) <==> unicode::blank(d.question@),
        d.fault() == Some(DraftingError::EmptyDescription) ==> unicode::blank(d.description@)
            && !unicode::blank(d.question@),
        d.fault() == Some(DraftingError::EmptyVideoScript) ==> unicode::blank(d.video_script@)
            && !unicode::blank(d.description@),
        d.fault() == Some(DraftingError::EmptySlug) ==> unicode::blank(d.slug@) && !unicode::blank(
            d.video_script@,
        ),
        d.fault() == Some(DraftingError::InvalidSeed) ==> d.seed.0 <= 0 && !unicode::blank(d.slug@),
        d.fault() == Some(DraftingError::InvalidFee) ==> d.fee.0 > 10_000 && d.seed.0 > 0,
        d.fault() == Some(DraftingError::InvalidMinVotes) ==> d.min_votes_to_resolve <= 0 && d.fee.0
            <= 10_000,
        d.fault() == Some(DraftingError::InvalidWindow) ==> d.hidden_window_secs >= d.open_secs
            && d.min_votes_to_resolve > 0,
{
}

/// A draft of valid shape passes its tier's floors exactly where it reaches both
/// of them; the seed is looked at first.
pub proof fn law_what_the_floors_ask(d: DraftSpec, seed_floor_micro: int, min_votes_floor: int)
    requires
        d.fault() is None,
    ensures
        d.floor_fault(seed_floor_micro, min_votes_floor) is None <==> d.seed.0 >= seed_floor_micro
            && d.min_votes_to_resolve >= min_votes_floor,
        d.floor_fault(seed_floor_micro, min_votes_floor) == Some(DraftingError::SeedBelowFloor)
            <==> d.seed.0 < seed_floor_micro,
        d.floor_fault(seed_floor_micro, min_votes_floor) == Some(DraftingError::VotesBelowFloor)
            <==> d.seed.0 >= seed_floor_micro && d.min_votes_to_resolve < min_votes_floor,
{
}

/// The slots of a UTC day start at midnight and then every `width` seconds, the
/// whole seconds that fit into the day `slots` times; the last interval takes
/// what is left of the day.
pub proof fn law_daily_slots_start_at_multiples(
    day: int,
    slot: int,
    offset: int,
    slots: int,
    width: int,
)
    requires
        1 <= slots <= 65_535,
        width * slots <= 86_400 < (width + 1) * slots,
        0 <= slot < slots,
        0 <= offset,
        slot * width + offset < 86_400,
        slot < slots - 1 ==> offset < width,
    ensures
        slot < slots - 1 ==> daily_slot_after(86_400 * day + slot * width + offset, slots) == 86_400
            * day + (slot + 1) * width,
        slot == slots - 1 ==> daily_slot_after(86_400 * day + slot * width + offset, slots)
            == 86_400 * day + 86_400,
{
    let now = 86_400 * day + slot * width + offset;
    let second = slot * width + offset;
    assert(width >= 1 && width == 86_400int / slots) by (nonlinear_arith)
        requires
            1 <= slots <= 65_535,
            width * slots <= 86_400 < (width + 1) * slots,
    ;
    assert(slot * width >= 0) by (nonlinear_arith)
        requires
            slot >= 0,
            width >= 1,
    ;
    assert(now / 86_400 == day && now % 86_400 == second);
    let q = second / width;
    assert(q >= slot && (offset < width ==> q == slot)) by (nonlinear_arith)
        requires
            q == second / width,
            second == slot * width + offset,
            0 <= offset,
            0 <= slot,
            1 <= width,
    ;
}

} // verus!
