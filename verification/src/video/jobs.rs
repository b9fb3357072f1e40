//! The arithmetic of leased jobs.

use crate::clock::{Timestamp, MAX_UNIX_SECS};
use vstd::arithmetic::power2::pow2;
use vstd::prelude::*;

verus! {

/// How many jobs a worker claims at once; few, so that leases stay honest under
/// load.
pub const CLAIM_BATCH: u32 = 8;

/// How many expired leases are taken back at once.
pub const RECLAIM_BATCH: u32 = 32;

/// How often the base of a backoff is doubled: once for each attempt, at most
/// eight times.
pub open spec fn doublings(attempts: u32) -> nat {
    if attempts < 8 {
        attempts as nat
    } else {
        8
    }
}

/// The seconds of a backoff before the calendar bounds them.
pub open spec fn backoff_secs(base_secs: u64, attempts: u32) -> int {
    base_secs * pow2(doublings(attempts))
}

/// The whole seconds left in the calendar after a time.
pub open spec fn headroom(now: Timestamp) -> int {
    MAX_UNIX_SECS - now.0 as int / 1_000_000_000
}

/// How long a job waits.
pub open spec fn backoff_wait(now: Timestamp, base_secs: u64, attempts: u32) -> int {
    if backoff_secs(base_secs, attempts) < headroom(now) {
        backoff_secs(base_secs, attempts)
    } else {
        headroom(now)
    }
}

/// When a failed job becomes available again:
/// `now + base * 2^min(attempts, 8)`, held at the end of the calendar.
#[must_use]
pub fn backoff_available_at(now: Timestamp, base_secs: u64, attempts: u32) -> (r: Timestamp)
    requires
        now.wf(),
    ensures
        r == now.later(backoff_wait(now, base_secs, attempts)),
        r.wf(),
        r.0 >= now.0,
{
    proof {
        vstd::arithmetic::power2::lemma2_to64();
    }
    let factor: u64 = match attempts {
        0 => 1,
        1 => 2,
        2 => 4,
        3 => 8,
        4 => 16,
        5 => 32,
        6 => 64,
        7 => 128,
        _ => 256,
    };
    assert(factor == pow2(doublings(attempts)));
    assert(base_secs * factor <= u64::MAX * 256) by (nonlinear_arith)
        requires
            base_secs <= u64::MAX,
            factor <= 256,
    ;
    let secs: u128 = base_secs as u128 * factor as u128;
    let shift: i128 = 400_000_000_000;
    let lifted: i128 = now.0 + shift * 1_000_000_000;
    let unix: i64 = (lifted / 1_000_000_000 - shift) as i64;
    assert(unix == now.0 as int / 1_000_000_000);
    let left: i64 = MAX_UNIX_SECS - unix;
    let wait: i64 = if secs < left as u128 {
        secs as i64
    } else {
        left
    };
    now.plus_secs(wait)
}

/// Whether a job has used its attempts up: `max_attempts` of one means exactly
/// one attempt, ever.
#[must_use]
pub fn is_terminal(attempts: u32, max_attempts: u32) -> (r: bool)
    ensures
        r == (attempts >= max_attempts),
{
    attempts >= max_attempts
}

/// A job that failed more often never waits less.
pub proof fn law_backoff_is_monotone(now: Timestamp, base_secs: u64, a: u32, b: u32)
    requires
        now.wf(),
        a <= b,
    ensures
        0 <= backoff_wait(now, base_secs, a) <= backoff_wait(now, base_secs, b),
{
    vstd::arithmetic::power2::lemma2_to64();
    let p = pow2(doublings(a)) as int;
    let q = pow2(doublings(b)) as int;
    if doublings(a) < doublings(b) {
        vstd::arithmetic::power2::lemma_pow2_strictly_increases(doublings(a), doublings(b));
    }
    assert(0 < p <= q);
    assert(0 <= base_secs * p <= base_secs * q) by (nonlinear_arith)
        requires
            0 <= base_secs,
            0 < p <= q,
    ;
}

/// The first failure waits the base, each further one twice as long, and from the
/// eighth doubling on 256 times the base, as long as the calendar has room.
pub proof fn law_each_failure_doubles_the_wait(now: Timestamp, base_secs: u64, attempts: u32)
    requires
        256 * base_secs + now.0 as int / 1_000_000_000 < 253_402_300_799,
    ensures
        backoff_wait(now, base_secs, 0) == base_secs,
        attempts < 8 ==> backoff_wait(now, base_secs, (attempts + 1) as u32) == 2 * backoff_wait(
            now,
            base_secs,
            attempts,
        ),
        attempts >= 8 ==> backoff_wait(now, base_secs, attempts) == 256 * base_secs,
{
    vstd::arithmetic::power2::lemma2_to64();
    let b = base_secs as int;
    assert(b * 1 == b && b * 2 == 2 * b && b * 4 == 4 * b && b * 8 == 8 * b && b * 16 == 16 * b && b
        * 32 == 32 * b && b * 64 == 64 * b && b * 128 == 128 * b && b * 256 == 256 * b);
}

/// No wait leaves the calendar: one that would ends with its last second.
pub proof fn law_waits_stay_within_the_calendar(now: Timestamp, base_secs: u64, attempts: u32)
    ensures
        backoff_wait(now, base_secs, attempts) + now.0 as int / 1_000_000_000 <= 253_402_300_799,
        base_secs + now.0 as int / 1_000_000_000 >= 253_402_300_799 ==> backoff_wait(
            now,
            base_secs,
            0,
        ) + now.0 as int / 1_000_000_000 == 253_402_300_799,
{
    vstd::arithmetic::power2::lemma2_to64();
    assert(base_secs * pow2(0) == base_secs);
}

} // verus!
