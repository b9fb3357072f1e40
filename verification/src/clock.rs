//! Points in time, to the nanosecond.

use vstd::prelude::*;

verus! {

/// The last second of the year 9999.
pub const MAX_UNIX_SECS: i64 = 253_402_300_799;

/// The first second of the year -9999.
pub const MIN_UNIX_SECS: i64 = -377_705_116_800;

/// Nanoseconds since the Unix epoch.
#[derive(Debug, Clone, Copy, PartialEq, Eq, PartialOrd, Ord, Hash, Structural)]
pub struct Timestamp(pub i128);

/// The nanoseconds of some whole seconds.
pub open spec fn nanos(secs: int) -> int {
    secs * 1_000_000_000
}

/// A number of nanoseconds that lies within the calendar.
pub open spec fn in_calendar(unix_nanos: int) -> bool {
    nanos(MIN_UNIX_SECS as int) <= unix_nanos < nanos(MAX_UNIX_SECS + 1)
}

impl Timestamp {
    /// The time lies within the years -9999 to 9999.
    pub open spec fn wf(self) -> bool {
        in_calendar(self.0 as int)
    }

    /// The time `secs` later still lies within the calendar.
    pub open spec fn has_room(self, secs: int) -> bool {
        in_calendar(self.0 + nanos(secs))
    }

    /// The time `secs` later.
    pub open spec fn later(self, secs: int) -> Timestamp {
        Timestamp((self.0 + nanos(secs)) as i128)
    }

    /// The time at a whole second.
    pub fn from_secs(secs: i64) -> (r: Timestamp)
        requires
            MIN_UNIX_SECS <= secs <= MAX_UNIX_SECS,
        ensures
            r.0 == nanos(secs as int),
            r.0 == 1_000_000_000 * secs,
            r.wf(),
    {
        Timestamp(secs as i128 * 1_000_000_000)
    }

    /// The time `secs` later.
    pub fn plus_secs(self, secs: i64) -> (r: Timestamp)
        requires
            self.wf(),
            self.has_room(secs as int),
        ensures
            r == self.later(secs as int),
            r.0 == self.0 + nanos(secs as int),
            r.0 == self.0 + 1_000_000_000 * secs,
            r.wf(),
    {
        Timestamp(self.0 + secs as i128 * 1_000_000_000)
    }

    /// Whether this time comes before another.
    pub fn before(self, other: Timestamp) -> (r: bool)
        ensures
            r == (self.0 < other.0),
    {
        self.0 < other.0
    }
}

/// The whole seconds of a span, rounded toward zero.
pub open spec fn whole_secs(span: int) -> int {
    if span >= 0 {
        span / 1_000_000_000
    } else {
        -((-span) / 1_000_000_000)
    }
}

/// The whole seconds from `start` to `end`, rounded toward zero.
pub fn secs_between(start: Timestamp, end: Timestamp) -> (r: i64)
    requires
        start.wf(),
        end.wf(),
    ensures
        r == whole_secs(end.0 - start.0),
{
    let span: i128 = end.0 - start.0;
    if span >= 0 {
        (span / 1_000_000_000) as i64
    } else {
        -((-span / 1_000_000_000) as i64)
    }
}

/// The start of the day, in coordinated universal time, that a time lies in.
pub open spec fn day_start_of(t: Timestamp) -> Timestamp {
    Timestamp((t.0 as int / nanos(86_400) * nanos(86_400)) as i128)
}

/// The start of the day, in coordinated universal time, that a time lies in.
pub fn day_start(t: Timestamp) -> (r: Timestamp)
    requires
        t.wf(),
    ensures
        r == day_start_of(t),
        r.wf(),
        r.0 <= t.0 < r.0 + nanos(86_400),
        r.0 <= t.0 < r.0 + 86_400_000_000_000,
        r.0 as int % 86_400_000_000_000 == 0,
{
    let day: i128 = 86_400_000_000_000;
    let shift: i128 = 10_000_000;
    let lifted: i128 = t.0 + shift * day;
    assert(lifted >= 0);
    let whole: i128 = lifted / day;
    assert(lifted as int / day as int == t.0 as int / day as int + shift) by (nonlinear_arith)
        requires
            lifted == t.0 + shift * day,
            day == 86_400_000_000_000,
    ;
    Timestamp((whole - shift) * day)
}

/// What `time` prints for a number of nanoseconds since the Unix epoch.
pub uninterp spec fn printed_time(unix_nanos: int) -> Seq<char>;

/// `time::OffsetDateTime::from_unix_timestamp_nanos` and the `Display` of its
/// result, which is in coordinated universal time: the text depends on the
/// nanoseconds alone. How the text is laid out is left unsaid.
#[verifier::external_body]
pub(crate) fn print_time(t: Timestamp) -> (r: String)
    requires
        t.wf(),
    ensures
        r@ == printed_time(t.0 as int),
{
    match time::OffsetDateTime::from_unix_timestamp_nanos(t.0) {
        Ok(at) => at.to_string(),
        Err(e) => e.to_string(),
    }
}

/// A span counts its whole seconds, and what is left of a second is dropped on
/// either side of zero.
pub proof fn law_spans_count_whole_seconds(secs: int, left: int)
    requires
        0 <= secs,
        0 <= left < 1_000_000_000,
    ensures
        whole_secs(1_000_000_000 * secs + left) == secs,
        whole_secs(-(1_000_000_000 * secs + left)) == -secs,
{
}

/// The calendar runs from the first second of the year -9999 to the end of the
/// year 9999.
pub proof fn law_where_the_calendar_ends(t: Timestamp, secs: int)
    ensures
        t.wf() <==> -377_705_116_800_000_000_000 <= t.0 && t.0 < 253_402_300_800_000_000_000,
        t.has_room(secs) <==> -377_705_116_800_000_000_000 <= t.0 + 1_000_000_000 * secs && t.0
            + 1_000_000_000 * secs < 253_402_300_800_000_000_000,
        t.has_room(secs) ==> t.later(secs).0 == t.0 + 1_000_000_000 * secs,
{
}

} // verus!
