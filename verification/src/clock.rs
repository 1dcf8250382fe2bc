//! The two clocks that a voice row is stamped with: the wall clock, which
//! says when someone joined, and the monotonic clock, which ages a row.

use std::time::Instant;

use vstd::prelude::*;

use crate::text::optional_text;

verus! {

/// 9999-12-31T23:59:59Z, in seconds since 1970-01-01T00:00:00Z.
pub const LAST_SECOND_OF_9999: i64 = 253_402_300_799;

/// A moment of the wall clock: whole seconds since 1970-01-01T00:00:00Z and
/// the nanoseconds past them.
#[derive(Debug, Clone, Copy, PartialEq, Eq, Structural)]
pub struct UtcTime {
    pub secs: i64,
    pub nanos: u32,
}

/// Both clocks, read at one moment. `mono` counts nanoseconds since the
/// start of the `Clock` that was read.
#[derive(Debug, Clone, Copy, PartialEq, Eq, Structural)]
pub struct Reading {
    pub utc: UtcTime,
    pub mono: i128,
}

impl Reading {
    /// What holds of every reading of a clock: it is not before the clock was
    /// started, not before 1970, and its nanoseconds are less than a second.
    pub open spec fn is_plausible(self) -> bool {
        &&& 0 <= self.mono
        &&& 0 <= self.utc.secs
        &&& self.utc.nanos < 1_000_000_000
    }
}

/// `std::time::Instant`, a moment of the monotonic clock.
#[verifier::external_type_specification]
#[verifier::external_body]
pub struct ExInstant(Instant);

/// Calls `std::time::Instant::now`. What it returns is the time: nothing is
/// claimed of it.
#[verifier::external_body]
fn instant_now() -> Instant {
    Instant::now()
}

/// Calls `std::time::Instant::elapsed` and counts the result in nanoseconds.
/// Claims only that the count is not negative: how much time has passed is
/// not a function of the arguments.
#[verifier::external_body]
fn nanos_since(start: &Instant) -> (n: i128)
    ensures
        0 <= n,
{
    start.elapsed().as_nanos() as i128
}

/// Calls `chrono::Utc::now`. Claims only what holds of every moment that it
/// returns: it is not before 1970, and its nanoseconds are less than a second.
#[verifier::external_body]
fn utc_now() -> (t: UtcTime)
    ensures
        0 <= t.secs,
        t.nanos < 1_000_000_000,
{
    let now = chrono::Utc::now();
    UtcTime { secs: now.timestamp(), nanos: now.timestamp_subsec_nanos() }
}

/// The RFC 3339 text of the moment `secs`, `nanos`, or `None` where `chrono`
/// has no such moment.
pub uninterp spec fn rfc3339_text(secs: i64, nanos: u32) -> Option<Seq<char>>;

/// Calls `chrono::DateTime::from_timestamp` and, on the moment that it gives,
/// `chrono::DateTime::to_rfc3339`. Claims that the text is a function of the
/// moment alone, and that every moment of the years 1970 to 9999 has one. How
/// it is spelled is left unsaid.
#[verifier::external_body]
fn chrono_rfc3339(secs: i64, nanos: u32) -> (r: Option<String>)
    ensures
        optional_text(r) == rfc3339_text(secs, nanos),
        0 <= secs <= LAST_SECOND_OF_9999 && nanos < 1_000_000_000 ==> r is Some,
{
    chrono::DateTime::from_timestamp(secs, nanos).map(|t| t.to_rfc3339())
}

impl UtcTime {
    /// The time by the wall clock.
    pub fn now() -> (r: UtcTime)
        ensures
            0 <= r.secs,
            r.nanos < 1_000_000_000,
    {
        utc_now()
    }

    /// This moment in RFC 3339, or `None` where it is outside the calendar.
    pub fn to_rfc3339(&self) -> (r: Option<String>)
        ensures
            optional_text(r) == rfc3339_text(self.secs, self.nanos),
            0 <= self.secs <= LAST_SECOND_OF_9999 && self.nanos < 1_000_000_000 ==> r is Some,
    {
        chrono_rfc3339(self.secs, self.nanos)
    }
}

/// A running clock.
pub struct Clock {
    epoch: Instant,
}

impl Clock {
    /// A clock whose monotonic count starts now.
    pub fn start() -> Clock {
        Clock { epoch: instant_now() }
    }

    /// Reads both clocks.
    pub fn read(&self) -> (r: Reading)
        ensures
            r.is_plausible(),
    {
        Reading { utc: utc_now(), mono: nanos_since(&self.epoch) }
    }
}

/// Has at least `ttl` passed from `since` to `now`?
pub fn has_aged(now: i128, since: i128, ttl: i128) -> (r: bool)
    requires
        0 < ttl,
    ensures
        r == (now - since >= ttl),
{
    match now.checked_sub(since) {
        Some(age) => age >= ttl,
        None => now > since,
    }
}

} // verus!
