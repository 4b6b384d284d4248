//! Wall-clock time as whole seconds and nanoseconds since the Unix epoch,
//! read from and written as `chrono` writes it.

use chrono::{DateTime, Utc};
use vstd::prelude::*;

verus! {

/// The earliest second that a `chrono::DateTime<Utc>` can hold (January 1 of year -262143).
pub const MIN_UTC_SECS: i64 = -8_334_601_315_200;

/// The latest second that a `chrono::DateTime<Utc>` can hold (December 31 of year 262142).
pub const MAX_UTC_SECS: i64 = 8_210_266_876_799;

/// A point in time: `secs` seconds and `nanos` nanoseconds after 1970-01-01T00:00:00Z.
#[derive(Clone, Copy, Debug, PartialEq, Eq, Structural)]
pub struct UtcTime {
    pub secs: i64,
    pub nanos: u32,
}

impl UtcTime {
    /// The time can be held by a `chrono::DateTime<Utc>` and is no leap second.
    pub open spec fn representable(self) -> bool {
        MIN_UTC_SECS <= self.secs <= MAX_UTC_SECS && self.nanos < 1_000_000_000
    }

    /// `self` is not later than `other`.
    pub open spec fn not_after(self, other: UtcTime) -> bool {
        self.secs < other.secs || (self.secs == other.secs && self.nanos <= other.nanos)
    }

    /// Whether `self` is not later than `other`.
    pub fn is_not_after(&self, other: &UtcTime) -> (r: bool)
        ensures
            r == self.not_after(*other),
    {
        self.secs < other.secs || (self.secs == other.secs && self.nanos <= other.nanos)
    }

    /// The number of whole microseconds since the epoch (`timestamp_micros`).
    pub open spec fn micros(self) -> int {
        self.secs * 1_000_000 + self.nanos / 1000
    }

    /// `DateTime::timestamp_micros`: the microseconds since the epoch.
    pub fn timestamp_micros(&self) -> (m: i64)
        requires
            self.representable(),
        ensures
            m == self.micros(),
    {
        self.secs * 1_000_000 + (self.nanos / 1000) as i64
    }
}

/// `chrono::Utc::now()`, read as seconds and nanoseconds. `Utc::now` builds
/// the time from the system clock's distance to the epoch, so it is no earlier
/// than the epoch, is representable and is no leap second; which time it gives
/// is not stated. It panics where the system clock is set before the epoch.
#[verifier::external_body]
pub(crate) fn utc_now() -> (t: UtcTime)
    ensures
        t.representable(),
        t.secs >= 0,
{
    let now = Utc::now();
    UtcTime { secs: now.timestamp(), nanos: now.timestamp_subsec_nanos() }
}

/// The text that `DateTime::<Utc>::to_rfc3339` writes for the time `secs`, `nanos`.
pub uninterp spec fn rfc3339_text(secs: i64, nanos: u32) -> Seq<char>;

/// The second `secs` falls in a year from 0 to 9999 (from
/// 0000-01-01T00:00:00Z to 9999-12-31T23:59:59Z).
pub open spec fn in_four_digit_years(secs: i64) -> bool {
    -62_167_219_200 <= secs <= 253_402_300_799
}

/// `text` is the RFC 3339 form of some time that chrono can hold.
pub open spec fn is_rfc3339_stamp(text: Seq<char>) -> bool {
    exists|now: UtcTime| now.representable() && text == #[trigger] rfc3339_text(now.secs, now.nanos)
}

/// `DateTime::from_timestamp(secs, nanos)` followed by `to_rfc3339`. For a
/// representable time `from_timestamp` gives `Some` (its source returns
/// `None` only out of range or for a leap nanosecond off a minute's last second).
/// The text is never empty: `to_rfc3339` always writes the date, the time and
/// the offset. For a year from 0 to 9999 it writes the year as four digits,
/// which `DateTime::parse_from_rfc3339` reads back, giving the same second.
#[verifier::external_body]
pub(crate) fn to_rfc3339(t: UtcTime) -> (text: String)
    requires
        t.representable(),
    ensures
        text@ == rfc3339_text(t.secs, t.nanos),
        text@.len() > 0,
        in_four_digit_years(t.secs) ==> rfc3339_seconds(text@) == Some(t.secs),
{
    match DateTime::from_timestamp(t.secs, t.nanos) {
        Some(d) => d.to_rfc3339(),
        None => String::new(),
    }
}

/// The Unix second that `DateTime::parse_from_rfc3339` reads from `text`,
/// `None` where it rejects the text.
pub uninterp spec fn rfc3339_seconds(text: Seq<char>) -> Option<i64>;

/// `DateTime::parse_from_rfc3339(text)` followed by `timestamp()`, with the
/// parse error mapped to `None`.
#[verifier::external_body]
pub(crate) fn parse_rfc3339_seconds(text: &str) -> (secs: Option<i64>)
    ensures
        secs == rfc3339_seconds(text@),
{
    match DateTime::parse_from_rfc3339(text) {
        Ok(d) => Some(d.timestamp()),
        Err(_) => None,
    }
}

/// `t` moved `seconds` later, where `t + TimeDelta::seconds(seconds)` stays
/// in chrono's range; `None` where chrono would panic (`TimeDelta::seconds`
/// out of bounds, or `DateTime + TimeDelta` overflowed).
pub open spec fn plus_seconds_spec(t: UtcTime, seconds: i64) -> Option<UtcTime> {
    if seconds > i64::MAX / 1000 || seconds < -(i64::MAX / 1000) {
        None
    } else if t.secs + seconds < MIN_UTC_SECS || t.secs + seconds > MAX_UTC_SECS {
        None
    } else {
        Some(UtcTime { secs: (t.secs + seconds) as i64, nanos: t.nanos })
    }
}

/// `t` moved `seconds` later, or `None` where chrono's addition would panic.
pub fn plus_seconds(t: UtcTime, seconds: i64) -> (r: Option<UtcTime>)
    requires
        t.representable(),
    ensures
        r == plus_seconds_spec(t, seconds),
{
    if seconds > i64::MAX / 1000 || seconds < -(i64::MAX / 1000) {
        return None;
    }
    let sum = t.secs as i128 + seconds as i128;
    if sum < MIN_UTC_SECS as i128 || sum > MAX_UTC_SECS as i128 {
        return None;
    }
    Some(UtcTime { secs: sum as i64, nanos: t.nanos })
}

} // verus!
