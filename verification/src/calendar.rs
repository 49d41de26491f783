//! Instants in UTC, and how they are written out for a reader.

use vstd::prelude::*;
use crate::event::text_of;
use crate::text::{strip_leading_zeros, without_leading_zeros};

verus! {

/// An instant in UTC: whole seconds since 1970-01-01 00:00:00, and the
/// nanoseconds since that whole second. Instants are ordered by the seconds
/// first and by the nanoseconds second.
#[derive(Clone, Copy, Debug, PartialEq, Eq, Structural)]
pub struct Timestamp {
    pub secs: i64,
    pub nanos: u32,
}

impl Timestamp {
    /// Whether this instant is `other` or lies before it.
    pub open spec fn not_after(self, other: Timestamp) -> bool {
        self.secs < other.secs || (self.secs == other.secs && self.nanos <= other.nanos)
    }

    /// Whether this instant lies after `other`.
    pub fn is_after(&self, other: &Timestamp) -> (later: bool)
        ensures
            later == !self.not_after(*other),
    {
        self.secs > other.secs || (self.secs == other.secs && self.nanos > other.nanos)
    }
}

/// What chrono writes for the instant `secs` seconds and `nanos` nanoseconds
/// after 1970-01-01 00:00:00 UTC under the `strftime` pattern `pattern`, in
/// UTC; nothing where chrono has no date for the instant or `pattern` is no
/// pattern.
pub uninterp spec fn utc_text(secs: int, nanos: int, pattern: Seq<char>) -> Option<Seq<char>>;

/// Calls chrono's `DateTime::from_timestamp` and `DateTime::format`, and
/// writes the result out with `DelayedFormat::write_to`. Taken on trust: what
/// comes back depends on the instant and the pattern alone (the zone is UTC,
/// the names of days and months are chrono's English ones), and nothing comes
/// back where `from_timestamp` gives no date or where writing out fails.
#[verifier::external_body]
fn format_utc(instant: Timestamp, pattern: &str) -> (text: Option<String>)
    ensures
        text_of(text) == utc_text(instant.secs as int, instant.nanos as int, pattern@),
{
    let moment = chrono::DateTime::from_timestamp(instant.secs, instant.nanos)?;
    let mut text = String::new();
    match moment.format(pattern).write_to(&mut text) {
        Ok(()) => Some(text),
        Err(_) => None,
    }
}

/// The pattern of a day: the day of the week, the month, the day of the
/// month in two digits, and the year.
pub open spec fn day_pattern() -> Seq<char> {
    "%A, %B %d, %Y"@
}

/// The pattern of a time of day: the hour of a twelve-hour clock and the
/// minute, in two digits each, and the half of the day.
pub open spec fn clock_pattern() -> Seq<char> {
    "%I:%M %p"@
}

/// The day of `instant` as it is shown, where the instant has one.
pub open spec fn day_text(instant: Timestamp) -> Option<Seq<char>> {
    utc_text(instant.secs as int, instant.nanos as int, day_pattern())
}

/// The time of day of `instant` as it is shown, where the instant has one:
/// the hour without a zero in front.
pub open spec fn clock_text(instant: Timestamp) -> Option<Seq<char>> {
    match utc_text(instant.secs as int, instant.nanos as int, clock_pattern()) {
        Some(text) => Some(without_leading_zeros(text)),
        None => None,
    }
}

/// Writes out the day of `instant`.
pub fn format_day(instant: Timestamp) -> (text: Option<String>)
    ensures
        text_of(text) == day_text(instant),
{
    format_utc(instant, "%A, %B %d, %Y")
}

/// Writes out the time of day of `instant`.
pub fn format_clock(instant: Timestamp) -> (text: Option<String>)
    ensures
        text_of(text) == clock_text(instant),
{
    match format_utc(instant, "%I:%M %p") {
        Some(text) => Some(strip_leading_zeros(text.as_str())),
        None => None,
    }
}

} // verus!
