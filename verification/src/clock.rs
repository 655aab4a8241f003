//! Instants: the current one, and the texts that stand for an instant.

use crate::text::{append_chars, decimal_of, is_stamp_text, string_of, zero_padded};
use vstd::prelude::*;

verus! {

/// The first second of the calendar that instants are written in.
pub const EARLIEST_SECOND: i64 = -8_334_601_228_800;

/// The last second of the calendar that instants are written in.
pub const LATEST_SECOND: i64 = 8_210_266_876_799;

/// A point in time: whole seconds since 1970-01-01T00:00:00Z, and the
/// nanoseconds that have passed since that second began.
#[derive(Debug, Clone, Copy, PartialEq, Eq, Structural)]
pub struct Instant {
    pub secs: i64,
    pub nanos: u32,
}

/// The text that `chrono` writes for the instant under a `strftime` pattern.
pub uninterp spec fn formatted_instant(secs: i64, nanos: u32, pattern: Seq<char>) -> Seq<char>;

/// The RFC 3339 text that `chrono` writes for the instant, in UTC.
pub uninterp spec fn rfc3339_instant(secs: i64, nanos: u32) -> Seq<char>;

/// The pattern of a calendar date, as in `2024-03-09`.
pub open spec fn date_pattern() -> Seq<char> {
    "%Y-%m-%d"@
}

/// The pattern of a time of day that is safe in file names, as in `17-05-59`.
pub open spec fn time_pattern() -> Seq<char> {
    "%H-%M-%S"@
}

impl Instant {
    /// Tells whether the calendar has a date and a time of day for the instant.
    pub open spec fn representable(self) -> bool {
        &&& EARLIEST_SECOND <= self.secs <= LATEST_SECOND
        &&& self.nanos < 1_000_000_000
    }

    /// Milliseconds since 1970-01-01T00:00:00Z, rounded down.
    pub open spec fn millis(self) -> int {
        self.secs * 1000 + self.nanos / 1_000_000
    }

    /// Tells whether the calendar has a date and a time of day for the instant.
    pub fn is_representable(&self) -> (yes: bool)
        ensures
            yes == self.representable(),
    {
        EARLIEST_SECOND <= self.secs && self.secs <= LATEST_SECOND && self.nanos < 1_000_000_000
    }

    /// Milliseconds since 1970-01-01T00:00:00Z, rounded down.
    pub fn timestamp_millis(&self) -> (millis: i64)
        requires
            self.representable(),
        ensures
            millis == self.millis(),
    {
        let fraction: i64 = (self.nanos / 1_000_000) as i64;
        self.secs * 1000 + fraction
    }

    /// The calendar date of the instant, as in `2024-03-09`.
    pub(crate) fn date_text(&self) -> (text: String)
        requires
            self.representable(),
        ensures
            text@ == formatted_instant(self.secs, self.nanos, date_pattern()),
            is_stamp_text(text@),
    {
        format_instant(*self, "%Y-%m-%d")
    }

    /// The time of day of the instant, as in `17-05-59`.
    pub(crate) fn time_text(&self) -> (text: String)
        requires
            self.representable(),
        ensures
            text@ == formatted_instant(self.secs, self.nanos, time_pattern()),
            is_stamp_text(text@),
    {
        format_instant(*self, "%H-%M-%S")
    }

    /// The instant in RFC 3339 notation, in UTC.
    pub(crate) fn rfc3339_text(&self) -> (text: String)
        requires
            self.representable(),
        ensures
            text@ == rfc3339_instant(self.secs, self.nanos),
    {
        rfc3339(*self)
    }
}

/// The seconds of the instant that lies `secs` seconds and `nanos`
/// nanoseconds behind 1970-01-01T00:00:00Z or, with `before_epoch`, before it:
/// the whole seconds that have passed at that instant, counted from 1970.
pub open spec fn offset_seconds(before_epoch: bool, secs: u64, nanos: u32) -> int {
    if !before_epoch {
        secs as int
    } else if nanos == 0 {
        -(secs as int)
    } else {
        -(secs as int) - 1
    }
}

/// The nanoseconds of the instant that lies `secs` seconds and `nanos`
/// nanoseconds behind 1970-01-01T00:00:00Z or, with `before_epoch`, before it:
/// those that have passed since its second began.
pub open spec fn offset_nanos(before_epoch: bool, nanos: u32) -> int {
    if !before_epoch || nanos == 0 {
        nanos as int
    } else {
        1_000_000_000 - nanos
    }
}

/// `true` when the calendar has a place for the instant at that offset.
pub open spec fn offset_representable(before_epoch: bool, secs: u64, nanos: u32) -> bool {
    &&& nanos < 1_000_000_000
    &&& EARLIEST_SECOND <= offset_seconds(before_epoch, secs, nanos) <= LATEST_SECOND
}

/// The instant that lies `secs` seconds and `nanos` nanoseconds behind
/// 1970-01-01T00:00:00Z or, with `before_epoch`, before it; `None` where the
/// calendar has no place for it.
pub fn instant_from_offset(before_epoch: bool, secs: u64, nanos: u32) -> (at: Option<Instant>)
    ensures
        match at {
            Some(instant) => {
                &&& offset_representable(before_epoch, secs, nanos)
                &&& instant.secs == offset_seconds(before_epoch, secs, nanos)
                &&& instant.nanos == offset_nanos(before_epoch, nanos)
                &&& instant.representable()
            },
            None => !offset_representable(before_epoch, secs, nanos),
        },
{
    if nanos >= 1_000_000_000 {
        None
    } else if !before_epoch {
        if secs <= 8_210_266_876_799 {
            Some(Instant { secs: secs as i64, nanos })
        } else {
            None
        }
    } else if nanos == 0 {
        if secs <= 8_334_601_228_800 {
            Some(Instant { secs: -(secs as i64), nanos: 0 })
        } else {
            None
        }
    } else {
        if secs <= 8_334_601_228_799 {
            Some(Instant { secs: -(secs as i64) - 1, nanos: 1_000_000_000 - nanos })
        } else {
            None
        }
    }
}

/// `chrono::Utc::now`, as seconds and nanoseconds. The outside function builds
/// its value with `DateTime::from_timestamp`, so that the calendar has a place
/// for it; the nanoseconds are those of a `Duration` and stay below one second.
#[verifier::external_body]
pub(crate) fn now() -> (at: Instant)
    ensures
        at.representable(),
{
    let reading = chrono::Utc::now();
    Instant { secs: reading.timestamp(), nanos: reading.timestamp_subsec_nanos() }
}

/// `chrono::DateTime::format` on the instant in UTC, written out. The result is
/// a function of the instant and the pattern; the two patterns admitted are
/// well-formed, so that writing does not fail. They ask for the year, the
/// month and the day, or for the hour, the minute and the second, with hyphens
/// between them: each is written in digits, the year with a sign where it has
/// not four of them.
#[verifier::external_body]
fn format_instant(at: Instant, pattern: &str) -> (text: String)
    requires
        at.representable(),
        pattern@ == date_pattern() || pattern@ == time_pattern(),
    ensures
        text@ == formatted_instant(at.secs, at.nanos, pattern@),
        is_stamp_text(text@),
{
    chrono::DateTime::from_timestamp(at.secs, at.nanos).unwrap().format(pattern).to_string()
}

/// `chrono::DateTime::to_rfc3339` on the instant in UTC. The result is a
/// function of the instant.
#[verifier::external_body]
fn rfc3339(at: Instant) -> (text: String)
    requires
        at.representable(),
    ensures
        text@ == rfc3339_instant(at.secs, at.nanos),
{
    chrono::DateTime::from_timestamp(at.secs, at.nanos).unwrap().to_rfc3339()
}

/// Five decimal digits taken from the nanoseconds of `at`: the number formed by
/// their last five digits, filled up with zeros.
pub open spec fn suffix_of(at: Instant) -> Seq<char> {
    zero_padded((at.nanos % 100_000) as nat, 5)
}

/// Five decimal digits taken from the nanoseconds of `at`.
pub fn suffix_at(at: Instant) -> (suffix: String)
    ensures
        suffix@ == suffix_of(at),
{
    let digits = decimal_of((at.nanos % 100_000) as u64);
    let mut padded: Vec<char> = Vec::new();
    let mut missing: usize = if digits.len() < 5 {
        5 - digits.len()
    } else {
        0
    };
    let ghost fill = missing;
    while missing > 0
        invariant
            missing <= fill,
            padded@ == Seq::new((fill - missing) as nat, |i: int| '0'),
        decreases missing,
    {
        padded.push('0');
        missing -= 1;
    }
    append_chars(&mut padded, &digits);
    string_of(&padded)
}

} // verus!
