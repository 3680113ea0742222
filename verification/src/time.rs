//! Instants and spans of time as plain integers.

use vstd::prelude::*;

verus! {

/// Nanoseconds in a second.
pub const NANOS_PER_SEC: u64 = 1_000_000_000;

/// Nanoseconds in a millisecond.
pub const NANOS_PER_MILLI: u64 = 1_000_000;

/// A span of time in nanoseconds.
#[derive(Clone, Copy, Debug, PartialEq, Eq, Structural)]
pub struct Duration {
    /// The length of the span.
    pub nanos: u128,
}

/// An instant: nanoseconds since the Unix epoch.
#[derive(Clone, Copy, Debug, PartialEq, Eq, Structural)]
pub struct Timestamp {
    /// Nanoseconds since 1970-01-01T00:00:00Z; negative before it.
    pub nanos: i128,
}

impl Duration {
    /// The empty span.
    pub fn zero() -> (r: Duration)
        ensures
            r.nanos == 0,
    {
        Duration { nanos: 0 }
    }

    /// A span of `secs` seconds.
    pub fn from_secs(secs: u64) -> (r: Duration)
        ensures
            r.nanos == secs * 1_000_000_000,
    {
        Duration { nanos: (secs as u128) * 1_000_000_000 }
    }

    /// A span of `millis` milliseconds.
    pub fn from_millis(millis: u64) -> (r: Duration)
        ensures
            r.nanos == millis * 1_000_000,
    {
        Duration { nanos: (millis as u128) * 1_000_000 }
    }

    /// Whether the span is empty.
    pub fn is_zero(&self) -> (r: bool)
        ensures
            r == (self.nanos == 0),
    {
        self.nanos == 0
    }
}

impl Timestamp {
    /// The Unix epoch.
    pub fn epoch() -> (r: Timestamp)
        ensures
            r.nanos == 0,
    {
        Timestamp { nanos: 0 }
    }

    /// The instant `nanos` nanoseconds after second `secs` of the Unix epoch.
    pub fn from_parts(secs: i64, nanos: u32) -> (r: Timestamp)
        ensures
            r.nanos == secs * 1_000_000_000 + nanos,
    {
        Timestamp { nanos: (secs as i128) * 1_000_000_000 + (nanos as i128) }
    }

    /// The current time of the system clock.
    pub fn now() -> (r: Timestamp)
        ensures
            r.in_calendar(),
    {
        let (secs, nanos) = utc_now();
        Timestamp::from_parts(secs, nanos)
    }

    /// The instant `span` later, or the last instant there is.
    pub open spec fn later(self, span: Duration) -> Timestamp {
        if self.nanos + span.nanos <= i128::MAX {
            Timestamp { nanos: (self.nanos + span.nanos) as i128 }
        } else {
            Timestamp { nanos: i128::MAX }
        }
    }

    /// The instant `span` later, or the last instant there is.
    pub fn after(self, span: Duration) -> (r: Timestamp)
        ensures
            r == self.later(span),
    {
        match self.nanos.checked_add_unsigned(span.nanos) {
            Some(nanos) => Timestamp { nanos },
            None => Timestamp { nanos: i128::MAX },
        }
    }

    /// The whole seconds and the rest in nanoseconds; `None` where the seconds
    /// are more than an `i64` holds.
    pub open spec fn parts(self) -> Option<(i64, u32)> {
        let secs: int = self.nanos as int / 1_000_000_000;
        if i64::MIN <= secs <= i64::MAX {
            Some((secs as i64, (self.nanos as int % 1_000_000_000) as u32))
        } else {
            None
        }
    }

    /// The whole seconds and the rest in nanoseconds; `None` where the seconds
    /// are more than an `i64` holds.
    pub fn to_parts(self) -> (r: Option<(i64, u32)>)
        ensures
            r == self.parts(),
    {
        let secs: i128 = match self.nanos.checked_div_euclid(1_000_000_000) {
            Some(secs) => secs,
            None => 0,
        };
        let rest: i128 = match self.nanos.checked_rem_euclid(1_000_000_000) {
            Some(rest) => rest,
            None => 0,
        };
        if secs >= -9_223_372_036_854_775_808 && secs <= 9_223_372_036_854_775_807 {
            Some((secs as i64, rest as u32))
        } else {
            None
        }
    }

    /// The RFC 3339 form of this instant, where it has one.
    pub open spec fn rfc3339(self) -> Option<Seq<char>> {
        match self.parts() {
            Some((secs, nanos)) => rfc3339_of(secs, nanos),
            None => None,
        }
    }

    /// The RFC 3339 form of this instant; `None` where the calendar does not
    /// reach that far.
    pub fn to_rfc3339(self) -> (r: Option<String>)
        ensures
            crate::text::opt_text(r) == self.rfc3339(),
            r is Some == self.in_calendar(),
            self.writable() ==> r is Some && Timestamp::of_text(r->0@) == Some(self),
    {
        match self.to_parts() {
            Some((secs, nanos)) => rfc3339_text(secs, nanos),
            None => None,
        }
    }

    /// Whether this instant is in the calendar, so that it has an RFC 3339 form.
    pub open spec fn in_calendar(self) -> bool {
        match self.parts() {
            Some((secs, _)) => in_calendar(secs),
            None => false,
        }
    }

    /// Whether this instant is in a year of four digits.
    pub open spec fn writable(self) -> bool {
        match self.parts() {
            Some((secs, _)) => four_digit_year(secs),
            None => false,
        }
    }

    /// The instant that a date and time in text stands for.
    pub open spec fn of_text(s: Seq<char>) -> Option<Timestamp> {
        match instant_read(s) {
            Some((secs, nanos)) => Some(
                Timestamp { nanos: (secs * 1_000_000_000 + nanos) as i128 },
            ),
            None => None,
        }
    }

    /// The instant that a date and time in text stands for.
    pub fn from_text(s: &str) -> (r: Option<Timestamp>)
        ensures
            r == Timestamp::of_text(s@),
    {
        match read_instant(s) {
            Some((secs, nanos)) => Some(Timestamp::from_parts(secs, nanos)),
            None => None,
        }
    }
}

/// The current time: `chrono::Utc::now`, as the seconds and the nanoseconds of
/// the second that `timestamp` and `timestamp_subsec_nanos` give. The time is one of
/// the calendar of `chrono`, and of no leap second; which one it is is not stated.
#[verifier::external_body]
fn utc_now() -> (r: (i64, u32))
    ensures
        in_calendar(r.0),
        r.1 < 1_000_000_000,
{
    let now = chrono::Utc::now();
    (now.timestamp(), now.timestamp_subsec_nanos())
}

/// The RFC 3339 form of an instant, as [`rfc3339_text`] gives it.
pub uninterp spec fn rfc3339_of(secs: i64, nanos: u32) -> Option<Seq<char>>;

/// Whether second `secs` is in the calendar of `chrono`: in one of the years -262143 to
/// 262142.
pub open spec fn in_calendar(secs: i64) -> bool {
    -8_334_601_228_800 <= secs <= 8_210_266_876_799
}

/// Whether second `secs` is in a year of four digits: 0 to 9999.
pub open spec fn four_digit_year(secs: i64) -> bool {
    -62_167_219_200 <= secs <= 253_402_300_799
}

/// The instant that a text written by [`rfc3339_text`], or one much like it, stands for,
/// as [`read_instant`] returns it.
pub uninterp spec fn instant_read(s: Seq<char>) -> Option<(i64, u32)>;

/// The instant that a date and time in text stands for: `FromStr` of
/// `chrono::DateTime<chrono::FixedOffset>`, as the seconds since the Unix epoch and the
/// nanoseconds of the second that `timestamp` and `timestamp_subsec_nanos` give; `None`
/// for any other text. The result is a function of the text; the grammar is not stated
/// here.
#[verifier::external_body]
fn read_instant(s: &str) -> (r: Option<(i64, u32)>)
    ensures
        r == instant_read(s@),
{
    s.parse::<chrono::DateTime<chrono::FixedOffset>>()
        .ok()
        .map(|t| (t.timestamp(), t.timestamp_subsec_nanos()))
}

/// The RFC 3339 form in UTC of the instant `nanos` nanoseconds after second
/// `secs`: `chrono::DateTime::from_timestamp`, which gives `None` for an instant
/// outside its calendar, then `to_rfc3339_opts` with as many fraction digits as
/// needed and a closing `Z`. The text is a function of the instant and, in a year of four
/// digits, read as that instant. How else it reads is not stated.
#[verifier::external_body]
fn rfc3339_text(secs: i64, nanos: u32) -> (r: Option<String>)
    requires
        nanos < 1_000_000_000,
    ensures
        crate::text::opt_text(r) == rfc3339_of(secs, nanos),
        r is Some == in_calendar(secs),
        four_digit_year(secs) ==> instant_read(r->0@) == Some((secs, nanos)),
{
    chrono::DateTime::from_timestamp(secs, nanos)
        .map(|t| t.to_rfc3339_opts(chrono::SecondsFormat::AutoSi, true))
}

} // verus!
