//! Points in time, in UTC, and their text.

use vstd::prelude::*;

verus! {

/// The earliest second that a `DateTime` may hold, counted from the start
/// of 1970: the first second of the year -262143.
pub const MIN_TIMESTAMP: i64 = -8_334_601_228_800;

/// The latest second that a `DateTime` may hold, counted from the start of
/// 1970: the last second of the year 262142.
pub const MAX_TIMESTAMP: i64 = 8_210_266_876_799;

/// The number of seconds of a week.
pub const SECS_PER_WEEK: i64 = 604_800;

/// The largest number of weeks that can be taken off any time that the
/// clock gives.
pub const MAX_WEEKS_AGO: u32 = 13_780_756;

/// A point in time: the whole seconds since the start of 1970 in UTC, and
/// the nanoseconds into the second.
#[derive(Copy, Clone, Debug, PartialEq, Eq)]
pub struct DateTime {
    secs: i64,
    nanos: u32,
}

/// The forms in which a point in time is written.
#[derive(Copy, Clone, Debug, PartialEq, Eq)]
pub enum DateTimeFormat {
    /// Year, month and day, as eight digits for the years 0 to 9999.
    YYYYMMDD,
}

/// The pattern that stands for the form `format`.
pub open spec fn format_pattern(format: DateTimeFormat) -> Seq<char> {
    match format {
        DateTimeFormat::YYYYMMDD => "%Y%m%d"@,
    }
}

/// The text that `chrono` writes for the point in time of `secs` seconds and
/// `nanos` nanoseconds under the pattern `pattern`.
pub uninterp spec fn utc_text(secs: int, nanos: int, pattern: Seq<char>) -> Seq<char>;

/// `chrono::Utc::now`, read through `DateTime::timestamp` and
/// `DateTime::timestamp_subsec_nanos`: the time of the system clock. It is
/// not before 1970 and not beyond what `chrono` can hold, or the call does
/// not return; the nanoseconds stay below a second.
#[verifier::external_body]
fn utc_now() -> (r: (i64, u32))
    ensures
        0 <= r.0 <= MAX_TIMESTAMP,
        r.1 < 1_000_000_000,
{
    let now = chrono::Utc::now();
    (now.timestamp(), now.timestamp_subsec_nanos())
}

/// `DateTime<Utc>::format` of `chrono`, written out: the text of the point
/// in time under `pattern`, which depends on the three arguments alone. Only
/// the pattern of year, month and day is handed on.
#[verifier::external_body]
fn format_utc(secs: i64, nanos: u32, pattern: &str) -> (r: String)
    requires
        MIN_TIMESTAMP <= secs <= MAX_TIMESTAMP,
        nanos < 1_000_000_000,
        pattern@ == "%Y%m%d"@,
    ensures
        r@ == utc_text(secs as int, nanos as int, pattern@),
{
    chrono::DateTime::from_timestamp(secs, nanos).unwrap().format(pattern).to_string()
}

impl DateTimeFormat {
    /// The pattern that stands for the form.
    pub fn as_str(&self) -> (r: &'static str)
        ensures
            r@ == format_pattern(*self),
    {
        match self {
            DateTimeFormat::YYYYMMDD => "%Y%m%d",
        }
    }
}

impl DateTime {
    /// Whether the seconds and nanoseconds lie within what can be held.
    #[verifier::type_invariant]
    spec fn within_range(self) -> bool {
        MIN_TIMESTAMP <= self.secs <= MAX_TIMESTAMP && self.nanos < 1_000_000_000
    }

    /// The whole seconds since the start of 1970.
    pub closed spec fn secs(&self) -> int {
        self.secs as int
    }

    /// The nanoseconds into the second.
    pub closed spec fn nanos(&self) -> int {
        self.nanos as int
    }

    /// The point in time of `secs` seconds since the start of 1970 and
    /// `nanos` nanoseconds, where it can be held.
    pub fn from_timestamp(secs: i64, nanos: u32) -> (r: Option<DateTime>)
        ensures
            match r {
                Some(t) => t.secs() == secs && t.nanos() == nanos,
                None => !(MIN_TIMESTAMP <= secs <= MAX_TIMESTAMP && nanos < 1_000_000_000),
            },
    {
        if MIN_TIMESTAMP <= secs && secs <= MAX_TIMESTAMP && nanos < 1_000_000_000 {
            Some(DateTime { secs, nanos })
        } else {
            None
        }
    }

    /// The whole seconds since the start of 1970.
    pub fn timestamp(&self) -> (r: i64)
        ensures
            r == self.secs(),
            MIN_TIMESTAMP <= r <= MAX_TIMESTAMP,
    {
        proof {
            use_type_invariant(self);
        }
        self.secs
    }

    /// The nanoseconds into the second.
    pub fn timestamp_subsec_nanos(&self) -> (r: u32)
        ensures
            r == self.nanos(),
            r < 1_000_000_000,
    {
        proof {
            use_type_invariant(self);
        }
        self.nanos
    }

    /// The time of the system clock, which is not before 1970.
    pub fn now() -> (r: DateTime)
        ensures
            0 <= r.secs() <= MAX_TIMESTAMP,
            r.nanos() < 1_000_000_000,
    {
        let (secs, nanos) = utc_now();
        DateTime { secs, nanos }
    }

    /// The point in time `weeks` weeks before this one, which must not lie
    /// before the earliest time that can be held.
    pub fn weeks_before(&self, weeks: u32) -> (r: DateTime)
        requires
            MIN_TIMESTAMP <= self.secs() - SECS_PER_WEEK * weeks,
        ensures
            r.secs() == self.secs() - SECS_PER_WEEK * weeks,
            r.nanos() == self.nanos(),
    {
        proof {
            use_type_invariant(self);
        }
        let back: i64 = SECS_PER_WEEK * (weeks as i64);
        DateTime { secs: self.secs - back, nanos: self.nanos }
    }

    /// The point in time `weeks` weeks before the time of the system clock.
    pub fn weeks_ago(weeks: u32) -> (r: DateTime)
        requires
            weeks <= MAX_WEEKS_AGO,
        ensures
            0 <= r.secs() + SECS_PER_WEEK * weeks <= MAX_TIMESTAMP,
            r.nanos() < 1_000_000_000,
    {
        DateTime::now().weeks_before(weeks)
    }

    /// The text of the point in time in the form `fmt`.
    pub fn format(&self, fmt: DateTimeFormat) -> (r: String)
        ensures
            r@ == utc_text(self.secs(), self.nanos(), format_pattern(fmt)),
    {
        proof {
            use_type_invariant(self);
        }
        format_utc(self.secs, self.nanos, fmt.as_str())
    }
}

} // verus!
