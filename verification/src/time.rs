//! Points in time.
use vstd::prelude::*;

verus! {

pub const SECONDS_PER_DAY: i64 = 86_400;

/// A point in time: whole seconds since the start of 1970 in UTC, and the nanoseconds after them.
#[derive(Debug, Clone, Copy, PartialEq, Eq, Structural)]
pub struct Timestamp {
    pub secs: i64,
    pub nanos: u32,
}

impl Timestamp {
    /// Nanoseconds since the start of 1970.
    pub open spec fn total(self) -> int {
        self.secs * 1_000_000_000 + self.nanos
    }

    /// A point in time from seconds and nanoseconds.
    pub fn new(secs: i64, nanos: u32) -> (r: Self)
        ensures
            r.secs == secs,
            r.nanos == nanos,
    {
        Timestamp { secs, nanos }
    }

    /// Whether `self` is at or after `other`.
    pub fn at_or_after(&self, other: Timestamp) -> (r: bool)
        ensures
            r == (self.total() >= other.total()),
    {
        nanos_between(other, *self) >= 0
    }
}

/// The whole days from `then` to `now`; none where `then` is later.
pub open spec fn days_between(then: Timestamp, now: Timestamp) -> int {
    if now.total() <= then.total() {
        0
    } else {
        (now.total() - then.total()) / 86_400_000_000_000
    }
}

pub fn nanos_between(then: Timestamp, now: Timestamp) -> (r: i128)
    ensures
        r == now.total() - then.total(),
{
    let secs: i128 = (now.secs as i128) - (then.secs as i128);
    let nanos: i128 = (now.nanos as i128) - (then.nanos as i128);
    assert(secs * 1_000_000_000 == now.secs * 1_000_000_000 - then.secs * 1_000_000_000);
    secs * 1_000_000_000 + nanos
}

/// The whole days from `then` to `now`; none where `then` is later.
pub fn age_in_days(then: Timestamp, now: Timestamp) -> (r: i64)
    ensures
        r == days_between(then, now),
        r >= 0,
{
    let diff: i128 = nanos_between(then, now);
    if diff <= 0 {
        0
    } else {
        let days: u128 = (diff as u128) / 86_400_000_000_000u128;
        assert(days <= 0x7fff_ffff_ffff_ffff);
        days as i64
    }
}

/// The same time of day, `days` days earlier.
pub open spec fn earlier(t: Timestamp, days: int) -> Timestamp {
    Timestamp { secs: (t.secs - days * 86_400) as i64, nanos: t.nanos }
}

/// Nine o'clock on the day of `now`.
pub open spec fn nine_oclock(now: Timestamp) -> Timestamp {
    Timestamp { secs: ((now.secs as int / 86_400) * 86_400 + 32_400) as i64, nanos: 0 }
}

// ---------------------------------------------------------------------------------------------
// The calendar
// ---------------------------------------------------------------------------------------------

/// A point in time in RFC 3339 form, as `chrono` writes it; nothing where `chrono` has no such time.
pub uninterp spec fn rfc3339_of(secs: i64, nanos: u32) -> Option<Seq<char>>;

/// Calls `chrono::DateTime::to_rfc3339` on the time in UTC that `chrono::DateTime::from_timestamp`
/// makes of seconds and nanoseconds. Claimed of it: the outcome depends on these two alone. It is
/// nothing where they are out of range for `chrono`.
#[verifier::external_body]
fn write_rfc3339(secs: i64, nanos: u32) -> (r: Option<String>)
    ensures
        crate::text::opt_view(r) == rfc3339_of(secs, nanos),
{
    Some(chrono::DateTime::from_timestamp(secs, nanos)?.to_rfc3339())
}

/// The date in UTC of a second, as year, month and day with hyphens, as `chrono` writes it; nothing
/// where `chrono` has no such time.
pub uninterp spec fn date_of(secs: i64) -> Option<Seq<char>>;

/// The days of a month.
pub open spec fn month_days(year: int, month: int) -> int {
    if month == 2 {
        if year % 4 == 0 && (year % 100 != 0 || year % 400 == 0) {
            29
        } else {
            28
        }
    } else if month == 4 || month == 6 || month == 9 || month == 11 {
        30
    } else {
        31
    }
}

/// The days from the start of 1970 to a date. A year is counted from March on, so that a leap day
/// is its last.
pub open spec fn day_number(year: int, month: int, day: int) -> int {
    let y = if month <= 2 {
        year - 1
    } else {
        year
    };
    365 * y + y / 4 - y / 100 + y / 400 + (153 * ((month + 9) % 12) + 2) / 5 + day - 719_469
}

/// A number below a hundred in two digits.
pub open spec fn two_digits(n: int) -> Seq<char> {
    seq![('0' as int + n / 10) as char, ('0' as int + n % 10) as char]
}

/// Whether a text is a date, as four digits, two and two with hyphens between them.
pub open spec fn is_date(text: Seq<char>, year: int, month: int, day: int) -> bool {
    &&& 0 <= year <= 9999
    &&& 1 <= month <= 12
    &&& 1 <= day <= month_days(year, month)
    &&& text == two_digits(year / 100) + two_digits(year % 100) + seq!['-'] + two_digits(month)
        + seq!['-'] + two_digits(day)
}

/// Whether a text is the date in UTC of a second.
pub open spec fn dates(text: Seq<char>, secs: i64) -> bool {
    exists|year: int, month: int, day: int| #[trigger]
        is_date(text, year, month, day) && day_number(year, month, day) == secs as int / 86_400
}

/// Whether a second lies in the years from 0 to 9999.
pub open spec fn has_short_year(secs: i64) -> bool {
    day_number(0, 1, 1) <= secs as int / 86_400 <= day_number(9999, 12, 31)
}

/// Calls `chrono::DateTime::format` with the year, the month and the day on the time in UTC that
/// `chrono::DateTime::from_timestamp` makes of a number of seconds. Claimed of it: the outcome
/// depends on the seconds alone, and in the years from 0 to 9999 it is the date of the Gregorian
/// calendar. How other years are written is not said; it is nothing where the seconds are out of
/// range for `chrono`.
#[verifier::external_body]
fn write_date(secs: i64) -> (r: Option<String>)
    ensures
        crate::text::opt_view(r) == date_of(secs),
        has_short_year(secs) ==> r is Some && dates(r->0@, secs),
{
    Some(chrono::DateTime::from_timestamp(secs, 0)?.format("%Y-%m-%d").to_string())
}

impl Timestamp {
    /// This point in time in RFC 3339 form.
    pub fn to_rfc3339(&self) -> (r: Option<String>)
        ensures
            crate::text::opt_view(r) == rfc3339_of(self.secs, self.nanos),
    {
        write_rfc3339(self.secs, self.nanos)
    }

    /// The date in UTC of this point in time.
    pub fn date(&self) -> (r: Option<String>)
        ensures
            crate::text::opt_view(r) == date_of(self.secs),
            has_short_year(self.secs) ==> r is Some && dates(r->0@, self.secs),
    {
        write_date(self.secs)
    }
}

/// The age in days is the number of whole days that have gone by: that many have, and one more has
/// not; where the time lies ahead, none have.
pub proof fn law_whole_days(then: Timestamp, now: Timestamp)
    ensures
        now.total() >= then.total() ==> days_between(then, now) * 86_400_000_000_000 <= now.total()
            - then.total() < (days_between(then, now) + 1) * 86_400_000_000_000,
        now.total() < then.total() ==> days_between(then, now) == 0,
{
}

/// A time some days earlier is that many whole days away, to the nanosecond.
pub proof fn law_days_earlier(t: Timestamp, days: int)
    requires
        0 <= days,
        i64::MIN <= t.secs - days * 86_400,
    ensures
        t.total() - earlier(t, days).total() == days * 86_400_000_000_000,
        days_between(earlier(t, days), t) == days,
{
}

/// Nine o'clock is on the same day, nine hours after its start, whatever the time of that day.
pub proof fn law_nine_oclock(now: Timestamp)
    requires
        now.secs <= i64::MAX - 86_400,
        now.secs >= i64::MIN + 86_400,
    ensures
        nine_oclock(now).secs as int / 86_400 == now.secs as int / 86_400,
        nine_oclock(now).secs as int % 86_400 == 9 * 60 * 60,
        nine_oclock(now).nanos == 0,
{
    let day = now.secs as int / 86_400;
    assert(day * 86_400 <= now.secs < day * 86_400 + 86_400);
    assert(nine_oclock(now).secs == day * 86_400 + 32_400);
}

} // verus!
