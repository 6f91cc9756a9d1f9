//! Points in time and the age column of resource tables.
use vstd::prelude::*;
use crate::text::{decimal, decimal_u64};

verus! {

/// A point in time: seconds since 1970-01-01 00:00:00 UTC, and the nanoseconds
/// of the current second. A second or more of nanoseconds stands for a leap second
/// behind the last second of a minute.
#[derive(Debug, Clone, Copy, PartialEq, Eq, Structural)]
pub struct Timestamp {
    pub secs: i64,
    pub nanos: u32,
}

impl Timestamp {
    /// Whether the point lies in the years -262143 to 262142, and its
    /// nanoseconds make less than a second, or less than two where a leap second
    /// can be.
    pub open spec fn in_range(self) -> bool {
        &&& -8_334_601_228_800 <= self.secs <= 8_210_266_876_799
        &&& self.nanos < 1_000_000_000 || (self.nanos < 2_000_000_000 && self.secs as int % 60
            == 59)
    }

    /// Whether the point lies in a leap second.
    pub open spec fn is_leap(self) -> bool {
        self.nanos >= 1_000_000_000
    }

    /// Whether the point lies before another.
    pub open spec fn is_before(self, other: Timestamp) -> bool {
        self.secs < other.secs || (self.secs == other.secs && self.nanos < other.nanos)
    }

    /// Tests whether the point can be used to compute an age.
    pub fn is_in_range(&self) -> (r: bool)
        ensures
            r == self.in_range(),
    {
        if self.secs < -8_334_601_228_800 || self.secs > 8_210_266_876_799 {
            return false;
        }
        let since_first: u64 = (self.secs + 8_334_601_228_800) as u64;
        self.nanos < 1_000_000_000 || (self.nanos < 2_000_000_000 && since_first % 60 == 59)
    }

    /// Tests whether the point lies before another.
    pub fn precedes(&self, other: &Timestamp) -> (r: bool)
        ensures
            r == self.is_before(*other),
    {
        self.secs < other.secs || (self.secs == other.secs && self.nanos < other.nanos)
    }
}

/// The leap second that lies between two points: one that the earlier point of
/// the day lies in is over by the later one. Other leap seconds do not count.
pub open spec fn leap_between(now: Timestamp, created: Timestamp) -> int {
    let of_day_now = now.secs as int % 86400;
    let of_day_created = created.secs as int % 86400;
    if of_day_now > of_day_created && created.is_leap() {
        1
    } else if of_day_now < of_day_created && now.is_leap() {
        -1
    } else {
        0
    }
}

/// The nanoseconds from one point to another.
pub open spec fn nanos_between(now: Timestamp, created: Timestamp) -> int {
    (now.secs - created.secs + leap_between(now, created)) * 1_000_000_000 + now.nanos
        - created.nanos
}

/// The whole seconds in a number of nanoseconds, rounded towards zero.
pub open spec fn whole_seconds(nanos: int) -> int {
    if nanos >= 0 {
        nanos / 1_000_000_000
    } else {
        -((-nanos) / 1_000_000_000)
    }
}

/// `chrono`: `DateTime::from_timestamp` for both points, then
/// `DateTime::signed_duration_since` and `TimeDelta::num_seconds`. Both points
/// are within the range that `chrono` can hold, and the result is their
/// difference in whole seconds, rounded towards zero. A leap second counts where
/// the earlier point of the day lies in it.
#[verifier::external_body]
fn elapsed_seconds(now: Timestamp, created: Timestamp) -> (r: i64)
    requires
        now.in_range(),
        created.in_range(),
    ensures
        r == whole_seconds(nanos_between(now, created)),
{
    let later = chrono::DateTime::from_timestamp(now.secs, now.nanos).unwrap_or_default();
    let earlier = chrono::DateTime::from_timestamp(created.secs, created.nanos).unwrap_or_default();
    later.signed_duration_since(earlier).num_seconds()
}

/// The age of something that came into being a number of seconds ago, in its
/// largest fitting unit; a time in the future counts as now.
pub open spec fn age_text(secs: int) -> Seq<char> {
    if secs < 0 {
        "0s"@
    } else if secs < 60 {
        decimal(secs as nat) + "s"@
    } else if secs < 3600 {
        decimal((secs / 60) as nat) + "m"@
    } else if secs < 86400 {
        decimal((secs / 3600) as nat) + "h"@
    } else if secs / 86400 >= 365 {
        decimal((secs / 86400 / 365) as nat) + "y"@
    } else if secs / 86400 >= 7 {
        decimal((secs / 86400 / 7) as nat) + "w"@
    } else {
        decimal((secs / 86400) as nat) + "d"@
    }
}

/// The age at `now` of something created at `created`.
pub open spec fn age_at(now: Timestamp, created: Timestamp) -> Seq<char> {
    age_text(whole_seconds(nanos_between(now, created)))
}

/// Writes the age that a number of elapsed seconds makes.
pub fn format_elapsed(secs: i64) -> (r: String)
    ensures
        r@ == age_text(secs as int),
{
    if secs < 0 {
        return "0s".to_owned();
    }
    let s: u64 = secs as u64;
    let amount: u64;
    let unit: &str;
    if s < 60 {
        amount = s;
        unit = "s";
    } else if s < 3600 {
        amount = s / 60;
        unit = "m";
    } else if s < 86400 {
        amount = s / 3600;
        unit = "h";
    } else {
        let days: u64 = s / 86400;
        if days >= 365 {
            amount = days / 365;
            unit = "y";
        } else if days >= 7 {
            amount = days / 7;
            unit = "w";
        } else {
            amount = days;
            unit = "d";
        }
    }
    let mut out = decimal_u64(amount);
    out.append(unit);
    out
}

/// Formats how long ago something was created.
pub fn format_age(now: Timestamp, created: Timestamp) -> (r: String)
    requires
        now.in_range(),
        created.in_range(),
    ensures
        r@ == age_at(now, created),
{
    format_elapsed(elapsed_seconds(now, created))
}

/// The age column of something whose creation time may be missing.
pub open spec fn age_column(now: Timestamp, created: Option<Timestamp>) -> Seq<char> {
    match created {
        Some(t) => age_at(now, t),
        None => "<unknown>"@,
    }
}

/// Whether a time that may be missing is usable where it is there.
pub open spec fn usable(t: Option<Timestamp>) -> bool {
    t is Some ==> t->0.in_range()
}

/// Formats the age column; a missing creation time reads `<unknown>`.
pub fn format_age_column(now: Timestamp, created: Option<Timestamp>) -> (r: String)
    requires
        now.in_range(),
        usable(created),
    ensures
        r@ == age_column(now, created),
{
    match created {
        Some(t) => format_age(now, t),
        None => "<unknown>".to_owned(),
    }
}

/// No age is negative: something created in the future is as old as something
/// created now.
pub proof fn law_future_counts_as_now(now: Timestamp, created: Timestamp)
    requires
        now.in_range(),
        created.in_range(),
        !created.is_before(now),
    ensures
        age_at(now, created) == "0s"@,
{
    assert(nanos_between(now, created) < 1_000_000_000);
    reveal_strlit("0s");
    reveal_strlit("s");
    assert(decimal(0) + "s"@ =~= "0s"@);
}

/// The text that `chrono` makes of a point in time in UTC by a pattern.
pub uninterp spec fn formatted_time(secs: i64, nanos: u32, pattern: Seq<char>) -> Seq<char>;

/// How a point in time is shown in descriptions.
pub open spec fn utc_pattern() -> Seq<char> {
    "%Y-%m-%d %H:%M:%S UTC"@
}

/// `chrono`: `DateTime::from_timestamp`, then `DateTime::format` and the text of
/// what it gives. The point is within the range that `chrono` can hold and the
/// pattern is one that it knows; the text depends on the point and the pattern
/// alone. What the text is on a given point is left unsaid: it takes the rules
/// of the calendar.
#[verifier::external_body]
fn format_time(t: Timestamp, pattern: &str) -> (r: String)
    requires
        t.in_range(),
        pattern@ == utc_pattern(),
    ensures
        r@ == formatted_time(t.secs, t.nanos, pattern@),
{
    let time = chrono::DateTime::from_timestamp(t.secs, t.nanos).unwrap_or_default();
    time.format(pattern).to_string()
}

/// The UTC date and time of a point in time, as descriptions show it.
pub open spec fn utc_text(t: Timestamp) -> Seq<char> {
    formatted_time(t.secs, t.nanos, utc_pattern())
}

/// Writes the UTC date and time of a point in time.
pub fn format_utc(t: Timestamp) -> (r: String)
    requires
        t.in_range(),
    ensures
        r@ == utc_text(t),
{
    format_time(t, "%Y-%m-%d %H:%M:%S UTC")
}

} // verus!
