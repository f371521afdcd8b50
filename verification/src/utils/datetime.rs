//! How long ago a moment was, in words: "3 minutes ago", "1 year ago".

use crate::number::{integer_text, push_integer};
use time::OffsetDateTime;
use vstd::prelude::*;

verus! {

/// `time::OffsetDateTime`, a date and time with its offset from UTC. Nothing
/// of what it holds is seen here: it is only handed from one call to the next.
#[verifier::external_type_specification]
#[verifier::external_body]
pub struct ExOffsetDateTime(time::OffsetDateTime);

/// `time::OffsetDateTime::now_utc`, the date and time of the system clock,
/// with the offset of UTC. Nothing is claimed of the result: it differs from
/// call to call. The call panics if the clock stands outside the dates that
/// `time` can hold.
#[verifier::external_body]
fn now_utc() -> OffsetDateTime {
    OffsetDateTime::now_utc()
}

/// `time::OffsetDateTime::unix_timestamp`, the seconds from the start of 1970
/// (UTC) to `at`. Nothing is claimed of the result.
#[verifier::external_body]
fn unix_timestamp(at: &OffsetDateTime) -> i64 {
    at.unix_timestamp()
}

/// `time::OffsetDateTime::year`, the year of the date of `at` in its own
/// offset. Nothing is claimed of the result.
#[verifier::external_body]
fn year(at: &OffsetDateTime) -> i32 {
    at.year()
}

/// `time::OffsetDateTime::month`, the month of the date of `at` in its own
/// offset, by its number: `time::Month` counts from January, which is 1, to
/// December, which is 12.
#[verifier::external_body]
fn month(at: &OffsetDateTime) -> (number: u8)
    ensures
        1 <= number <= 12,
{
    u8::from(at.month())
}

/// A moment, by what telling its distance from another moment takes.
#[derive(Clone, Copy, Debug, PartialEq, Eq, Structural)]
pub struct Moment {
    /// Seconds since the start of 1970 (UTC).
    pub unix_timestamp: i64,
    /// The year of the moment's date.
    pub year: i32,
    /// The month of the moment's date, from 1 for January to 12 for December.
    pub month: u8,
}

/// The unit in which a distance in time is told.
#[derive(Clone, Copy, Debug, PartialEq, Eq, Structural)]
pub enum Unit {
    /// Seconds.
    Second,
    /// Minutes.
    Minute,
    /// Hours.
    Hour,
    /// Days.
    Day,
    /// Weeks.
    Week,
    /// Months.
    Month,
    /// Years.
    Year,
}

/// The seconds of a day.
pub const DAY: i128 = 86400;

/// The seconds of a week.
pub const WEEK: i128 = 604800;

/// The amount and unit by which a distance of `seconds` seconds and `months`
/// calendar months is told.
///
/// Less than four weeks are told in the largest unit, up to the week, that
/// the distance fills once. From four weeks on the calendar decides: months
/// up to eleven, then years, a year counting as full from its eleventh month
/// on. Four weeks and more within one calendar month are told in weeks.
pub open spec fn elapsed(seconds: int, months: int) -> (int, Unit) {
    if seconds < 60 {
        (seconds, Unit::Second)
    } else if seconds < 3600 {
        (seconds / 60, Unit::Minute)
    } else if seconds < DAY {
        (seconds / 3600, Unit::Hour)
    } else if seconds < WEEK {
        (seconds / (DAY as int), Unit::Day)
    } else if seconds < 4 * WEEK || months < 1 {
        (seconds / (WEEK as int), Unit::Week)
    } else if months < 12 {
        (months, Unit::Month)
    } else {
        (
            months / 12 + if months % 12 > 9 {
                1int
            } else {
                0int
            },
            Unit::Year,
        )
    }
}

/// The word for `unit`, in the singular.
pub open spec fn unit_name(unit: Unit) -> Seq<char> {
    match unit {
        Unit::Second => "second"@,
        Unit::Minute => "minute"@,
        Unit::Hour => "hour"@,
        Unit::Day => "day"@,
        Unit::Week => "week"@,
        Unit::Month => "month"@,
        Unit::Year => "year"@,
    }
}

/// How a distance of `amount` times `unit` is told: the amount, the unit in
/// the plural unless the amount is 1, and "ago".
pub open spec fn relative_text(amount: int, unit: Unit) -> Seq<char> {
    integer_text(amount) + " "@ + unit_name(unit) + if amount == 1 {
        Seq::<char>::empty()
    } else {
        "s"@
    } + " ago"@
}

impl Unit {
    /// The word for the unit, in the singular.
    pub fn name(&self) -> (word: &'static str)
        ensures
            word@ == unit_name(*self),
    {
        match self {
            Unit::Second => "second",
            Unit::Minute => "minute",
            Unit::Hour => "hour",
            Unit::Day => "day",
            Unit::Week => "week",
            Unit::Month => "month",
            Unit::Year => "year",
        }
    }
}

/// Finds the amount and unit by which a distance is told.
pub fn tell(seconds: i128, months: i128) -> (told: (i128, Unit))
    ensures
        (told.0 as int, told.1) == elapsed(seconds as int, months as int),
{
    if seconds < 60 {
        (seconds, Unit::Second)
    } else if seconds < 3600 {
        (seconds / 60, Unit::Minute)
    } else if seconds < DAY {
        (seconds / 3600, Unit::Hour)
    } else if seconds < WEEK {
        (seconds / DAY, Unit::Day)
    } else if seconds < 4 * WEEK || months < 1 {
        (seconds / WEEK, Unit::Week)
    } else if months < 12 {
        (months, Unit::Month)
    } else {
        let late: i128 = if months % 12 > 9 {
            1
        } else {
            0
        };
        (months / 12 + late, Unit::Year)
    }
}

impl Moment {
    /// The calendar months from `self` to `now`, by their dates alone.
    pub open spec fn months_to(self, now: Moment) -> int {
        12 * (now.year - self.year) + now.month - self.month
    }

    /// How `relative_to` tells the distance from `self` to `now`.
    pub open spec fn relative(self, now: Moment) -> Seq<char> {
        let told = elapsed(now.unix_timestamp - self.unix_timestamp, self.months_to(now));
        relative_text(told.0, told.1)
    }

    /// Tells how long before `now` this moment was. A moment after `now` is
    /// told in seconds, with a minus sign.
    pub fn relative_to(&self, now: &Moment) -> (text: String)
        ensures
            text@ == self.relative(*now),
    {
        let seconds: i128 = now.unix_timestamp as i128 - self.unix_timestamp as i128;
        let months: i128 = 12 * (now.year as i128 - self.year as i128) + now.month as i128
            - self.month as i128;
        let (amount, unit) = tell(seconds, months);
        let mut text = String::new();
        push_integer(&mut text, amount);
        text.append(" ");
        text.append(unit.name());
        if amount != 1 {
            text.append("s");
        }
        text.append(" ago");
        proof {
            assert(text@ =~= relative_text(amount as int, unit));
        }
        text
    }

    /// The present moment, by the system clock, in UTC.
    pub fn now() -> (moment: Moment)
        ensures
            1 <= moment.month <= 12,
    {
        let at = now_utc();
        Moment { unix_timestamp: unix_timestamp(&at), year: year(&at), month: month(&at) }
    }
}

/// Telling how long ago something was.
pub trait RelativeTime {
    /// Tells how long before the present moment `self` was.
    fn to_relative(&self) -> String;
}

impl RelativeTime for Moment {
    /// Tells the distance from this moment to the present one, which is read
    /// from the system clock: the text is what `relative_to` gives for some
    /// present moment, and which one the clock decides.
    fn to_relative(&self) -> (text: String)
        ensures
            exists|now: Moment| 1 <= now.month <= 12 && text@ == self.relative(now),
    {
        let now = Moment::now();
        self.relative_to(&now)
    }
}

} // verus!
