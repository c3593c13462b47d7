//! The proleptic Gregorian calendar from the Unix epoch on: leap years,
//! month and year lengths, day numbers, and the names of days and months.
use vstd::prelude::*;

verus! {

/// The year of the Unix epoch.
pub const EPOCH_YEAR: u64 = 1970;

/// Whether `y` is a leap year of the Gregorian calendar.
pub open spec fn is_leap(y: int) -> bool {
    y % 4 == 0 && (y % 100 != 0 || y % 400 == 0)
}

/// The number of days in month `m` (1 to 12) of year `y`.
pub open spec fn month_len(y: int, m: int) -> int {
    if m == 2 {
        if is_leap(y) { 29 } else { 28 }
    } else if m == 4 || m == 6 || m == 9 || m == 11 {
        30
    } else {
        31
    }
}

/// The number of days in year `y`.
pub open spec fn year_len(y: int) -> int {
    if is_leap(y) { 366 } else { 365 }
}

/// The days of year `y` that come before the first of month `m`; month 13
/// stands for the first of the next year.
pub open spec fn days_before_month(y: int, m: int) -> int {
    let extra: int = if m > 2 && is_leap(y) { 1 } else { 0 };
    let base: int = if m <= 1 { 0 }
        else if m == 2 { 31 }
        else if m == 3 { 59 }
        else if m == 4 { 90 }
        else if m == 5 { 120 }
        else if m == 6 { 151 }
        else if m == 7 { 181 }
        else if m == 8 { 212 }
        else if m == 9 { 243 }
        else if m == 10 { 273 }
        else if m == 11 { 304 }
        else if m == 12 { 334 }
        else { 365 };
    base + extra
}

/// The days from the epoch to the first of January of year `y`.
pub open spec fn days_before_year(y: int) -> int
    decreases y - 1970,
{
    if y <= 1970 {
        0
    } else {
        days_before_year(y - 1) + year_len(y - 1)
    }
}

/// The days from the epoch to day `d` of month `m` of year `y`, where `d`
/// may run past the end of the month.
pub open spec fn day_number(y: int, m: int, d: int) -> int {
    days_before_year(y) + days_before_month(y, m) + d - 1
}

/// Whether `(y, m, d)` names a date on or after the epoch.
pub open spec fn valid_date(y: int, m: int, d: int) -> bool {
    y >= 1970 && 1 <= m <= 12 && 1 <= d <= month_len(y, m)
}

/// Each year from the epoch on lasts 365 or 366 days.
pub proof fn lemma_days_before_year_bounds(y: int)
    requires
        y >= 1970,
    ensures
        365 * (y - 1970) <= days_before_year(y) <= 366 * (y - 1970),
    decreases y - 1970,
{
    if y > 1970 {
        lemma_days_before_year_bounds(y - 1);
    }
}

/// A later year starts after the whole of an earlier one.
pub proof fn lemma_days_before_year_monotone(a: int, b: int)
    requires
        1970 <= a < b,
    ensures
        days_before_year(a) + year_len(a) <= days_before_year(b),
    decreases b - a,
{
    if b > a + 1 {
        lemma_days_before_year_monotone(a, b - 1);
    }
}

/// Month lengths add up to the days before a month, and to the year.
pub proof fn lemma_month_step(y: int, m: int)
    requires
        1 <= m <= 12,
    ensures
        days_before_month(y, m + 1) == days_before_month(y, m) + month_len(y, m),
        days_before_month(y, 13) == year_len(y),
        days_before_month(y, 1) == 0,
{
}

/// A date of a valid month lies within its year.
pub proof fn lemma_date_within_year(y: int, m: int, d: int)
    requires
        valid_date(y, m, d),
    ensures
        days_before_year(y) <= day_number(y, m, d) < days_before_year(y) + year_len(y),
        days_before_year(y) + days_before_month(y, m) <= day_number(y, m, d),
        day_number(y, m, d) < days_before_year(y) + days_before_month(y, m + 1),
{
    lemma_month_step(y, m);
}

/// Two valid dates with the same day number are the same date.
pub proof fn lemma_day_number_injective(y1: int, m1: int, d1: int, y2: int, m2: int, d2: int)
    requires
        valid_date(y1, m1, d1),
        valid_date(y2, m2, d2),
        day_number(y1, m1, d1) == day_number(y2, m2, d2),
    ensures
        y1 == y2,
        m1 == m2,
        d1 == d2,
{
    lemma_date_within_year(y1, m1, d1);
    lemma_date_within_year(y2, m2, d2);
    if y1 < y2 {
        lemma_days_before_year_monotone(y1, y2);
    } else if y2 < y1 {
        lemma_days_before_year_monotone(y2, y1);
    }
    assert(y1 == y2);
    if m1 < m2 {
        assert(days_before_month(y1, m1 + 1) <= days_before_month(y1, m2));
    } else if m2 < m1 {
        assert(days_before_month(y1, m2 + 1) <= days_before_month(y1, m1));
    }
}

/// Of two valid dates, the one earlier by year, then month, then day has the
/// smaller day number.
pub proof fn lemma_day_number_ordered(y1: int, m1: int, d1: int, y2: int, m2: int, d2: int)
    requires
        valid_date(y1, m1, d1),
        valid_date(y2, m2, d2),
        y1 < y2 || (y1 == y2 && m1 < m2) || (y1 == y2 && m1 == m2 && d1 < d2),
    ensures
        day_number(y1, m1, d1) < day_number(y2, m2, d2),
{
    lemma_date_within_year(y1, m1, d1);
    lemma_date_within_year(y2, m2, d2);
    if y1 < y2 {
        lemma_days_before_year_monotone(y1, y2);
    } else if m1 < m2 {
        assert(days_before_month(y1, m1 + 1) <= days_before_month(y1, m2));
    }
}

/// 1 for a leap year, 0 for any other.
pub fn ly(year: u64) -> (r: u64)
    ensures
        r == (if is_leap(year as int) { 1u64 } else { 0u64 }),
{
    if year % 4 == 0 && (year % 100 != 0 || year % 400 == 0) {
        1
    } else {
        0
    }
}

/// The number of days in a month of a year.
pub fn days_in_month(year: u64, month: u64) -> (r: u64)
    requires
        1 <= month <= 12,
    ensures
        r == month_len(year as int, month as int),
{
    if month == 2 {
        28 + ly(year)
    } else if month == 4 || month == 6 || month == 9 || month == 11 {
        30
    } else {
        31
    }
}

/// The number of days in a year.
pub fn days_in_year(year: u64) -> (r: u64)
    ensures
        r == year_len(year as int),
{
    365 + ly(year)
}

/// A day of the week.
#[derive(Clone, Copy, Debug, PartialEq, Eq, Structural)]
pub enum Weekday {
    Monday,
    Tuesday,
    Wednesday,
    Thursday,
    Friday,
    Saturday,
    Sunday,
}

/// The weekday of the day that lies `days` days after the epoch, which was a
/// Thursday.
pub open spec fn weekday_of(days: int) -> Weekday {
    let k = days % 7;
    if k == 0 {
        Weekday::Thursday
    } else if k == 1 {
        Weekday::Friday
    } else if k == 2 {
        Weekday::Saturday
    } else if k == 3 {
        Weekday::Sunday
    } else if k == 4 {
        Weekday::Monday
    } else if k == 5 {
        Weekday::Tuesday
    } else {
        Weekday::Wednesday
    }
}

impl Weekday {
    /// The English name of the day.
    pub open spec fn spec_name(self) -> Seq<char> {
        match self {
            Weekday::Monday => "Monday"@,
            Weekday::Tuesday => "Tuesday"@,
            Weekday::Wednesday => "Wednesday"@,
            Weekday::Thursday => "Thursday"@,
            Weekday::Friday => "Friday"@,
            Weekday::Saturday => "Saturday"@,
            Weekday::Sunday => "Sunday"@,
        }
    }

    /// The weekday of the day `days` days after the epoch.
    pub fn from_days_since_epoch(days: u64) -> (r: Weekday)
        ensures
            r == weekday_of(days as int),
    {
        let k = days % 7;
        if k == 0 {
            Weekday::Thursday
        } else if k == 1 {
            Weekday::Friday
        } else if k == 2 {
            Weekday::Saturday
        } else if k == 3 {
            Weekday::Sunday
        } else if k == 4 {
            Weekday::Monday
        } else if k == 5 {
            Weekday::Tuesday
        } else {
            Weekday::Wednesday
        }
    }

    /// The English name of the day.
    pub fn name(&self) -> (r: &'static str)
        ensures
            r@ == self.spec_name(),
    {
        match self {
            Weekday::Monday => "Monday",
            Weekday::Tuesday => "Tuesday",
            Weekday::Wednesday => "Wednesday",
            Weekday::Thursday => "Thursday",
            Weekday::Friday => "Friday",
            Weekday::Saturday => "Saturday",
            Weekday::Sunday => "Sunday",
        }
    }

    /// The first three letters of the name.
    pub fn abbreviation(&self) -> (r: &'static str)
        ensures
            r@ == self.spec_name().subrange(0, 3),
    {
        proof {
            reveal_strlit("Monday");
            reveal_strlit("Tuesday");
            reveal_strlit("Wednesday");
            reveal_strlit("Thursday");
            reveal_strlit("Friday");
            reveal_strlit("Saturday");
            reveal_strlit("Sunday");
            reveal_strlit("Mon");
            reveal_strlit("Tue");
            reveal_strlit("Wed");
            reveal_strlit("Thu");
            reveal_strlit("Fri");
            reveal_strlit("Sat");
            reveal_strlit("Sun");
        }
        let r = match self {
            Weekday::Monday => "Mon",
            Weekday::Tuesday => "Tue",
            Weekday::Wednesday => "Wed",
            Weekday::Thursday => "Thu",
            Weekday::Friday => "Fri",
            Weekday::Saturday => "Sat",
            Weekday::Sunday => "Sun",
        };
        assert(r@ =~= self.spec_name().subrange(0, 3));
        r
    }
}

/// A month of the year.
#[derive(Clone, Copy, Debug, PartialEq, Eq, Structural)]
pub enum Month {
    January,
    February,
    March,
    April,
    May,
    June,
    July,
    August,
    September,
    October,
    November,
    December,
}

/// The month numbered `m`, for `m` from 1 to 12.
pub open spec fn month_of(m: int) -> Month {
    if m == 1 {
        Month::January
    } else if m == 2 {
        Month::February
    } else if m == 3 {
        Month::March
    } else if m == 4 {
        Month::April
    } else if m == 5 {
        Month::May
    } else if m == 6 {
        Month::June
    } else if m == 7 {
        Month::July
    } else if m == 8 {
        Month::August
    } else if m == 9 {
        Month::September
    } else if m == 10 {
        Month::October
    } else if m == 11 {
        Month::November
    } else {
        Month::December
    }
}

impl Month {
    /// The month's number, from 1 to 12.
    pub open spec fn spec_number(self) -> int {
        match self {
            Month::January => 1,
            Month::February => 2,
            Month::March => 3,
            Month::April => 4,
            Month::May => 5,
            Month::June => 6,
            Month::July => 7,
            Month::August => 8,
            Month::September => 9,
            Month::October => 10,
            Month::November => 11,
            Month::December => 12,
        }
    }

    /// The English name of the month.
    pub open spec fn spec_name(self) -> Seq<char> {
        match self {
            Month::January => "January"@,
            Month::February => "February"@,
            Month::March => "March"@,
            Month::April => "April"@,
            Month::May => "May"@,
            Month::June => "June"@,
            Month::July => "July"@,
            Month::August => "August"@,
            Month::September => "September"@,
            Month::October => "October"@,
            Month::November => "November"@,
            Month::December => "December"@,
        }
    }

    /// The month numbered `month`.
    pub fn from_number(month: u64) -> (r: Month)
        requires
            1 <= month <= 12,
        ensures
            r == month_of(month as int),
            r.spec_number() == month,
    {
        if month == 1 {
            Month::January
        } else if month == 2 {
            Month::February
        } else if month == 3 {
            Month::March
        } else if month == 4 {
            Month::April
        } else if month == 5 {
            Month::May
        } else if month == 6 {
            Month::June
        } else if month == 7 {
            Month::July
        } else if month == 8 {
            Month::August
        } else if month == 9 {
            Month::September
        } else if month == 10 {
            Month::October
        } else if month == 11 {
            Month::November
        } else {
            Month::December
        }
    }

    /// The month's number, from 1 to 12.
    pub fn number(&self) -> (r: u64)
        ensures
            r == self.spec_number(),
            1 <= r <= 12,
    {
        match self {
            Month::January => 1,
            Month::February => 2,
            Month::March => 3,
            Month::April => 4,
            Month::May => 5,
            Month::June => 6,
            Month::July => 7,
            Month::August => 8,
            Month::September => 9,
            Month::October => 10,
            Month::November => 11,
            Month::December => 12,
        }
    }

    /// The English name of the month.
    pub fn name(&self) -> (r: &'static str)
        ensures
            r@ == self.spec_name(),
    {
        match self {
            Month::January => "January",
            Month::February => "February",
            Month::March => "March",
            Month::April => "April",
            Month::May => "May",
            Month::June => "June",
            Month::July => "July",
            Month::August => "August",
            Month::September => "September",
            Month::October => "October",
            Month::November => "November",
            Month::December => "December",
        }
    }

    /// The first three letters of the name.
    pub fn abbreviation(&self) -> (r: &'static str)
        ensures
            r@ == self.spec_name().subrange(0, 3),
    {
        proof {
            reveal_strlit("January");
            reveal_strlit("Jan");
            reveal_strlit("February");
            reveal_strlit("Feb");
            reveal_strlit("March");
            reveal_strlit("Mar");
            reveal_strlit("April");
            reveal_strlit("Apr");
            reveal_strlit("May");
            reveal_strlit("May");
            reveal_strlit("June");
            reveal_strlit("Jun");
            reveal_strlit("July");
            reveal_strlit("Jul");
            reveal_strlit("August");
            reveal_strlit("Aug");
            reveal_strlit("September");
            reveal_strlit("Sep");
            reveal_strlit("October");
            reveal_strlit("Oct");
            reveal_strlit("November");
            reveal_strlit("Nov");
            reveal_strlit("December");
            reveal_strlit("Dec");
        }
        let r = match self {
            Month::January => "Jan",
            Month::February => "Feb",
            Month::March => "Mar",
            Month::April => "Apr",
            Month::May => "May",
            Month::June => "Jun",
            Month::July => "Jul",
            Month::August => "Aug",
            Month::September => "Sep",
            Month::October => "Oct",
            Month::November => "Nov",
            Month::December => "Dec",
        };
        assert(r@ =~= self.spec_name().subrange(0, 3));
        r
    }
}

} // verus!
