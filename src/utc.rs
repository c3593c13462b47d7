//! The `Utc` moment and the two conversions between a moment and the time
//! elapsed since the epoch.
use vstd::prelude::*;
use vstd::arithmetic::div_mod::lemma_fundamental_div_mod;
use vstd::arithmetic::div_mod::lemma_fundamental_div_mod_converse;
use crate::calendar::{
    day_number, days_before_month, days_before_year, days_in_month, days_in_year,
    lemma_day_number_injective, lemma_days_before_year_bounds, lemma_days_before_year_monotone,
    lemma_month_step, month_len, month_of, valid_date, weekday_of, year_len, Month, Weekday,
};

verus! {

/// Nanoseconds in one second.
pub const NANOS_PER_SECOND: u32 = 1_000_000_000;

/// The largest value taken for each civil field, so that every moment they
/// describe stays within 64-bit arithmetic.
pub const FIELD_MAX: u64 = 0xFFFF_FFFF;

/// A bound on the day numbers that supported civil fields reach.
const DAY_BOUND: u64 = 0x200_0000_0000;

/// A date/time in UTC, on or after 1970-01-01T00:00:00.
#[derive(Clone, Copy, Debug, PartialEq, Eq, Structural)]
pub struct Utc {
    year: u64,
    month: u64,
    day: u64,
    day_of_week: Weekday,
    hour: u64,
    minute: u64,
    second: u64,
    nano: u32,
}

/// Why civil fields give no moment.
#[derive(Clone, Copy, Debug, PartialEq, Eq, Structural)]
pub enum DateError {
    /// The fields resolve to a year before 1970.
    BeforeEpoch,
}

/// The whole seconds from the epoch to the start of the given second.
pub open spec fn seconds_of(days: int, hour: int, minute: int, second: int) -> int {
    ((days * 24 + hour) * 60 + minute) * 60 + second
}

/// A time of day pins down its day and its hour, minute and second.
pub proof fn lemma_seconds_of_injective(
    d1: int, h1: int, mi1: int, s1: int,
    d2: int, h2: int, mi2: int, s2: int,
)
    requires
        0 <= h1 < 24, 0 <= mi1 < 60, 0 <= s1 < 60,
        0 <= h2 < 24, 0 <= mi2 < 60, 0 <= s2 < 60,
        seconds_of(d1, h1, mi1, s1) == seconds_of(d2, h2, mi2, s2),
    ensures
        d1 == d2, h1 == h2, mi1 == mi2, s1 == s2,
{
    let x = seconds_of(d1, h1, mi1, s1);
    lemma_fundamental_div_mod_converse(x, 60, (d1 * 24 + h1) * 60 + mi1, s1);
    lemma_fundamental_div_mod_converse(x, 60, (d2 * 24 + h2) * 60 + mi2, s2);
    let m = x / 60;
    lemma_fundamental_div_mod_converse(m, 60, d1 * 24 + h1, mi1);
    lemma_fundamental_div_mod_converse(m, 60, d2 * 24 + h2, mi2);
    let h = m / 60;
    lemma_fundamental_div_mod_converse(h, 24, d1, h1);
    lemma_fundamental_div_mod_converse(h, 24, d2, h2);
}

/// First step of normalisation: a zero month or day borrows from the month
/// or year before it. Gives the year, month and day that result.
pub open spec fn borrow_zero(year: int, month: int, day: int) -> (int, int, int) {
    if month == 0 && day == 0 {
        (year - 1, 11, month_len(year - 1, 11))
    } else if month == 0 {
        (year - 1, 12, day)
    } else if day == 0 {
        if month == 1 {
            (year - 1, 12, month_len(year - 1, 12))
        } else {
            (year, month - 1, month_len(year, month - 1))
        }
    } else {
        (year, month, day)
    }
}

/// Whether civil fields resolve to a year before the epoch once a zero month
/// or day has borrowed from the one before.
pub open spec fn before_epoch(year: int, month: int, day: int) -> bool {
    borrow_zero(year, month, day).0 < 1970
}

/// What a field of `x` carries into the next larger unit of size `unit`:
/// nothing while `x` fits, else one more than `x % unit`.
pub open spec fn carry_out(x: int, unit: int) -> int {
    if x >= unit {
        x % unit + 1
    } else {
        0
    }
}

/// What a field of `x` keeps after carrying into the next larger unit.
pub open spec fn carry_keep(x: int, unit: int) -> int {
    if x >= unit {
        x % unit
    } else {
        x
    }
}

/// Civil fields that `Utc::from_ymdhms` takes: each at most `FIELD_MAX`,
/// and a month past 13 only with a day other than zero and when it is no
/// multiple of 12. (A zero day would borrow from a month past December, and
/// a multiple of 12 would leave month zero once the years are carried out.)
pub open spec fn civil_fields_supported(
    year: int, month: int, day: int, hour: int, minute: int, second: int,
) -> bool {
    &&& year <= FIELD_MAX
    &&& month <= FIELD_MAX
    &&& day <= FIELD_MAX
    &&& hour <= FIELD_MAX
    &&& minute <= FIELD_MAX
    &&& second <= FIELD_MAX
    &&& (month <= 13 || (day != 0 && month % 12 != 0))
}

/// The whole seconds since the epoch that civil fields stand for, after a
/// zero month or day borrowed, nanoseconds carried into seconds, seconds
/// into minutes, minutes into hours, hours into days, months past December
/// into years, and days past a month's end into the months after it.
pub open spec fn civil_seconds(
    year: int, month: int, day: int, hour: int, minute: int, second: int, nano: int,
) -> int {
    let borrowed = borrow_zero(year, month, day);
    let s = second + nano / (NANOS_PER_SECOND as int);
    let mi = minute + carry_out(s, 60);
    let h = hour + carry_out(mi, 60);
    let d = borrowed.2 + carry_out(h, 24);
    let y = if borrowed.1 > 12 { borrowed.0 + borrowed.1 % 12 } else { borrowed.0 };
    let m = if borrowed.1 > 12 { borrowed.1 % 12 } else { borrowed.1 };
    seconds_of(day_number(y, m, d), carry_keep(h, 24), carry_keep(mi, 60), carry_keep(s, 60))
}

/// Splits `x` into what it keeps and what it carries into the next unit.
fn carry(x: u64, unit: u64) -> (r: (u64, u64))
    requires
        0 < unit,
    ensures
        r.0 == carry_keep(x as int, unit as int),
        r.1 == carry_out(x as int, unit as int),
        r.0 < unit,
        r.1 <= unit,
{
    if x >= unit {
        (x % unit, x % unit + 1)
    } else {
        (x, 0)
    }
}

/// The day number of day `d` of month `m` of year `y`: days past the end of
/// the month first roll over into the months after it, then the lengths of
/// the years and months before the date are added up.
fn day_count(y: u64, m: u64, d: u64) -> (r: u64)
    requires
        y >= 1970,
        1 <= m <= 12,
        d >= 1,
        day_number(y as int, m as int, d as int) <= DAY_BOUND,
    ensures
        r == day_number(y as int, m as int, d as int),
{
    let ghost target = day_number(y as int, m as int, d as int);
    let mut y = y;
    let mut m = m;
    let mut d = d;
    while d > days_in_month(y, m)
        invariant
            1 <= m <= 12,
            d >= 1,
            y >= 1970,
            day_number(y as int, m as int, d as int) == target,
            target <= DAY_BOUND,
        decreases d,
    {
        proof {
            lemma_days_before_year_bounds(y as int);
            lemma_month_step(y as int, m as int);
        }
        d = d - days_in_month(y, m);
        if m == 12 {
            m = 1;
            y = y + 1;
        } else {
            m = m + 1;
        }
    }
    proof {
        lemma_month_step(y as int, m as int);
    }
    let mut days: u64 = 0;
    let mut k: u64 = 1970;
    while k < y
        invariant
            1970 <= k <= y,
            days == days_before_year(k as int),
            days_before_year(y as int) <= DAY_BOUND,
        decreases y - k,
    {
        proof {
            lemma_days_before_year_monotone(k as int, y as int);
        }
        days = days + days_in_year(k);
        k = k + 1;
    }
    let mut n: u64 = 1;
    while n < m
        invariant
            1 <= n <= m <= 12,
            days == days_before_year(y as int) + days_before_month(y as int, n as int),
            days_before_year(y as int) + days_before_month(y as int, m as int) <= DAY_BOUND,
        decreases m - n,
    {
        proof {
            lemma_month_step(y as int, n as int);
            lemma_month_step(y as int, m as int);
        }
        days = days + days_in_month(y, n);
        n = n + 1;
    }
    days + (d - 1)
}

/// Relies on `std::time::SystemTime::elapsed`, called on the Unix epoch: the
/// time from the epoch to the current reading of the system clock, or an
/// error where the clock stands before the epoch.
#[verifier::external_body]
fn elapsed_since_epoch() -> (r: Result<std::time::Duration, std::time::SystemTimeError>) {
    std::time::UNIX_EPOCH.elapsed()
}

/// The error of `SystemTime::elapsed`, carried through without a look inside.
#[verifier::external_type_specification]
#[verifier::external_body]
pub struct ExSystemTimeError(std::time::SystemTimeError);

/// Relies on `Duration::as_secs`: the whole seconds of a duration.
pub assume_specification[ core::time::Duration::as_secs ](d: &core::time::Duration) -> u64;

/// Relies on `Duration::subsec_nanos`: the fraction of a second, in
/// nanoseconds, which is always less than one billion.
pub assume_specification[ core::time::Duration::subsec_nanos ](d: &core::time::Duration) -> (r: u32)
    ensures
        r < 1_000_000_000,
;

impl Utc {
    /// The fields are in range and agree with one another.
    pub open spec fn wf(self) -> bool {
        &&& valid_date(self.spec_year() as int, self.spec_month() as int, self.spec_day() as int)
        &&& self.spec_hour() < 24
        &&& self.spec_minute() < 60
        &&& self.spec_second() < 60
        &&& self.spec_nano() < NANOS_PER_SECOND
        &&& self.spec_day_of_week() == weekday_of(self.days_since_epoch())
    }

    /// Whole days from the epoch to this moment's date.
    pub open spec fn days_since_epoch(self) -> int {
        day_number(self.spec_year() as int, self.spec_month() as int, self.spec_day() as int)
    }

    /// Whole seconds from the epoch to this moment.
    pub open spec fn seconds_since_epoch(self) -> int {
        seconds_of(
            self.days_since_epoch(),
            self.spec_hour() as int,
            self.spec_minute() as int,
            self.spec_second() as int,
        )
    }

    pub closed spec fn spec_year(self) -> u64 {
        self.year
    }

    pub closed spec fn spec_month(self) -> u64 {
        self.month
    }

    pub closed spec fn spec_day(self) -> u64 {
        self.day
    }

    pub closed spec fn spec_day_of_week(self) -> Weekday {
        self.day_of_week
    }

    pub closed spec fn spec_hour(self) -> u64 {
        self.hour
    }

    pub closed spec fn spec_minute(self) -> u64 {
        self.minute
    }

    pub closed spec fn spec_second(self) -> u64 {
        self.second
    }

    pub closed spec fn spec_nano(self) -> u32 {
        self.nano
    }

    /// A well-formed moment is fixed by the instant it stands for.
    pub proof fn lemma_instant_determines(a: Utc, b: Utc)
        requires
            a.wf(),
            b.wf(),
            a.seconds_since_epoch() == b.seconds_since_epoch(),
            a.spec_nano() == b.spec_nano(),
        ensures
            a == b,
    {
        lemma_seconds_of_injective(
            a.days_since_epoch(), a.hour as int, a.minute as int, a.second as int,
            b.days_since_epoch(), b.hour as int, b.minute as int, b.second as int,
        );
        lemma_day_number_injective(
            a.year as int, a.month as int, a.day as int,
            b.year as int, b.month as int, b.day as int,
        );
    }

    /// The moment `seconds` whole seconds and `nano` nanoseconds after the
    /// epoch.
    pub fn from_seconds_since_epoch(seconds: u64, nano: u32) -> (r: Utc)
        requires
            nano < NANOS_PER_SECOND,
        ensures
            r.wf(),
            r.seconds_since_epoch() == seconds,
            r.spec_nano() == nano,
    {
        let second = seconds % 60;
        let minutes = seconds / 60;
        let minute = minutes % 60;
        let hours = minutes / 60;
        let hour = hours % 24;
        let days = hours / 24;
        proof {
            lemma_fundamental_div_mod(seconds as int, 60);
            lemma_fundamental_div_mod(minutes as int, 60);
            lemma_fundamental_div_mod(hours as int, 24);
            assert(seconds_of(days as int, hour as int, minute as int, second as int) == seconds);
        }
        let day_of_week = Weekday::from_days_since_epoch(days);

        let mut year: u64 = 1970;
        let mut rest: u64 = days;
        while rest >= days_in_year(year)
            invariant
                year >= 1970,
                days_before_year(year as int) + rest == days,
                days_before_year(year as int) >= year - 1970,
                days <= u64::MAX / 86400,
            decreases rest,
        {
            rest = rest - days_in_year(year);
            year = year + 1;
        }
        let mut month: u64 = 1;
        proof {
            lemma_month_step(year as int, 1);
        }
        while rest >= days_in_month(year, month)
            invariant
                1 <= month <= 12,
                days_before_year(year as int) + days_before_month(year as int, month as int) + rest == days,
                days_before_month(year as int, month as int) + rest < year_len(year as int),
            decreases 12 - month,
        {
            proof {
                lemma_month_step(year as int, month as int);
            }
            rest = rest - days_in_month(year, month);
            month = month + 1;
            proof {
                lemma_month_step(year as int, month as int);
            }
        }
        Utc { year, month, day: rest + 1, day_of_week, hour, minute, second, nano }
    }

    /// Whether `from_ymdhms` takes these civil fields.
    pub fn fields_supported(
        year: u64, month: u64, day: u64, hour: u64, minute: u64, second: u64,
    ) -> (r: bool)
        ensures
            r == civil_fields_supported(
                year as int, month as int, day as int, hour as int, minute as int, second as int,
            ),
    {
        year <= FIELD_MAX && month <= FIELD_MAX && day <= FIELD_MAX && hour <= FIELD_MAX
            && minute <= FIELD_MAX && second <= FIELD_MAX && (month <= 13 || (day != 0 && month
            % 12 != 0))
    }

    /// The moment that civil fields describe. Out-of-range fields are
    /// normalised: see `civil_seconds`. Fails with `BeforeEpoch` exactly when
    /// the fields resolve to a year before 1970.
    pub fn from_ymdhms(
        year: u64, month: u64, day: u64, hour: u64, minute: u64, second: u64, nano: u32,
    ) -> (r: Result<Utc, DateError>)
        requires
            civil_fields_supported(
                year as int, month as int, day as int, hour as int, minute as int, second as int,
            ),
        ensures
            r is Err <==> before_epoch(year as int, month as int, day as int),
            r matches Ok(u) ==> {
                &&& u.wf()
                &&& u.seconds_since_epoch() == civil_seconds(
                    year as int, month as int, day as int, hour as int, minute as int,
                    second as int, nano as int,
                )
                &&& u.spec_nano() == nano % NANOS_PER_SECOND
            },
            r matches Err(e) ==> e == DateError::BeforeEpoch,
    {
        if year < 1970 {
            return Err(DateError::BeforeEpoch);
        }
        let (mut y, mut m, d) = if month == 0 && day == 0 {
            (year - 1, 11u64, days_in_month(year - 1, 11))
        } else if month == 0 {
            (year - 1, 12u64, day)
        } else if day == 0 {
            if month == 1 {
                (year - 1, 12u64, days_in_month(year - 1, 12))
            } else {
                (year, month - 1, days_in_month(year, month - 1))
            }
        } else {
            (year, month, day)
        };
        if y < 1970 {
            return Err(DateError::BeforeEpoch);
        }
        let s0: u64 = second + (nano / NANOS_PER_SECOND) as u64;
        let (s, c1) = carry(s0, 60);
        let (mi, c2) = carry(minute + c1, 60);
        let (h, c3) = carry(hour + c2, 24);
        let d = d + c3;
        if m > 12 {
            y = y + m % 12;
            m = m % 12;
        }
        proof {
            lemma_days_before_year_bounds(y as int);
        }
        let days = day_count(y, m, d);
        assert(((days * 24 + h) * 60 + mi) * 60 + s <= u64::MAX) by (nonlinear_arith)
            requires
                days <= DAY_BOUND,
                h < 24,
                mi < 60,
                s < 60,
        ;
        let total = ((days * 24 + h) * 60 + mi) * 60 + s;
        Ok(Utc::from_seconds_since_epoch(total, nano % NANOS_PER_SECOND))
    }

    /// The moment at the start of a date: `from_ymdhms` with a zero time.
    pub fn from_ymd(year: u64, month: u64, day: u64) -> (r: Result<Utc, DateError>)
        requires
            civil_fields_supported(year as int, month as int, day as int, 0, 0, 0),
        ensures
            r is Err <==> before_epoch(year as int, month as int, day as int),
            r matches Ok(u) ==> {
                &&& u.wf()
                &&& u.seconds_since_epoch() == civil_seconds(
                    year as int, month as int, day as int, 0, 0, 0, 0,
                )
                &&& u.spec_nano() == 0
            },
            r matches Err(e) ==> e == DateError::BeforeEpoch,
    {
        Utc::from_ymdhms(year, month, day, 0, 0, 0, 0)
    }

    /// The current moment, read from the system clock; `None` where the
    /// clock stands before the epoch.
    pub fn now() -> (r: Option<Utc>)
        ensures
            r matches Some(u) ==> u.wf(),
    {
        match elapsed_since_epoch() {
            Ok(d) => Some(Utc::from_seconds_since_epoch(d.as_secs(), d.subsec_nanos())),
            Err(_) => None,
        }
    }

    /// The Unix epoch, 1970-01-01T00:00:00.
    pub fn epoch() -> (r: Utc)
        ensures
            r.wf(),
            r.seconds_since_epoch() == 0,
            r.spec_nano() == 0,
            r.spec_year() == 1970,
            r.spec_month() == 1,
            r.spec_day() == 1,
            r.spec_day_of_week() == Weekday::Thursday,
    {
        let r = Utc::from_seconds_since_epoch(0, 0);
        proof {
            Utc::lemma_instant_determines(r, Utc {
                year: 1970,
                month: 1,
                day: 1,
                day_of_week: Weekday::Thursday,
                hour: 0,
                minute: 0,
                second: 0,
                nano: 0,
            });
        }
        r
    }

    /// The year.
    pub fn year(&self) -> (r: u64)
        ensures
            r == self.spec_year(),
    {
        self.year
    }

    /// The month, from 1 to 12.
    pub fn month(&self) -> (r: u64)
        ensures
            r == self.spec_month(),
    {
        self.month
    }

    /// The English name of the month.
    pub fn month_of_year(&self) -> (r: &'static str)
        requires
            self.wf(),
        ensures
            r@ == month_of(self.spec_month() as int).spec_name(),
    {
        Month::from_number(self.month).name()
    }

    /// The day of the month, from 1.
    pub fn day(&self) -> (r: u64)
        ensures
            r == self.spec_day(),
    {
        self.day
    }

    /// The day of the week.
    pub fn weekday(&self) -> (r: Weekday)
        ensures
            r == self.spec_day_of_week(),
    {
        self.day_of_week
    }

    /// The English name of the day of the week.
    pub fn day_of_week(&self) -> (r: &'static str)
        ensures
            r@ == self.spec_day_of_week().spec_name(),
    {
        self.day_of_week.name()
    }

    /// The hour, from 0 to 23.
    pub fn hour(&self) -> (r: u64)
        ensures
            r == self.spec_hour(),
    {
        self.hour
    }

    /// The minute, from 0 to 59.
    pub fn minute(&self) -> (r: u64)
        ensures
            r == self.spec_minute(),
    {
        self.minute
    }

    /// The whole second, from 0 to 59.
    pub fn second(&self) -> (r: u64)
        ensures
            r == self.spec_second(),
    {
        self.second
    }

    /// The nanoseconds past the whole second.
    pub fn nano(&self) -> (r: u32)
        ensures
            r == self.spec_nano(),
    {
        self.nano
    }

    /// The second with its fraction, in nanoseconds.
    pub fn second_with_nano(&self) -> (r: u64)
        requires
            self.wf(),
        ensures
            r == self.spec_second() * NANOS_PER_SECOND + self.spec_nano(),
    {
        self.second * (NANOS_PER_SECOND as u64) + self.nano as u64
    }
}


/// The order of two numbers.
pub open spec fn order_of(a: int, b: int) -> core::cmp::Ordering {
    if a < b {
        core::cmp::Ordering::Less
    } else if a > b {
        core::cmp::Ordering::Greater
    } else {
        core::cmp::Ordering::Equal
    }
}

/// Compares two numbers.
fn compare(a: u64, b: u64) -> (r: core::cmp::Ordering)
    ensures
        r == order_of(a as int, b as int),
{
    if a < b {
        core::cmp::Ordering::Less
    } else if a > b {
        core::cmp::Ordering::Greater
    } else {
        core::cmp::Ordering::Equal
    }
}

impl Utc {
    /// Moments in order of year, then month, day, hour, minute, second and
    /// nanosecond.
    pub open spec fn spec_compare(self, other: Utc) -> core::cmp::Ordering {
        if self.spec_year() != other.spec_year() {
            order_of(self.spec_year() as int, other.spec_year() as int)
        } else if self.spec_month() != other.spec_month() {
            order_of(self.spec_month() as int, other.spec_month() as int)
        } else if self.spec_day() != other.spec_day() {
            order_of(self.spec_day() as int, other.spec_day() as int)
        } else if self.spec_hour() != other.spec_hour() {
            order_of(self.spec_hour() as int, other.spec_hour() as int)
        } else if self.spec_minute() != other.spec_minute() {
            order_of(self.spec_minute() as int, other.spec_minute() as int)
        } else if self.spec_second() != other.spec_second() {
            order_of(self.spec_second() as int, other.spec_second() as int)
        } else {
            order_of(self.spec_nano() as int, other.spec_nano() as int)
        }
    }
}

impl PartialOrd for Utc {
    fn partial_cmp(&self, other: &Utc) -> (r: Option<core::cmp::Ordering>)
        ensures
            r == Some(self.spec_compare(*other)),
    {
        let fields = [
            (self.year, other.year),
            (self.month, other.month),
            (self.day, other.day),
            (self.hour, other.hour),
            (self.minute, other.minute),
            (self.second, other.second),
        ];
        let mut i: usize = 0;
        while i < 6
            invariant
                i <= 6,
                fields@ == seq![
                    (self.year, other.year),
                    (self.month, other.month),
                    (self.day, other.day),
                    (self.hour, other.hour),
                    (self.minute, other.minute),
                    (self.second, other.second),
                ],
                forall|j: int| 0 <= j < i ==> fields@[j].0 == fields@[j].1,
            decreases 6 - i,
        {
            let (a, b) = fields[i];
            if a != b {
                return Some(compare(a, b));
            }
            i = i + 1;
        }
        Some(compare(self.nano as u64, other.nano as u64))
    }
}

impl vstd::std_specs::cmp::PartialOrdSpecImpl for Utc {
    open spec fn obeys_partial_cmp_spec() -> bool {
        true
    }

    open spec fn partial_cmp_spec(&self, other: &Utc) -> Option<core::cmp::Ordering> {
        Some(self.spec_compare(*other))
    }
}

} // verus!
