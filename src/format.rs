//! Text renderings of a moment: `YYYY-MM-DDTHH:MM:SS`, optionally with a
//! fraction of a second, and the HTTP date `Ddd, DD Mon YYYY HH:MM:SS GMT`.
use vstd::prelude::*;
use crate::calendar::{month_of, Month};
use crate::utc::Utc;

verus! {

/// The character of decimal digit `d`.
pub open spec fn digit_char(d: int) -> char {
    if d == 0 {
        '0'
    } else if d == 1 {
        '1'
    } else if d == 2 {
        '2'
    } else if d == 3 {
        '3'
    } else if d == 4 {
        '4'
    } else if d == 5 {
        '5'
    } else if d == 6 {
        '6'
    } else if d == 7 {
        '7'
    } else if d == 8 {
        '8'
    } else {
        '9'
    }
}

/// The decimal digits of `n`, with zeros in front to make at least `width`
/// characters.
pub open spec fn padded(n: nat, width: nat) -> Seq<char>
    decreases n + width,
{
    if n < 10 && width <= 1 {
        seq![digit_char(n as int)]
    } else {
        let rest: nat = if width > 0 { (width - 1) as nat } else { 0 };
        padded(n / 10, rest).push(digit_char((n % 10) as int))
    }
}

/// Ten to the power `k`.
pub open spec fn pow10(k: nat) -> nat
    decreases k,
{
    if k == 0 {
        1
    } else {
        10 * pow10((k - 1) as nat)
    }
}

/// `nano` nanoseconds in units of ten to the power `-precision` seconds
/// (`precision` at most 9), rounded to the nearest and on a tie to the even.
pub open spec fn rounded_fraction(nano: nat, precision: nat) -> nat {
    let unit = pow10((9 - precision) as nat);
    let q = nano / unit;
    let r = nano % unit;
    if 2 * r > unit || (2 * r == unit && q % 2 == 1) {
        q + 1
    } else {
        q
    }
}

/// The first `precision` digits after the decimal point of `nano`
/// nanoseconds, rounded; a fraction that rounds up to a whole second shows
/// as zeros.
pub open spec fn fraction_digits(nano: nat, precision: nat) -> Seq<char> {
    if precision <= 9 {
        padded(rounded_fraction(nano, precision) % pow10(precision), precision)
    } else {
        padded(nano, 9) + Seq::new((precision - 9) as nat, |i: int| '0')
    }
}

/// `YYYY-MM-DDTHH:MM:SS` for a moment.
pub open spec fn basic_timestamp(u: Utc) -> Seq<char> {
    padded(u.spec_year() as nat, 4) + "-"@ + padded(u.spec_month() as nat, 2) + "-"@
        + padded(u.spec_day() as nat, 2) + "T"@ + padded(u.spec_hour() as nat, 2) + ":"@
        + padded(u.spec_minute() as nat, 2) + ":"@ + padded(u.spec_second() as nat, 2)
}

/// `Ddd, DD Mon YYYY HH:MM:SS GMT` for a moment.
pub open spec fn http_date(u: Utc) -> Seq<char> {
    u.spec_day_of_week().spec_name().subrange(0, 3) + ", "@ + padded(u.spec_day() as nat, 2)
        + " "@ + month_of(u.spec_month() as int).spec_name().subrange(0, 3) + " "@
        + padded(u.spec_year() as nat, 4) + " "@ + padded(u.spec_hour() as nat, 2) + ":"@
        + padded(u.spec_minute() as nat, 2) + ":"@ + padded(u.spec_second() as nat, 2)
        + " GMT"@
}

/// Appends the digit `d`.
fn push_digit(s: &mut String, d: u64)
    requires
        d < 10,
    ensures
        final(s)@ == old(s)@.push(digit_char(d as int)),
{
    proof {
        reveal_strlit("0");
        reveal_strlit("1");
        reveal_strlit("2");
        reveal_strlit("3");
        reveal_strlit("4");
        reveal_strlit("5");
        reveal_strlit("6");
        reveal_strlit("7");
        reveal_strlit("8");
        reveal_strlit("9");
    }
    let t = if d == 0 {
        "0"
    } else if d == 1 {
        "1"
    } else if d == 2 {
        "2"
    } else if d == 3 {
        "3"
    } else if d == 4 {
        "4"
    } else if d == 5 {
        "5"
    } else if d == 6 {
        "6"
    } else if d == 7 {
        "7"
    } else if d == 8 {
        "8"
    } else {
        "9"
    };
    s.append(t);
    assert(t@ =~= seq![digit_char(d as int)]);
}

/// Appends the decimal digits of `n`, zero-padded to `width`.
fn push_padded(s: &mut String, n: u64, width: u64)
    ensures
        final(s)@ == old(s)@ + padded(n as nat, width as nat),
    decreases n + width,
{
    if !(n < 10 && width <= 1) {
        let rest: u64 = if width > 0 { width - 1 } else { 0 };
        push_padded(s, n / 10, rest);
    }
    push_digit(s, n % 10);
    assert(s@ =~= old(s)@ + padded(n as nat, width as nat));
}

/// Ten to the power `k`, for `k` up to 9.
fn pow10_of(k: u64) -> (r: u64)
    requires
        k <= 9,
    ensures
        r == pow10(k as nat),
        1 <= r <= 1_000_000_000,
{
    proof {
        reveal_with_fuel(pow10, 10);
    }
    if k == 0 {
        1
    } else if k == 1 {
        10
    } else if k == 2 {
        100
    } else if k == 3 {
        1000
    } else if k == 4 {
        10000
    } else if k == 5 {
        100000
    } else if k == 6 {
        1000000
    } else if k == 7 {
        10000000
    } else if k == 8 {
        100000000
    } else {
        1_000_000_000
    }
}

/// Appends the first `precision` digits of the fraction `nano` nanoseconds.
fn push_fraction(s: &mut String, nano: u32, precision: u64)
    requires
        nano < 1_000_000_000,
    ensures
        final(s)@ == old(s)@ + fraction_digits(nano as nat, precision as nat),
{
    if precision <= 9 {
        let unit = pow10_of(9 - precision);
        let nano = nano as u64;
        let q = nano / unit;
        let r = nano % unit;
        let rounded = if 2 * r > unit || (2 * r == unit && q % 2 == 1) {
            q + 1
        } else {
            q
        };
        push_padded(s, rounded % pow10_of(precision), precision);
    } else {
        push_padded(s, nano as u64, 9);
        let ghost digits = s@;
        let mut i: u64 = 9;
        while i < precision
            invariant
                9 <= i <= precision,
                s@ == digits + Seq::new((i - 9) as nat, |j: int| '0'),
            decreases precision - i,
        {
            proof {
                reveal_strlit("0");
            }
            s.append("0");
            i = i + 1;
            assert(s@ =~= digits + Seq::new((i - 9) as nat, |j: int| '0'));
        }
        assert(s@ =~= old(s)@ + fraction_digits(nano as nat, precision as nat));
    }
}

impl Utc {
    /// The moment as `YYYY-MM-DDTHH:MM:SS`, each field zero-padded.
    pub fn as_rfc3339(&self) -> (r: String)
        ensures
            r@ == basic_timestamp(*self),
    {
        let mut s = String::new();
        push_padded(&mut s, self.year(), 4);
        s.append("-");
        push_padded(&mut s, self.month(), 2);
        s.append("-");
        push_padded(&mut s, self.day(), 2);
        s.append("T");
        push_padded(&mut s, self.hour(), 2);
        s.append(":");
        push_padded(&mut s, self.minute(), 2);
        s.append(":");
        push_padded(&mut s, self.second(), 2);
        assert(s@ =~= basic_timestamp(*self));
        s
    }

    /// The moment as `YYYY-MM-DDTHH:MM:SS.f`, with `precision` digits of
    /// the fraction of a second.
    pub fn as_rfc3339_with_nano(&self, precision: usize) -> (r: String)
        requires
            self.wf(),
            precision >= 1,
        ensures
            r@ == basic_timestamp(*self) + "."@ + fraction_digits(
                self.spec_nano() as nat,
                precision as nat,
            ),
    {
        let mut s = self.as_rfc3339();
        s.append(".");
        push_fraction(&mut s, self.nano(), precision as u64);
        s
    }

    /// The moment as `YYYY-MM-DDTHH:MM:SS.ffffff`, to the microsecond.
    pub fn as_rfc3339_nano(&self) -> (r: String)
        requires
            self.wf(),
        ensures
            r@ == basic_timestamp(*self) + "."@ + fraction_digits(self.spec_nano() as nat, 6),
    {
        self.as_rfc3339_with_nano(6)
    }

    /// The moment as an HTTP date, `Ddd, DD Mon YYYY HH:MM:SS GMT`.
    pub fn as_rfc7231(&self) -> (r: String)
        requires
            self.wf(),
        ensures
            r@ == http_date(*self),
    {
        let mut s = String::new();
        s.append(self.weekday().abbreviation());
        s.append(", ");
        push_padded(&mut s, self.day(), 2);
        s.append(" ");
        s.append(Month::from_number(self.month()).abbreviation());
        s.append(" ");
        push_padded(&mut s, self.year(), 4);
        s.append(" ");
        push_padded(&mut s, self.hour(), 2);
        s.append(":");
        push_padded(&mut s, self.minute(), 2);
        s.append(":");
        push_padded(&mut s, self.second(), 2);
        s.append(" GMT");
        assert(s@ =~= http_date(*self));
        s
    }
}

} // verus!
