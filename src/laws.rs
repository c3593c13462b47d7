//! Laws that relate the conversions to one another.
use vstd::prelude::*;
use crate::calendar::{lemma_day_number_ordered, lemma_days_before_year_bounds};
use crate::utc::{
    before_epoch, civil_fields_supported, civil_seconds, order_of, seconds_of, Utc, FIELD_MAX,
    NANOS_PER_SECOND,
};

verus! {

/// Round trip: the civil fields of a well-formed moment (whose year is one
/// that `from_ymdhms` takes) lead back to the very same moment. They are
/// supported and not before the epoch, they stand for the moment's own
/// instant and nanoseconds, and that instant fixes the moment.
pub proof fn law_round_trip(m: Utc)
    requires
        m.wf(),
        m.spec_year() <= FIELD_MAX,
    ensures
        civil_fields_supported(
            m.spec_year() as int,
            m.spec_month() as int,
            m.spec_day() as int,
            m.spec_hour() as int,
            m.spec_minute() as int,
            m.spec_second() as int,
        ),
        !before_epoch(m.spec_year() as int, m.spec_month() as int, m.spec_day() as int),
        civil_seconds(
            m.spec_year() as int,
            m.spec_month() as int,
            m.spec_day() as int,
            m.spec_hour() as int,
            m.spec_minute() as int,
            m.spec_second() as int,
            m.spec_nano() as int,
        ) == m.seconds_since_epoch(),
        m.spec_nano() % NANOS_PER_SECOND == m.spec_nano(),
        forall|u: Utc|
            u.wf() && u.seconds_since_epoch() == m.seconds_since_epoch() && u.spec_nano()
                == m.spec_nano() ==> u == m,
{
    assert forall|u: Utc|
        u.wf() && u.seconds_since_epoch() == m.seconds_since_epoch() && u.spec_nano()
            == m.spec_nano() implies u == m by {
        Utc::lemma_instant_determines(u, m);
    }
}

/// Day enumeration: the day numbers `n = 1, 2, 3, ...` of January 1970 name
/// the days after the epoch one at a time, each exactly one day after the
/// one before, so that no day is skipped or repeated.
pub proof fn law_day_enumeration(n: int)
    requires
        1 <= n <= FIELD_MAX,
    ensures
        civil_fields_supported(1970, 1, n, 0, 0, 0),
        !before_epoch(1970, 1, n),
        civil_seconds(1970, 1, n, 0, 0, 0, 0) == seconds_of(n - 1, 0, 0, 0),
        seconds_of(n, 0, 0, 0) == seconds_of(n - 1, 0, 0, 0) + 86400,
{
}

/// The enumeration reaches every date: the start of the day of any
/// well-formed moment is day `days_since_epoch() + 1` of January 1970.
pub proof fn law_enumeration_reaches(m: Utc)
    requires
        m.wf(),
        m.days_since_epoch() + 1 <= FIELD_MAX,
    ensures
        1 <= m.days_since_epoch() + 1,
        civil_fields_supported(1970, 1, m.days_since_epoch() + 1, 0, 0, 0),
        !before_epoch(1970, 1, m.days_since_epoch() + 1),
        civil_seconds(1970, 1, m.days_since_epoch() + 1, 0, 0, 0, 0) == seconds_of(
            m.days_since_epoch(),
            0,
            0,
            0,
        ),
{
    lemma_days_before_year_bounds(m.spec_year() as int);
    law_day_enumeration(m.days_since_epoch() + 1);
}


/// The order of moments by their fields is their order in time: by whole
/// seconds since the epoch, then by nanoseconds.
pub proof fn law_order_is_chronological(a: Utc, b: Utc)
    requires
        a.wf(),
        b.wf(),
    ensures
        a.spec_compare(b) == if a.seconds_since_epoch() != b.seconds_since_epoch() {
            order_of(a.seconds_since_epoch(), b.seconds_since_epoch())
        } else {
            order_of(a.spec_nano() as int, b.spec_nano() as int)
        },
{
    let (ya, ma, da) = (a.spec_year() as int, a.spec_month() as int, a.spec_day() as int);
    let (yb, mb, db) = (b.spec_year() as int, b.spec_month() as int, b.spec_day() as int);
    if ya < yb || (ya == yb && ma < mb) || (ya == yb && ma == mb && da < db) {
        lemma_day_number_ordered(ya, ma, da, yb, mb, db);
    } else if yb < ya || (ya == yb && mb < ma) || (ya == yb && ma == mb && db < da) {
        lemma_day_number_ordered(yb, mb, db, ya, ma, da);
    }
}

} // verus!
