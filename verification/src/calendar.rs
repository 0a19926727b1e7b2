//! The proleptic Gregorian calendar: the date a number of days after
//! 1970-01-01, and the fact that Howard Hinnant's day arithmetic computes it.

use vstd::prelude::*;
use crate::history::civil_from_days_spec;

verus! {

/// Year `y` is a leap year: divisible by 4, and not by 100 unless by 400.
pub open spec fn is_leap_year(y: int) -> bool {
    y % 4 == 0 && (y % 100 != 0 || y % 400 == 0)
}

/// The number of days of month `m` of year `y`.
pub open spec fn days_in_month(y: int, m: int) -> int {
    if m == 2 {
        if is_leap_year(y) {
            29
        } else {
            28
        }
    } else if m == 4 || m == 6 || m == 9 || m == 11 {
        30
    } else {
        31
    }
}

/// The day after the date (year, month, day).
pub open spec fn next_day(date: (int, int, int)) -> (int, int, int) {
    let (y, m, d) = date;
    if d < days_in_month(y, m) {
        (y, m, d + 1)
    } else if m < 12 {
        (y, m + 1, 1)
    } else {
        (y + 1, 1, 1)
    }
}

/// The date `n` days after 1970-01-01.
pub open spec fn date_after_epoch(n: nat) -> (int, int, int)
    decreases n,
{
    if n == 0 {
        (1970, 1, 1)
    } else {
        next_day(date_after_epoch((n - 1) as nat))
    }
}

/// The first day of year `y` of an era (years counted from March), as days
/// since the era's start.
spec fn era_year_start(y: int) -> int {
    365 * y + y / 4 - y / 100
}

/// The number of days of year `y` of an era (from March to the end of the
/// next February).
spec fn era_year_len(y: int) -> int {
    if (y + 1) % 4 == 0 && ((y + 1) % 100 != 0 || y + 1 == 400) {
        366
    } else {
        365
    }
}

/// The year of an era that day `doe` falls in.
spec fn year_of_era(doe: int) -> int {
    (doe - doe / 1460 + doe / 36_524 - doe / 146_096) / 365
}

/// Day `doe` of an era lies in the year that the formula gives.
#[verifier::rlimit(50)]
proof fn lemma_year_of_era(doe: int)
    requires
        0 <= doe < 146_097,
    ensures
        0 <= year_of_era(doe) < 400,
        era_year_start(year_of_era(doe)) <= doe < era_year_start(year_of_era(doe)) + era_year_len(
            year_of_era(doe),
        ),
{
}

/// The years of an era follow one another without gaps.
proof fn lemma_years_adjacent(y: int)
    requires
        0 <= y < 399,
    ensures
        era_year_start(y) + era_year_len(y) == era_year_start(y + 1),
{
}

/// The month index (March first) of day `k` of a March-based year.
spec fn month_index(k: int) -> int {
    (5 * k + 2) / 153
}

/// The day of the month of day `k` of a March-based year.
spec fn day_of(k: int) -> int {
    k - (153 * month_index(k) + 2) / 5 + 1
}

/// The calendar month of day `k` of a March-based year.
spec fn month_of(k: int) -> int {
    if month_index(k) < 10 {
        month_index(k) + 3
    } else {
        month_index(k) - 9
    }
}

/// The length of month `m` in a March-based year whose February has 29 days
/// exactly when `leap`.
spec fn month_len(m: int, leap: bool) -> int {
    if m == 2 {
        if leap {
            29
        } else {
            28
        }
    } else if m == 4 || m == 6 || m == 9 || m == 11 {
        30
    } else {
        31
    }
}

/// The number of days of a March-based year whose February has 29 days
/// exactly when `leap`.
spec fn year_len(leap: bool) -> int {
    if leap {
        366
    } else {
        365
    }
}

/// Within a March-based year, the formula's month and day move on by one
/// day, and the last day is the end of February.
proof fn lemma_day_step(k: int, leap: bool)
    requires
        0 <= k,
        k + 1 <= year_len(leap),
    ensures
        1 <= month_of(k) <= 12,
        1 <= day_of(k) <= month_len(month_of(k), leap),
        k + 1 < year_len(leap) ==> (if day_of(k) < month_len(month_of(k), leap) {
            month_of(k + 1) == month_of(k) && day_of(k + 1) == day_of(k) + 1
        } else if month_of(k) < 12 {
            month_of(k + 1) == month_of(k) + 1 && day_of(k + 1) == 1
        } else {
            month_of(k + 1) == 1 && day_of(k + 1) == 1
        }),
        k + 1 == year_len(leap) ==> month_of(k) == 2 && day_of(k) == month_len(2, leap),
        month_of(k) == 2 ==> month_index(k) == 11,
        month_of(k) == 1 ==> month_index(k) == 10,
{
}


/// A day lies in one year of an era only.
proof fn lemma_year_unique(a: int, b: int, x: int)
    requires
        0 <= a < 400,
        0 <= b < 400,
        era_year_start(a) <= x < era_year_start(a) + era_year_len(a),
        era_year_start(b) <= x < era_year_start(b) + era_year_len(b),
    ensures
        a == b,
{
    if a < b {
        lemma_years_adjacent(a);
        assert(era_year_start(a + 1) <= era_year_start(b));
    } else if b < a {
        lemma_years_adjacent(b);
        assert(era_year_start(b + 1) <= era_year_start(a));
    }
}

/// Year `y0 + 1 + 400 * era` is a leap year exactly when year `y0` of an era
/// has 366 days.
proof fn lemma_leap_of_era_year(y0: int, era: int)
    requires
        0 <= y0 < 400,
    ensures
        is_leap_year(y0 + 1 + era * 400) == (era_year_len(y0) == 366),
{
    let y = y0 + 1 + era * 400;
    vstd::arithmetic::div_mod::lemma_mod_multiples_vanish(era * 100, y0 + 1, 4);
    vstd::arithmetic::div_mod::lemma_mod_multiples_vanish(era * 4, y0 + 1, 100);
    vstd::arithmetic::div_mod::lemma_mod_multiples_vanish(era, y0 + 1, 400);
    assert(4 * (era * 100) + (y0 + 1) == y);
    assert(100 * (era * 4) + (y0 + 1) == y);
    assert(400 * era + (y0 + 1) == y);
}

/// The date of day `k` of year `y0` of era `era` (years counted from March).
spec fn era_date(era: int, y0: int, k: int) -> (int, int, int) {
    let y = y0 + era * 400;
    (if month_of(k) <= 2 {
        y + 1
    } else {
        y
    }, month_of(k), day_of(k))
}

/// Hinnant's date of a day is the date of its day in its year of its era.
proof fn lemma_civil_split(z: int)
    ensures
        ({
            let zz = z + 719_468;
            let era = zz / 146_097;
            let doe = zz - era * 146_097;
            let y0 = year_of_era(doe);
            civil_from_days_spec(z) == era_date(era, y0, doe - era_year_start(y0))
        }),
{
}

/// Within a year, the date of the next day is the day after.
proof fn lemma_era_date_step(era: int, y0: int, k: int)
    requires
        0 <= y0 < 400,
        0 <= k,
        k + 1 < era_year_len(y0),
    ensures
        era_date(era, y0, k + 1) == next_day(era_date(era, y0, k)),
{
    let leap = era_year_len(y0) == 366;
    assert(era_year_len(y0) == year_len(leap));
    lemma_day_step(k, leap);
    lemma_leap_of_era_year(y0, era);
}

/// The day after the last day of a year of an era is the first day of the
/// next year.
proof fn lemma_era_date_year_end(era: int, y0: int)
    requires
        0 <= y0 < 400,
    ensures
        era_date(era, y0 + 1, 0) == next_day(era_date(era, y0, era_year_len(y0) - 1)),
{
    let leap = era_year_len(y0) == 366;
    assert(era_year_len(y0) == year_len(leap));
    lemma_day_step(era_year_len(y0) - 1, leap);
    lemma_leap_of_era_year(y0, era);
    assert(month_index(0) == 0);
    assert(day_of(0) == 1);
}

/// Hinnant's day arithmetic moves on by one day: the date of day `z + 1` is
/// the day after the date of day `z`.
proof fn lemma_civil_step(z: int)
    ensures
        civil_from_days_spec(z + 1) == next_day(civil_from_days_spec(z)),
{
    let zz = z + 719_468;
    let era = zz / 146_097;
    let doe = zz - era * 146_097;
    lemma_civil_split(z);
    lemma_civil_split(z + 1);
    lemma_year_of_era(doe);
    let y0 = year_of_era(doe);
    let k0 = doe - era_year_start(y0);
    if doe + 1 < 146_097 {
        assert((zz + 1) / 146_097 == era);
        lemma_year_of_era(doe + 1);
        let y1 = year_of_era(doe + 1);
        if k0 + 1 < era_year_len(y0) {
            lemma_year_unique(y1, y0, doe + 1);
            lemma_era_date_step(era, y0, k0);
        } else {
            lemma_years_adjacent(y0);
            lemma_year_unique(y1, y0 + 1, doe + 1);
            lemma_era_date_year_end(era, y0);
        }
    } else {
        assert((zz + 1) / 146_097 == era + 1);
        assert(year_of_era(0) == 0);
        assert(y0 == 399);
        lemma_era_date_year_end(era, y0);
        assert(era_date(era, 400, 0) == era_date(era + 1, 0, 0));
    }
}

/// Hinnant's day arithmetic gives the calendar: the date it computes for
/// day `z` is the date `z` days after 1970-01-01.
pub proof fn law_civil_from_days_is_the_calendar(z: nat)
    ensures
        civil_from_days_spec(z as int) == date_after_epoch(z),
    decreases z,
{
    if z == 0 {
        assert(719_468int / 146_097 == 4);
        assert(year_of_era(135_080) == 369);
        assert(month_index(306) == 10);
        assert(day_of(306) == 1);
        assert(civil_from_days_spec(0) == (1970int, 1int, 1int));
    } else {
        law_civil_from_days_is_the_calendar((z - 1) as nat);
        lemma_civil_step(z - 1);
    }
}

/// Hinnant's day arithmetic, for every count of days before or after the
/// epoch, gives a valid date: a month from 1 to 12 and a day within the
/// month. Day 0 is 1970-01-01, and the date of day `z + 1` is the day after
/// the date of day `z`.
pub proof fn law_civil_days_step(z: int)
    ensures
        ({
            let (y, m, d) = civil_from_days_spec(z);
            1 <= m <= 12 && 1 <= d <= days_in_month(y, m)
        }),
        civil_from_days_spec(0) == (1970int, 1int, 1int),
        civil_from_days_spec(z + 1) == next_day(civil_from_days_spec(z)),
{
    let zz = z + 719_468;
    let era = zz / 146_097;
    let doe = zz - era * 146_097;
    lemma_civil_split(z);
    lemma_year_of_era(doe);
    let y0 = year_of_era(doe);
    let k = doe - era_year_start(y0);
    let leap = era_year_len(y0) == 366;
    assert(era_year_len(y0) == year_len(leap));
    lemma_day_step(k, leap);
    lemma_leap_of_era_year(y0, era);
    law_civil_from_days_is_the_calendar(0);
    lemma_civil_step(z);
}

} // verus!
