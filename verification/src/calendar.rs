//! Proleptic Gregorian calendar dates of day counts since the Unix epoch,
//! used to label bar rows that carry only a timestamp.

use vstd::prelude::*;

verus! {

/// A leap year of the proleptic Gregorian calendar.
pub open spec fn is_leap(y: int) -> bool {
    (y % 4 == 0 && y % 100 != 0) || y % 400 == 0
}

/// Number of days in year `y`.
pub open spec fn year_len(y: int) -> int {
    if is_leap(y) {
        366
    } else {
        365
    }
}

/// Number of days in month `m` (1 = January) of year `y`.
pub open spec fn days_in_month(y: int, m: int) -> int {
    if m == 2 {
        if is_leap(y) {
            29
        } else {
            28
        }
    } else if m == 4 || m == 6 || m == 9 || m == 11 {
        30
    } else {
        31
    }
}

/// Days in the months of year `y` that come before month `m`.
pub open spec fn days_before_month(y: int, m: int) -> int
    decreases m,
{
    if m <= 1 {
        0
    } else {
        days_before_month(y, m - 1) + days_in_month(y, m - 1)
    }
}

/// Days from 1970-01-01 to January 1st of year `y` (negative before 1970).
pub open spec fn days_before_year(y: int) -> int
    decreases (if y >= 1970 { y - 1970 } else { 1970 - y }),
{
    if y == 1970 {
        0
    } else if y > 1970 {
        days_before_year(y - 1) + year_len(y - 1)
    } else {
        days_before_year(y + 1) - year_len(y)
    }
}

/// Days from 1970-01-01 to the date `y`-`m`-`d`.
pub open spec fn days_from_civil(y: int, m: int, d: int) -> int {
    days_before_year(y) + days_before_month(y, m) + d - 1
}

/// Leap-year count by floor division: `leaps_through(b) - leaps_through(a)`
/// is the number of leap years in `a + 1 ..= b`.
spec fn leaps_through(y: int) -> int {
    y / 4 - y / 100 + y / 400
}

/// Start of year `yoe` of a 400-year cycle, counted in days from the
/// cycle's March 1st.
spec fn cycle_year_start(yoe: int) -> int {
    365 * yoe + yoe / 4 - yoe / 100
}

/// Days of month `mp` of a year counted from March (0 = March,
/// 11 = February of the next year).
spec fn march_month_len(mp: int, leap: bool) -> int {
    if mp == 11 {
        if leap {
            29
        } else {
            28
        }
    } else if mp == 1 || mp == 3 || mp == 6 || mp == 8 {
        30
    } else {
        31
    }
}

proof fn lemma_leaps_step(y: int)
    ensures
        leaps_through(y) == leaps_through(y - 1) + (if is_leap(y) { 1int } else { 0int }),
{
}

proof fn lemma_days_before_year(y: int)
    ensures
        days_before_year(y) == 365 * (y - 1970) + leaps_through(y - 1) - leaps_through(1969),
    decreases (if y >= 1970 { y - 1970 } else { 1970 - y }),
{
    if y > 1970 {
        lemma_days_before_year(y - 1);
        lemma_leaps_step(y - 1);
    } else if y < 1970 {
        lemma_days_before_year(y + 1);
        lemma_leaps_step(y);
    }
}

proof fn lemma_cycle_year(doe: int)
    requires
        0 <= doe <= 146096,
    ensures
        ({
            let yoe = (doe - doe / 1460 + doe / 36524 - doe / 146096) / 365;
            &&& 0 <= yoe <= 399
            &&& cycle_year_start(yoe) <= doe
            &&& doe - cycle_year_start(yoe) <= 364 + (if is_leap(yoe + 1) { 1int } else { 0int })
        }),
{
}

proof fn lemma_cycle_month(doy: int, leap: bool)
    requires
        0 <= doy <= 364 + (if leap { 1int } else { 0int }),
    ensures
        ({
            let mp = (5 * doy + 2) / 153;
            let d = doy - (153 * mp + 2) / 5 + 1;
            &&& 0 <= mp <= 11
            &&& 1 <= d <= march_month_len(mp, leap)
        }),
{
}

proof fn lemma_month_offset(y: int, mp: int)
    requires
        0 <= mp <= 11,
    ensures
        mp <= 9 ==> days_before_month(y, mp + 3) == 59 + (if is_leap(y) { 1int } else { 0int })
            + (153 * mp + 2) / 5,
        mp >= 10 ==> days_before_month(y, mp - 9) == (153 * mp + 2) / 5 - 306,
{
    reveal_with_fuel(days_before_month, 13);
}

proof fn lemma_leap_cycle(yoe: int, era: int)
    ensures
        is_leap(yoe + 400 * era) == is_leap(yoe),
        leaps_through(yoe + 400 * era) == leaps_through(yoe) + 97 * era,
{
}

/// The calendar date `days` days after 1970-01-01, as (year, month, day)
/// with months and days counted from 1.
pub fn days_to_ymd(days: i64) -> (r: (i64, u32, u32))
    requires
        days <= i64::MAX - 719468,
    ensures
        1 <= r.1 <= 12,
        1 <= r.2 <= days_in_month(r.0 as int, r.1 as int),
        days_from_civil(r.0 as int, r.1 as int, r.2 as int) == days,
{
    let z: i64 = days + 719468;
    let era: i64 = if z >= 0 {
        z / 146097
    } else {
        (z - 146096) / 146097
    };
    assert(era * 146097 <= z < era * 146097 + 146097);
    let doe: i64 = z - era * 146097;
    proof {
        lemma_cycle_year(doe as int);
    }
    let yoe: i64 = (doe - doe / 1460 + doe / 36524 - doe / 146096) / 365;
    let doy: i64 = doe - (365 * yoe + yoe / 4 - yoe / 100);
    let ghost leap = is_leap(yoe + 1);
    proof {
        lemma_cycle_month(doy as int, leap);
    }
    let mp: i64 = (5 * doy + 2) / 153;
    let d: i64 = doy - (153 * mp + 2) / 5 + 1;
    let m: i64 = if mp < 10 {
        mp + 3
    } else {
        mp - 9
    };
    let y: i64 = yoe + era * 400 + if m <= 2 {
        1
    } else {
        0
    };
    proof {
        let ys = yoe + 400 * era - (if m <= 2 { 0int } else { 1int });
        lemma_days_before_year(y as int);
        lemma_month_offset(y as int, mp as int);
        lemma_leap_cycle(yoe as int, era as int);
        lemma_leap_cycle(yoe + 1, era as int);
        lemma_leaps_step(y as int);
        assert(leaps_through(1969) == 477);
        assert(z == era * 146097 + cycle_year_start(yoe as int) + doy);
        if m <= 2 {
            assert(y - 1 == yoe + 400 * era);
            assert(days_from_civil(y as int, m as int, d as int) == days);
        } else {
            assert(y == yoe + 400 * era);
            assert(days_from_civil(y as int, m as int, d as int) == days);
        }
    }
    (y, m as u32, d as u32)
}

} // verus!
