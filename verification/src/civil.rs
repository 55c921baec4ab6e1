//! Calendar dates from day counts.

use vstd::arithmetic::div_mod::{
    lemma_fundamental_div_mod, lemma_fundamental_div_mod_converse, lemma_mod_bound,
};
use vstd::prelude::*;

verus! {

/// A leap year of the Gregorian calendar.
pub open spec fn leap(y: int) -> bool {
    y % 4 == 0 && (y % 100 != 0 || y % 400 == 0)
}

pub open spec fn one_if(b: bool) -> int {
    if b {
        1
    } else {
        0
    }
}

/// The days of a month.
pub open spec fn month_len(y: int, m: int) -> int {
    if m == 2 {
        28 + one_if(leap(y))
    } else if m == 4 || m == 6 || m == 9 || m == 11 {
        30
    } else {
        31
    }
}

/// The days of a year before a month.
pub open spec fn days_before_month(y: int, m: int) -> int
    decreases m,
{
    if m <= 1 {
        0
    } else {
        days_before_month(y, m - 1) + month_len(y, m - 1)
    }
}

/// Leap days in the years up to `y`, counted from year 1.
pub open spec fn leaps_to(y: int) -> int {
    y / 4 - y / 100 + y / 400
}

/// Days from 1970-01-01 to the first of January of `y`.
pub open spec fn year_start(y: int) -> int {
    365 * (y - 1970) + leaps_to(y - 1) - leaps_to(1969)
}

/// Days from 1970-01-01 to a date.
pub open spec fn day_number(y: int, m: int, d: int) -> int {
    year_start(y) + days_before_month(y, m) + d - 1
}

/// A date of the calendar.
pub open spec fn is_date(y: int, m: int, d: int) -> bool {
    1 <= m <= 12 && 1 <= d <= month_len(y, m)
}

/// Each year starts as many days after the one before as that one has.
pub proof fn years_follow_each_other(y: int)
    ensures
        year_start(y + 1) - year_start(y) == 365 + one_if(leap(y)),
        days_before_month(y, 13) == 365 + one_if(leap(y)),
        year_start(1970) == 0,
{
    lemma_leap_step(y);
    reveal_with_fuel(days_before_month, 13);
}

/// One step of a quotient: it grows exactly at the multiples.
proof fn lemma_quotient_step(y: int, d: int)
    requires
        d > 1,
    ensures
        y / d - (y - 1) / d == one_if(y % d == 0),
{
    lemma_fundamental_div_mod(y, d);
    lemma_mod_bound(y, d);
    let q = y / d;
    let r = y % d;
    if r == 0 {
        assert(y - 1 == (q - 1) * d + (d - 1)) by (nonlinear_arith)
            requires
                y == d * q,
        ;
        lemma_fundamental_div_mod_converse(y - 1, d, q - 1, d - 1);
    } else {
        assert(y - 1 == q * d + (r - 1)) by (nonlinear_arith)
            requires
                y == d * q + r,
        ;
        lemma_fundamental_div_mod_converse(y - 1, d, q, r - 1);
    }
}

/// A multiple of `k * d` is a multiple of `d`.
proof fn lemma_multiple(y: int, k: int, d: int)
    requires
        d > 0,
        k > 0,
        y % (k * d) == 0,
    ensures
        y % d == 0,
{
    let big = k * d;
    assert(big > 0) by (nonlinear_arith)
        requires
            big == k * d,
            k > 0,
            d > 0,
    ;
    lemma_fundamental_div_mod(y, big);
    let q = y / big;
    assert(y == (q * k) * d + 0) by (nonlinear_arith)
        requires
            y == big * q,
            big == k * d,
    ;
    lemma_fundamental_div_mod_converse(y, d, q * k, 0);
}

proof fn lemma_leap_step(y: int)
    ensures
        leaps_to(y) == leaps_to(y - 1) + one_if(leap(y)),
{
    lemma_quotient_step(y, 4);
    lemma_quotient_step(y, 100);
    lemma_quotient_step(y, 400);
    if y % 400 == 0 {
        lemma_multiple(y, 4, 100);
    }
    if y % 100 == 0 {
        lemma_multiple(y, 25, 4);
    }
}

/// The quotients of a year put together from its place in the 400-year cycle.
proof fn lemma_cycle(era: int, c: int, q: int, a: int, y: int)
    requires
        0 <= c <= 3,
        0 <= q <= 24,
        0 <= a <= 3,
        y == era * 400 + c * 100 + q * 4 + a,
    ensures
        y / 4 == era * 100 + c * 25 + q,
        y / 100 == era * 4 + c,
        y / 400 == era,
{
    lemma_fundamental_div_mod_converse(y, 4, era * 100 + c * 25 + q, a);
    lemma_fundamental_div_mod_converse(y, 100, era * 4 + c, q * 4 + a);
    lemma_fundamental_div_mod_converse(y, 400, era, c * 100 + q * 4 + a);
}

/// The year after the last of a four-year group is a leap year, unless it ends a century that is
/// not the cycle's last.
proof fn lemma_group_ends_in_leap(era: int, c: int, q: int, n: int)
    requires
        0 <= c <= 3,
        0 <= q <= 24,
        q == 24 ==> c == 3,
        n == era * 400 + c * 100 + q * 4 + 4,
    ensures
        leap(n),
{
    lemma_fundamental_div_mod_converse(n, 4, era * 100 + c * 25 + q + 1, 0);
    if q == 24 {
        lemma_fundamental_div_mod_converse(n, 400, era + 1, 0);
    } else {
        lemma_fundamental_div_mod_converse(n, 100, era * 4 + c, q * 4 + 4);
    }
}

proof fn lemma_months(y: int)
    ensures
        days_before_month(y, 1) == 0,
        days_before_month(y, 2) == 31,
        days_before_month(y, 3) == 59 + one_if(leap(y)),
        days_before_month(y, 4) == 90 + one_if(leap(y)),
        days_before_month(y, 5) == 120 + one_if(leap(y)),
        days_before_month(y, 6) == 151 + one_if(leap(y)),
        days_before_month(y, 7) == 181 + one_if(leap(y)),
        days_before_month(y, 8) == 212 + one_if(leap(y)),
        days_before_month(y, 9) == 243 + one_if(leap(y)),
        days_before_month(y, 10) == 273 + one_if(leap(y)),
        days_before_month(y, 11) == 304 + one_if(leap(y)),
        days_before_month(y, 12) == 334 + one_if(leap(y)),
{
    reveal_with_fuel(days_before_month, 12);
}

proof fn lemma_years_apart(y: int, z: int)
    requires
        y < z,
    ensures
        year_start(y) + 365 + one_if(leap(y)) <= year_start(z),
    decreases z - y,
{
    years_follow_each_other(z - 1);
    if y + 1 < z {
        lemma_years_apart(y, z - 1);
    }
}

proof fn lemma_within_year(y: int, m: int, d: int)
    requires
        is_date(y, m, d),
    ensures
        1 <= days_before_month(y, m) + d <= 365 + one_if(leap(y)),
{
    lemma_months(y);
}

/// Two dates with one day number are one date, so a day count names its date.
pub proof fn a_day_has_one_date(y1: int, m1: int, d1: int, y2: int, m2: int, d2: int)
    requires
        is_date(y1, m1, d1),
        is_date(y2, m2, d2),
        day_number(y1, m1, d1) == day_number(y2, m2, d2),
    ensures
        y1 == y2,
        m1 == m2,
        d1 == d2,
{
    lemma_within_year(y1, m1, d1);
    lemma_within_year(y2, m2, d2);
    if y1 < y2 {
        lemma_years_apart(y1, y2);
    } else if y2 < y1 {
        lemma_years_apart(y2, y1);
    }
    lemma_months(y1);
    if m1 < m2 {
        lemma_month_ends(y1, m1, m2);
    } else if m2 < m1 {
        lemma_month_ends(y1, m2, m1);
    }
}

proof fn lemma_month_ends(y: int, m: int, n: int)
    requires
        1 <= m < n <= 12,
    ensures
        days_before_month(y, m) + month_len(y, m) <= days_before_month(y, n),
    decreases n - m,
{
    if m + 1 < n {
        lemma_month_ends(y, m, n - 1);
    }
}

/// The date `z` days after 1970-01-01.
pub fn civil_from_days(z: i64) -> (r: (i64, u32, u32))
    requires
        z + 719_468 <= i64::MAX,
    ensures
        is_date(r.0 as int, r.1 as int, r.2 as int),
        day_number(r.0 as int, r.1 as int, r.2 as int) == z,
{
    // Days and years are counted from 0000-03-01, so that a leap day ends its year.
    let s: i64 = z + 719_468;
    let (era, doe): (i64, i64) = if s >= 0 {
        (s / 146_097, s % 146_097)
    } else {
        // Rounded down: -1 is the last day of era -1.
        let back: i64 = -1 - s;
        (-1 - back / 146_097, 146_096 - back % 146_097)
    };
    assert(s == era * 146_097 + doe && 0 <= doe <= 146_096);
    let c: i64 = if doe / 36_524 > 3 {
        3
    } else {
        doe / 36_524
    };
    let doc: i64 = doe - c * 36_524;
    let q: i64 = doc / 1_461;
    let doq: i64 = doc - q * 1_461;
    let a: i64 = if doq / 365 > 3 {
        3
    } else {
        doq / 365
    };
    let doy: i64 = doq - a * 365;
    let yoe: i64 = c * 100 + q * 4 + a;
    let y: i64 = yoe + era * 400;
    let mp: i64 = (5 * doy + 2) / 153;
    let d: i64 = doy - (153 * mp + 2) / 5 + 1;
    let m: i64 = if mp < 10 {
        mp + 3
    } else {
        mp - 9
    };
    let year: i64 = if m <= 2 {
        y + 1
    } else {
        y
    };
    proof {
        let yy = y as int;
        assert(0 <= c <= 3 && 0 <= doc <= 36_524);
        assert(c < 3 ==> doc <= 36_523);
        assert(0 <= q <= 24 && 0 <= doq <= 1_460);
        assert(0 <= a <= 3 && 0 <= doy <= 365);
        assert(doy == 365 ==> a == 3 && doq == 1_460);
        assert(doy == 365 && q == 24 ==> c == 3);
        lemma_cycle(era as int, c as int, q as int, a as int, yy);
        // The years up to the March-year `y` hold `s - doy` days.
        assert(s == 365 * yy + leaps_to(yy) + doy);
        assert(leaps_to(1969) == 477);
        if doy == 365 {
            lemma_group_ends_in_leap(era as int, c as int, q as int, yy + 1);
        }
        lemma_date(yy, doy as int, mp as int, d as int);
    }
    (year, m as u32, d as u32)
}

/// A day of a March-year is a date: `mp` months after March, the `d`-th of its month.
proof fn lemma_date(y: int, doy: int, mp: int, d: int)
    requires
        0 <= doy <= 365,
        doy == 365 ==> leap(y + 1),
        mp == (5 * doy + 2) / 153,
        d == doy - (153 * mp + 2) / 5 + 1,
    ensures
        0 <= mp <= 11,
        1 <= d <= 31,
        mp < 10 ==> is_date(y, mp + 3, d) && day_number(y, mp + 3, d) == 365 * y + leaps_to(y)
            + doy - 719_468,
        mp >= 10 ==> is_date(y + 1, mp - 9, d) && day_number(y + 1, mp - 9, d) == 365 * y
            + leaps_to(y) + doy - 719_468,
{
    lemma_leap_step(y);
    lemma_months(y);
    lemma_months(y + 1);
    assert(leaps_to(1969) == 477);
    assert(0 <= mp <= 11);
    if mp == 0 {
    } else if mp == 1 {
    } else if mp == 2 {
    } else if mp == 3 {
    } else if mp == 4 {
    } else if mp == 5 {
    } else if mp == 6 {
    } else if mp == 7 {
    } else if mp == 8 {
    } else if mp == 9 {
    } else if mp == 10 {
    } else {
        assert(mp == 11);
    }
}

/// Days follow one another as the calendar says: the day after is the next of its month, or the
/// first of the next one after the month's last, or the first of January after the last of
/// December; February has a day more in every fourth year, but for the centuries that four hundred
/// does not divide. Day nought is the first of January 1970.
pub proof fn days_follow_one_another(
    z: i64,
    next: i64,
    a: (i64, u32, u32),
    b: (i64, u32, u32),
    zero: (i64, u32, u32),
)
    requires
        call_ensures(civil_from_days, (z,), a),
        call_ensures(civil_from_days, (next,), b),
        next == z + 1,
        call_ensures(civil_from_days, (0i64,), zero),
    ensures
        zero == (1970i64, 1u32, 1u32),
        1 <= a.1 <= 12,
        1 <= a.2 <= 31,
        a.1 == 4 || a.1 == 6 || a.1 == 9 || a.1 == 11 ==> a.2 <= 30,
        a.1 == 2 ==> a.2 <= 29,
        a.1 == 2 && a.2 == 29 ==> (a.0 as int) % 4 == 0 && ((a.0 as int) % 100 != 0 || (a.0 as int)
            % 400 == 0),
        b.0 == a.0 && b.1 == a.1 && b.2 == a.2 + 1 || b.0 == a.0 && b.1 == a.1 + 1 && b.2 == 1
            && a.2 >= 28 || b.0 == a.0 + 1 && b.1 == 1 && b.2 == 1 && a.1 == 12 && a.2 == 31,
{
    let y = a.0 as int;
    let m = a.1 as int;
    let d = a.2 as int;
    years_follow_each_other(y);
    years_follow_each_other(1970);
    lemma_months(y);
    lemma_months(y + 1);
    lemma_months(1970);
    a_day_has_one_date(zero.0 as int, zero.1 as int, zero.2 as int, 1970, 1, 1);
    if d < month_len(y, m) {
        assert(is_date(y, m, d + 1));
        a_day_has_one_date(b.0 as int, b.1 as int, b.2 as int, y, m, d + 1);
    } else if m < 12 {
        assert(days_before_month(y, m + 1) == days_before_month(y, m) + month_len(y, m));
        a_day_has_one_date(b.0 as int, b.1 as int, b.2 as int, y, m + 1, 1);
    } else {
        assert(days_before_month(y, 13) == days_before_month(y, 12) + month_len(y, 12));
        a_day_has_one_date(b.0 as int, b.1 as int, b.2 as int, y + 1, 1, 1);
    }
}

} // verus!
