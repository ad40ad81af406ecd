//! The New York Stock Exchange calendar: its holidays, its trading days, and the latest
//! session whose closing prices can be expected.
use vstd::prelude::*;

use crate::calendar::{
    add_days, days_after, days_before, days_in_month, from_ymd, last_of_month,
    lemma_days_after_valid, lemma_days_before_valid, pred, previous_day, representable, succ,
    next_day, weekday, weekday_of, CivilDate, MAX_YEAR, MIN_YEAR, valid_date, lemma_weekday_after,
    lemma_weekday_before, lemma_next_day_number, lemma_previous_day_number,
};
use crate::error::{broken, Error};

use chrono::{Datelike, Timelike};

verus! {

/// Division truncating toward zero, for a positive divisor.
pub open spec fn tdiv(a: int, b: int) -> int {
    if a >= 0 {
        a / b
    } else {
        -((-a) / b)
    }
}

/// The remainder that goes with `tdiv`, as `%` computes it.
pub open spec fn trem(a: int, b: int) -> int {
    a - b * tdiv(a, b)
}

/// `a / b` on integers, truncating toward zero.
fn quot(a: i64, b: i64) -> (r: i64)
    requires
        b > 0,
        -0x1_0000_0000_0000 < a < 0x1_0000_0000_0000,
    ensures
        r == tdiv(a as int, b as int),
{
    if a >= 0 {
        a / b
    } else {
        -((-a) / b)
    }
}

/// `a % b` on integers, with the sign of `a`.
fn rem(a: i64, b: i64) -> (r: i64)
    requires
        0 < b < 1000,
        -0x1_0000_0000_0000 < a < 0x1_0000_0000_0000,
    ensures
        r == trem(a as int, b as int),
{
    let q = quot(a, b);
    assert(-0x1_0000_0000_0000 <= b * q <= 0x1_0000_0000_0000) by (nonlinear_arith)
        requires
            q == tdiv(a as int, b as int),
            0 < b < 1000,
            -0x1_0000_0000_0000 < a < 0x1_0000_0000_0000,
    ;
    a - b * q
}

/// Truncating division and remainder stay within the dividend and divisor.
proof fn lemma_tdiv_bounds(a: int, b: int)
    requires
        b > 0,
    ensures
        -(if a < 0 { -a } else { a }) <= tdiv(a, b) <= (if a < 0 { -a } else { a }),
        -b < trem(a, b) < b,
{
    if a >= 0 {
        assert(0 <= a / b <= a) by (nonlinear_arith)
            requires
                a >= 0,
                b > 0,
        ;
        assert(0 <= a - b * (a / b) < b) by (nonlinear_arith)
            requires
                a >= 0,
                b > 0,
        ;
    } else {
        assert(0 <= (-a) / b <= -a) by (nonlinear_arith)
            requires
                -a > 0,
                b > 0,
        ;
        assert(0 <= (-a) - b * ((-a) / b) < b) by (nonlinear_arith)
            requires
                -a > 0,
                b > 0,
        ;
        assert(a - b * (-((-a) / b)) == -((-a) - b * ((-a) / b))) by (nonlinear_arith);
    }
}

/// The month and day of Easter Sunday by the anonymous Gregorian computus.
pub open spec fn easter_parts(year: int) -> (int, int) {
    let a = trem(year, 19);
    let b = tdiv(year, 100);
    let c = trem(year, 100);
    let d = tdiv(b, 4);
    let e = trem(b, 4);
    let f = tdiv(b + 8, 25);
    let g = tdiv(b - f + 1, 3);
    let h = trem(19 * a + b - d - g + 15, 30);
    let i = tdiv(c, 4);
    let k = trem(c, 4);
    let l = trem(32 + 2 * e + 2 * i - h - k, 7);
    let m = tdiv(a + 11 * h + 22 * l, 451);
    (tdiv(h + l - 7 * m + 114, 31), trem(h + l - 7 * m + 114, 31) + 1)
}

/// Easter Sunday of a year.
pub open spec fn easter_date(year: int) -> CivilDate {
    CivilDate {
        year: year as i32,
        month: easter_parts(year).0 as u32,
        day: easter_parts(year).1 as u32,
    }
}

/// Easter Sunday of a year.
#[verifier::rlimit(40)]
pub fn easter_sunday(year: i32) -> (r: Result<CivilDate, Error>)
    ensures
        r is Ok <==> representable(easter_date(year as int)),
        r matches Ok(d) ==> d == easter_date(year as int),
        r matches Err(e) ==> e is Invariant,
{
    let y = year as i64;
    let a = rem(y, 19);
    let b = quot(y, 100);
    let c = rem(y, 100);
    proof {
        lemma_tdiv_bounds(y as int, 19);
        lemma_tdiv_bounds(y as int, 100);
    }
    let d = quot(b, 4);
    let e = rem(b, 4);
    let f = quot(b + 8, 25);
    proof {
        lemma_tdiv_bounds(b as int, 4);
        lemma_tdiv_bounds(b + 8, 25);
    }
    let g = quot(b - f + 1, 3);
    proof {
        lemma_tdiv_bounds(b - f + 1, 3);
    }
    let h = rem(19 * a + b - d - g + 15, 30);
    let i = quot(c, 4);
    let k = rem(c, 4);
    proof {
        lemma_tdiv_bounds(19 * a + b - d - g + 15, 30);
        lemma_tdiv_bounds(c as int, 4);
    }
    let l = rem(32 + 2 * e + 2 * i - h - k, 7);
    proof {
        lemma_tdiv_bounds(32 + 2 * e + 2 * i - h - k, 7);
    }
    let m = quot(a + 11 * h + 22 * l, 451);
    proof {
        lemma_tdiv_bounds(a + 11 * h + 22 * l, 451);
    }
    let month = quot(h + l - 7 * m + 114, 31);
    let day = rem(h + l - 7 * m + 114, 31) + 1;
    match from_ymd(year, month as u32, day as u32) {
        Some(date) => Ok(date),
        None => Err(broken("invalid computed Easter date")),
    }
}

/// New Year's Day of a year and its observed day both lie in chrono's range.
pub open spec fn new_year_computable(year: int) -> bool {
    representable(CivilDate { year: year as i32, month: 1, day: 1 }) && representable(observed_new_year_date(year))
}

/// A fixed holiday and its observed day both lie in chrono's range.
pub open spec fn fixed_computable(year: int, month: int, day: int) -> bool {
    representable(CivilDate { year: year as i32, month: month as u32, day: day as u32 }) && representable(
        observed_fixed_date(year, month, day),
    )
}

/// The first of a month and its `nth` weekday `wd` both lie in chrono's range.
pub open spec fn nth_computable(year: int, month: int, wd: int, nth: int) -> bool {
    representable(CivilDate { year: year as i32, month: month as u32, day: 1 }) && representable(
        nth_weekday_date(year, month, wd, nth),
    )
}

/// The first day of the month after `month` of `year`; none past `i32`'s years.
pub open spec fn following_month_first(year: int, month: int) -> Option<CivilDate> {
    if month == 12 {
        if year == i32::MAX {
            None
        } else {
            Some(CivilDate { year: (year + 1) as i32, month: 1, day: 1 })
        }
    } else {
        Some(CivilDate { year: year as i32, month: (month + 1) as u32, day: 1 })
    }
}

/// The first of the following month, the month's last day and its last weekday `wd` all
/// lie in chrono's range.
pub open spec fn last_computable(year: int, month: int, wd: int) -> bool {
    &&& following_month_first(year, month) matches Some(f)
    &&& representable(f)
    &&& representable(previous_day(f))
    &&& representable(last_weekday_date(year, month, wd))
}

/// Easter Sunday and the two days before it lie in chrono's range.
pub open spec fn easter_computable(year: int) -> bool {
    &&& representable(easter_date(year))
    &&& representable(days_before(easter_date(year), 1))
    &&& representable(days_before(easter_date(year), 2))
}

/// Every holiday of a year can be worked out within chrono's range.
#[verifier::opaque]
pub open spec fn holidays_computable(year: int) -> bool {
    &&& new_year_computable(year)
    &&& nth_computable(year, 1, 0, 3)
    &&& nth_computable(year, 2, 0, 3)
    &&& easter_computable(year)
    &&& last_computable(year, 5, 0)
    &&& (year >= 2022 ==> fixed_computable(year, 6, 19))
    &&& fixed_computable(year, 7, 4)
    &&& nth_computable(year, 9, 0, 1)
    &&& nth_computable(year, 11, 3, 4)
    &&& fixed_computable(year, 12, 25)
}

/// For a year of the common era, the computus puts Easter Sunday on a real day of March
/// or April.
proof fn lemma_easter_in_spring(year: int)
    requires
        0 <= year <= MAX_YEAR,
    ensures
        easter_parts(year).0 == 3 ==> 15 <= easter_parts(year).1 <= 31,
        easter_parts(year).0 == 4 ==> 1 <= easter_parts(year).1 <= 26,
        easter_parts(year).0 == 3 || easter_parts(year).0 == 4,
        weekday_of(easter_date(year)) == 6,
{
    let a = trem(year, 19);
    let b = tdiv(year, 100);
    let c = trem(year, 100);
    assert(0 <= a < 19 && b >= 0 && 0 <= c < 100) by (nonlinear_arith)
        requires
            year >= 0,
            a == year - 19 * (year / 19),
            b == year / 100,
            c == year - 100 * (year / 100),
    ;
    let d = tdiv(b, 4);
    let e = trem(b, 4);
    assert(0 <= d && 4 * d <= b && 0 <= e < 4) by (nonlinear_arith)
        requires
            b >= 0,
            d == b / 4,
            e == b - 4 * (b / 4),
    ;
    let f = tdiv(b + 8, 25);
    assert(0 <= f <= b + 1) by (nonlinear_arith)
        requires
            b >= 0,
            f == (b + 8) / 25,
    ;
    let g = tdiv(b - f + 1, 3);
    assert(0 <= g && 3 * g <= b - f + 1) by (nonlinear_arith)
        requires
            b - f + 1 >= 0,
            g == (b - f + 1) / 3,
    ;
    let hh = 19 * a + b - d - g + 15;
    assert(hh >= 0);
    let h = trem(hh, 30);
    assert(0 <= h < 30) by (nonlinear_arith)
        requires
            hh >= 0,
            h == hh - 30 * (hh / 30),
    ;
    let i = tdiv(c, 4);
    let k = trem(c, 4);
    assert(0 <= i <= 24 && 0 <= k < 4) by (nonlinear_arith)
        requires
            0 <= c < 100,
            i == c / 4,
            k == c - 4 * (c / 4),
    ;
    let ll = 32 + 2 * e + 2 * i - h - k;
    assert(ll >= 0);
    let l = trem(ll, 7);
    assert(0 <= l < 7) by (nonlinear_arith)
        requires
            ll >= 0,
            l == ll - 7 * (ll / 7),
    ;
    let mm = a + 11 * h + 22 * l;
    let m = tdiv(mm, 451);
    assert(0 <= m <= 1) by (nonlinear_arith)
        requires
            0 <= mm <= 469,
            m == mm / 451,
    ;
    let x = h + l - 7 * m + 114;
    assert(107 <= x <= 149);
    let month = tdiv(x, 31);
    let day = trem(x, 31) + 1;
    assert((month == 3 && 15 <= day <= 31) || (month == 4 && 1 <= day <= 26)) by (nonlinear_arith)
        requires
            107 <= x <= 149,
            month == x / 31,
            day == x - 31 * (x / 31) + 1,
    ;
    assert(easter_parts(year) == (month, day));
    // The day of the year: Easter is `x - 92` days into March, counted from March 1.
    let era = year / 400;
    let yoe = year % 400;
    assert(era == d && yoe == 100 * e + c && yoe / 4 == 25 * e + i && yoe / 100 == e) by (nonlinear_arith)
        requires
            year >= 0,
            b == year / 100,
            c == year - 100 * (year / 100),
            d == b / 4,
            e == b - 4 * (b / 4),
            i == c / 4,
            0 <= c < 100,
            0 <= e < 4,
            era == year / 400,
            yoe == year % 400,
    ;
    assert(c == 4 * i + k);
    let q = ll / 7;
    assert(l == ll - 7 * q);
    let dn = era * 146097 + yoe * 365 + yoe / 4 - yoe / 100 + (x - 93) - 719468;
    assert(crate::calendar::day_number(easter_date(year)) == dn) by {
        reveal(crate::calendar::day_number);
    }
    let kk = 20871 * era + 5218 * e + 209 * i + 52 * k - q - m - 102774;
    assert(dn == 7 * kk + 3) by (nonlinear_arith)
        requires
            dn == era * 146097 + yoe * 365 + yoe / 4 - yoe / 100 + (x - 93) - 719468,
            yoe == 100 * e + c,
            yoe / 4 == 25 * e + i,
            yoe / 100 == e,
            c == 4 * i + k,
            x == h + l - 7 * m + 114,
            l == ll - 7 * q,
            ll == 32 + 2 * e + 2 * i - h - k,
            kk == 20871 * era + 5218 * e + 209 * i + 52 * k - q - m - 102774,
    ;
    assert((dn + 3) % 7 == 6) by (nonlinear_arith)
        requires
            dn == 7 * kk + 3,
    ;
}

/// The holidays of every year of the common era, but the last few chrono holds, can be
/// worked out.
pub proof fn lemma_holidays_computable(year: int)
    requires
        1 <= year <= MAX_YEAR - 40,
    ensures
        holidays_computable(year),
{
    reveal(holidays_computable);
    lemma_easter_in_spring(year);
    let easter = easter_date(year);
    lemma_days_before_valid(easter, 1);
    lemma_days_before_valid(easter, 2);
    assert forall|month: int, wd: int, nth: int|
        1 <= month <= 12 && 0 <= wd < 7 && 1 <= nth <= 4 implies #[trigger] nth_computable(year, month, wd, nth) by {
        let first = CivilDate { year: year as i32, month: month as u32, day: 1 };
        let offset = (7 + wd - weekday_of(first)) % 7;
        lemma_days_after_valid(first, (offset + 7 * (nth - 1)) as nat);
    }
    let june = CivilDate { year: year as i32, month: 6, day: 1 };
    let may_last = last_of_month(year, 5);
    assert(previous_day(june) == may_last);
    lemma_days_before_valid(may_last, ((weekday_of(may_last) - 0 + 7) % 7) as nat);
}

/// The `nth` given weekday of a month falls on that weekday.
pub proof fn lemma_nth_weekday_falls_on(year: int, month: int, wd: int, nth: int)
    requires
        1 <= month <= 12,
        0 <= wd < 7,
        1 <= nth <= 5,
        MIN_YEAR <= year <= MAX_YEAR,
    ensures
        weekday_of(nth_weekday_date(year, month, wd, nth)) == wd,
{
    let first = CivilDate { year: year as i32, month: month as u32, day: 1 };
    let w = weekday_of(first);
    let offset = (7 + wd - w) % 7;
    let k = offset + 7 * (nth - 1);
    assert(0 <= offset < 7 && 0 <= k <= 34) by (nonlinear_arith)
        requires
            offset == (7 + wd - w) % 7,
            k == offset + 7 * (nth - 1),
            1 <= nth <= 5,
    ;
    lemma_weekday_after(first, k as nat);
    assert((w + k) % 7 == wd) by (nonlinear_arith)
        requires
            offset == (7 + wd - w) % 7,
            k == offset + 7 * (nth - 1),
            0 <= wd < 7,
    ;
}

/// The last given weekday of a month falls on that weekday.
pub proof fn lemma_last_weekday_falls_on(year: int, month: int, wd: int)
    requires
        1 <= month <= 12,
        0 <= wd < 7,
        MIN_YEAR <= year <= MAX_YEAR,
    ensures
        weekday_of(last_weekday_date(year, month, wd)) == wd,
{
    let last = last_of_month(year, month);
    let w = weekday_of(last);
    let k = (w - wd + 7) % 7;
    assert(0 <= k < 7) by (nonlinear_arith)
        requires
            k == (w - wd + 7) % 7,
    ;
    lemma_weekday_before(last, k as nat);
    assert((w - k) % 7 == wd) by (nonlinear_arith)
        requires
            k == (w - wd + 7) % 7,
            0 <= wd < 7,
    ;
}

/// A fixed-date holiday is observed on a weekday.
pub proof fn lemma_observed_on_weekday(year: int, month: int, day: int)
    requires
        valid_date(CivilDate { year: year as i32, month: month as u32, day: day as u32 }),
        MIN_YEAR < year < MAX_YEAR,
        year == year as i32,
        month == month as u32,
        day == day as u32,
    ensures
        weekday_of(observed_fixed_date(year, month, day)) < 5,
{
    let d = CivilDate { year: year as i32, month: month as u32, day: day as u32 };
    lemma_next_day_number(d);
    lemma_previous_day_number(d);
    assert(0 <= weekday_of(d) < 7);
}

/// Whether a day is a trading day can be worked out: a weekend day always; a weekday
/// when the holidays of its year and the years either side can be.
pub open spec fn trading_day_known(d: CivilDate) -> bool {
    weekday_of(d) >= 5 || (holidays_computable(d.year - 1) && holidays_computable(d.year as int)
        && holidays_computable(d.year + 1))
}

/// New Year's Day as the exchange observes it: a Sunday holiday moves to Monday, a
/// Saturday one is not moved to the Friday before.
pub open spec fn observed_new_year_date(year: int) -> CivilDate {
    let d = CivilDate { year: year as i32, month: 1, day: 1 };
    if weekday_of(d) == 6 {
        next_day(d)
    } else {
        d
    }
}

/// New Year's Day as the exchange observes it.
pub fn observed_new_year(year: i32) -> (r: Result<CivilDate, Error>)
    ensures
        r is Ok <==> new_year_computable(year as int),
        r matches Ok(d) ==> d == observed_new_year_date(year as int) && representable(d),
        r matches Err(e) ==> e is Invariant,
{
    let date = match from_ymd(year, 1, 1) {
        Some(d) => d,
        None => return Err(broken("invalid NYSE New Year's Day")),
    };
    if weekday(date) == 6 {
        match succ(date) {
            Some(n) => Ok(n),
            None => Err(broken("NYSE holiday is out of range")),
        }
    } else {
        Ok(date)
    }
}

/// A fixed-date holiday as the exchange observes it: Saturday moves to Friday, Sunday
/// to Monday.
pub open spec fn observed_fixed_date(year: int, month: int, day: int) -> CivilDate {
    let d = CivilDate { year: year as i32, month: month as u32, day: day as u32 };
    if weekday_of(d) == 5 {
        previous_day(d)
    } else if weekday_of(d) == 6 {
        next_day(d)
    } else {
        d
    }
}

/// A fixed-date holiday as the exchange observes it.
pub fn observed_fixed_holiday(year: i32, month: u32, day: u32) -> (r: Result<CivilDate, Error>)
    ensures
        r is Ok <==> fixed_computable(year as int, month as int, day as int),
        r matches Ok(d) ==> d == observed_fixed_date(year as int, month as int, day as int)
            && representable(d),
        r matches Err(e) ==> e is Invariant,
{
    let date = match from_ymd(year, month, day) {
        Some(d) => d,
        None => return Err(broken("invalid fixed NYSE holiday")),
    };
    let w = weekday(date);
    if w == 5 {
        match pred(date) {
            Some(n) => Ok(n),
            None => Err(broken("NYSE holiday is out of range")),
        }
    } else if w == 6 {
        match succ(date) {
            Some(n) => Ok(n),
            None => Err(broken("NYSE holiday is out of range")),
        }
    } else {
        Ok(date)
    }
}

/// The `nth` given weekday (counted from Monday as 0) of a month.
pub open spec fn nth_weekday_date(year: int, month: int, wd: int, nth: int) -> CivilDate {
    let first = CivilDate { year: year as i32, month: month as u32, day: 1 };
    let offset = (7 + wd - weekday_of(first)) % 7;
    days_after(first, (offset + 7 * (if nth >= 1 { nth - 1 } else { 0 })) as nat)
}

/// The `nth` given weekday of a month.
pub fn nth_weekday(year: i32, month: u32, wd: u32, nth: u32) -> (r: Result<CivilDate, Error>)
    requires
        wd < 7,
        nth <= 5,
    ensures
        r is Ok <==> nth_computable(year as int, month as int, wd as int, nth as int),
        r matches Ok(d) ==> d == nth_weekday_date(year as int, month as int, wd as int, nth as int)
            && representable(d),
        r matches Err(e) ==> e is Invariant,
{
    let first = match from_ymd(year, month, 1) {
        Some(d) => d,
        None => return Err(broken("invalid NYSE holiday month")),
    };
    let w = weekday(first);
    let offset: u32 = (7 + wd - w) % 7;
    let weeks: u32 = if nth >= 1 { nth - 1 } else { 0 };
    match add_days(first, offset + 7 * weeks) {
        Some(d) => Ok(d),
        None => Err(broken("NYSE holiday is out of range")),
    }
}

/// The last given weekday of a month.
pub open spec fn last_weekday_date(year: int, month: int, wd: int) -> CivilDate {
    let last = last_of_month(year, month);
    days_before(last, ((weekday_of(last) - wd + 7) % 7) as nat)
}

/// The last given weekday of a month.
pub fn last_weekday(year: i32, month: u32, wd: u32) -> (r: Result<CivilDate, Error>)
    requires
        wd < 7,
        1 <= month <= 12,
    ensures
        r is Ok <==> last_computable(year as int, month as int, wd as int),
        r matches Ok(d) ==> d == last_weekday_date(year as int, month as int, wd as int)
            && representable(d),
        r matches Err(e) ==> e is Invariant,
{
    let next = if month == 12 {
        if year == i32::MAX {
            None
        } else {
            from_ymd(year + 1, 1, 1)
        }
    } else if month < 12 {
        from_ymd(year, month + 1, 1)
    } else {
        None
    };
    let next = match next {
        Some(d) => d,
        None => return Err(broken("invalid NYSE holiday month")),
    };
    let last = match pred(next) {
        Some(d) => d,
        None => return Err(broken("NYSE holiday is out of range")),
    };
    assert(last == last_of_month(year as int, month as int));
    let w0 = weekday(last);
    let ghost k0: int = ((w0 - wd + 7) % 7) as int;
    let mut date = last;
    let mut steps: u32 = 0;
    while weekday(date) != wd
        invariant
            representable(date),
            wd < 7,
            w0 < 7,
            w0 == weekday_of(last),
            k0 == (w0 - wd + 7) % 7,
            0 <= steps <= k0,
            date == days_before(last, steps as nat),
            weekday_of(date) == (w0 - steps + 7) % 7,
            representable(last),
            last == last_of_month(year as int, month as int),
        decreases k0 - steps,
    {
        match pred(date) {
            Some(p) => {
                proof {
                    lemma_previous_day_number(date);
                }
                date = p;
            },
            None => {
                proof {
                    assert(steps < k0);
                    assert(days_before(last, (steps + 1) as nat) == previous_day(date));
                    if representable(last_weekday_date(year as int, month as int, wd as int)) {
                        assert(last_weekday_date(year as int, month as int, wd as int) == days_before(last, k0 as nat));
                        crate::calendar::lemma_days_before_convex(last, (steps + 1) as nat, k0 as nat);
                    }
                }
                return Err(broken("NYSE holiday is out of range"));
            },
        }
        steps = steps + 1;
    }
    Ok(date)
}

#[verifier::opaque]
/// Whether a day is one of the exchange's holidays of a year: New Year's Day, Martin
/// Luther King Jr. Day, Washington's Birthday, Good Friday, Memorial Day, Juneteenth
/// (from 2022), Independence Day, Labor Day, Thanksgiving and Christmas.
pub open spec fn holiday_of(year: int, d: CivilDate) -> bool {
    ||| d == observed_new_year_date(year)
    ||| d == nth_weekday_date(year, 1, 0, 3)
    ||| d == nth_weekday_date(year, 2, 0, 3)
    ||| d == days_before(easter_date(year), 2)
    ||| d == last_weekday_date(year, 5, 0)
    ||| (year >= 2022 && d == observed_fixed_date(year, 6, 19))
    ||| d == observed_fixed_date(year, 7, 4)
    ||| d == nth_weekday_date(year, 9, 0, 1)
    ||| d == nth_weekday_date(year, 11, 3, 4)
    ||| d == observed_fixed_date(year, 12, 25)
}

/// Good Friday falls on a Friday.
pub proof fn lemma_good_friday_is_friday(year: int)
    requires
        0 <= year <= MAX_YEAR - 1,
    ensures
        weekday_of(days_before(easter_date(year), 2)) == 4,
{
    lemma_easter_in_spring(year);
    lemma_weekday_before(easter_date(year), 2);
}

/// A holiday on a Tuesday or a Wednesday is a fixed-date holiday on its own day: the
/// others fall on Mondays, Thursdays and Fridays, and an observed day moves to one.
proof fn lemma_midweek_holiday(year: int, d: CivilDate)
    requires
        0 <= year <= MAX_YEAR - 1,
        weekday_of(d) == 1 || weekday_of(d) == 2,
        holiday_of(year, d),
    ensures
        d.year == year,
        (d.month == 1 && d.day == 1) || (d.month == 6 && d.day == 19) || (d.month == 7 && d.day == 4) || (
        d.month == 12 && d.day == 25),
{
    reveal(holiday_of);
    let jan1 = CivilDate { year: year as i32, month: 1, day: 1 };
    lemma_next_day_number(jan1);
    lemma_nth_weekday_falls_on(year, 1, 0, 3);
    lemma_nth_weekday_falls_on(year, 2, 0, 3);
    lemma_nth_weekday_falls_on(year, 9, 0, 1);
    lemma_nth_weekday_falls_on(year, 11, 3, 4);
    lemma_last_weekday_falls_on(year, 5, 0);
    lemma_good_friday_is_friday(year);
    let jun19 = CivilDate { year: year as i32, month: 6, day: 19 };
    let jul4 = CivilDate { year: year as i32, month: 7, day: 4 };
    let dec25 = CivilDate { year: year as i32, month: 12, day: 25 };
    lemma_next_day_number(jun19);
    lemma_previous_day_number(jun19);
    lemma_next_day_number(jul4);
    lemma_previous_day_number(jul4);
    lemma_next_day_number(dec25);
    lemma_previous_day_number(dec25);
}

/// Whether the exchange trades on a day: a weekday that is no holiday of its year or
/// of the years around it (observed holidays can cross a year's end).
pub open spec fn nyse_trading_day(d: CivilDate) -> bool {
    weekday_of(d) < 5 && !holiday_of(d.year - 1, d) && !holiday_of(d.year as int, d) && !holiday_of(
        d.year + 1,
        d,
    )
}

/// Whether `d` is a holiday of `year`.
fn is_holiday_of(year: i32, d: CivilDate) -> (r: Result<bool, Error>)
    ensures
        r is Ok <==> holidays_computable(year as int),
        r matches Ok(b) ==> b == holiday_of(year as int, d),
        r matches Err(e) ==> e is Invariant,
{
    reveal(holiday_of);
    reveal(holidays_computable);
    let new_year = observed_new_year(year)?;
    let king = nth_weekday(year, 1, 0, 3)?;
    let washington = nth_weekday(year, 2, 0, 3)?;
    let easter = easter_sunday(year)?;
    let good_friday = match add_back_two(easter) {
        Some(g) => g,
        None => return Err(broken("NYSE holiday is out of range")),
    };
    let memorial = last_weekday(year, 5, 0)?;
    let juneteenth = if year >= 2022 {
        Some(observed_fixed_holiday(year, 6, 19)?)
    } else {
        None
    };
    let independence = observed_fixed_holiday(year, 7, 4)?;
    let labor = nth_weekday(year, 9, 0, 1)?;
    let thanksgiving = nth_weekday(year, 11, 3, 4)?;
    let christmas = observed_fixed_holiday(year, 12, 25)?;
    let june = match juneteenth {
        Some(j) => d == j,
        None => false,
    };
    Ok(
        d == new_year || d == king || d == washington || d == good_friday || d == memorial || june
            || d == independence || d == labor || d == thanksgiving || d == christmas,
    )
}

/// Two days before a day.
fn add_back_two(d: CivilDate) -> (r: Option<CivilDate>)
    requires
        representable(d),
    ensures
        r is Some <==> representable(days_before(d, 1)) && representable(days_before(d, 2)),
        r matches Some(x) ==> x == days_before(d, 2) && representable(x),
{
    assert(days_before(d, 0) == d);
    assert(days_before(d, 1) == previous_day(d));
    assert(days_before(d, 2) == previous_day(days_before(d, 1)));
    let one = match pred(d) {
        Some(x) => x,
        None => return None,
    };
    assert(days_before(d, 0) == d);
    assert(days_before(d, 1) == previous_day(d));
    match pred(one) {
        Some(x) => {
            assert(days_before(d, 2) == previous_day(days_before(d, 1)));
            Some(x)
        },
        None => None,
    }
}

/// Whether the exchange trades on a day.
pub fn is_nyse_trading_day(d: CivilDate) -> (r: Result<bool, Error>)
    requires
        representable(d),
    ensures
        r is Ok <==> trading_day_known(d),
        2 <= d.year <= MAX_YEAR - 41 ==> r is Ok,
        r matches Ok(b) ==> b == nyse_trading_day(d),
        r matches Err(e) ==> e is Invariant,
{
    proof {
        if 2 <= d.year <= MAX_YEAR - 41 {
            lemma_holidays_computable(d.year - 1);
            lemma_holidays_computable(d.year as int);
            lemma_holidays_computable(d.year + 1);
        }
    }
    if weekday(d) >= 5 {
        return Ok(false);
    }
    if d.year == i32::MIN || d.year == i32::MAX {
        return Err(broken("NYSE year is out of range"));
    }
    let before = is_holiday_of(d.year - 1, d)?;
    let same = is_holiday_of(d.year, d)?;
    let after = is_holiday_of(d.year + 1, d)?;
    Ok(!before && !same && !after)
}

/// The zone the exchange keeps its hours in.
pub const NYSE_TIME_ZONE: &'static str = "America/New_York";

/// The wall clock in a named zone at an instant given in milliseconds since the Unix
/// epoch: the local date and the seconds since local midnight; none when the zone is
/// unknown or chrono cannot represent the time.
pub uninterp spec fn zone_wall_clock(zone: Seq<char>, unix_millis: int) -> Option<(CivilDate, int)>;

/// The wall clock in New York at an instant.
pub open spec fn new_york_wall_clock(unix_millis: int) -> Option<(CivilDate, int)> {
    zone_wall_clock(NYSE_TIME_ZONE@, unix_millis)
}

/// The zone parsed as a `chrono_tz::Tz`, `DateTime::from_timestamp_millis(ms)`, the zone's
/// offset at it added to the UTC time with `checked_add_offset`, read back as the local
/// date and the seconds since local midnight; none when the zone is unknown or the
/// instant or its local time is outside chrono's range.
#[verifier::external_body]
fn wall_clock_in_zone(zone: &str, unix_millis: i64) -> (r: Option<(CivilDate, u32)>)
    ensures
        r matches Some(x) ==> zone_wall_clock(zone@, unix_millis as int) == Some((x.0, x.1 as int))
            && representable(x.0) && x.1 < 86_400,
        r is None ==> zone_wall_clock(zone@, unix_millis as int) is None,
{
    let tz: chrono_tz::Tz = zone.parse().ok()?;
    let utc = chrono::DateTime::from_timestamp_millis(unix_millis)?;
    let local = utc.naive_utc().checked_add_offset(chrono::Offset::fix(utc.with_timezone(&tz).offset()))?;
    Some((
        CivilDate { year: local.date().year(), month: local.date().month(), day: local.date().day() },
        local.time().num_seconds_from_midnight(),
    ))
}

/// Seconds after local midnight at which a session's closes are taken as confirmed.
pub const CONFIRMED_CLOSE_SECONDS: u32 = 58_500;

/// The day the search for the latest confirmed session starts from: the local date once
/// it has traded and closes are confirmed (16:15 New York time), else the day before.
pub open spec fn search_start(local: CivilDate, seconds: int) -> CivilDate {
    if seconds < CONFIRMED_CLOSE_SECONDS || !nyse_trading_day(local) {
        previous_day(local)
    } else {
        local
    }
}

/// Walking back from `start`, from step `k` with `left` more steps allowed, every day
/// reached can be worked out and one of them trades.
pub open spec fn found_from(start: CivilDate, k: nat, left: nat) -> bool
    decreases left,
{
    let d = days_before(start, k);
    &&& representable(d)
    &&& trading_day_known(d)
    &&& (nyse_trading_day(d) || (left > 0 && found_from(start, k + 1, (left - 1) as nat)))
}

/// The search for the latest session succeeds at an instant: New York's wall clock is
/// known, the local day can be classified (and the day before it exists when the search
/// starts there), and a trading day is found within fourteen days back.
pub open spec fn expected_date_found(unix_millis: int) -> bool {
    new_york_wall_clock(unix_millis) matches Some((local, seconds)) && trading_day_known(local) && (search_start(
        local,
        seconds,
    ) != local ==> representable(previous_day(local))) && found_from(search_start(local, seconds), 0, 14)
}

/// A week before one of the fixed-date holidays is another only from New Year's Day,
/// back to Christmas.
proof fn lemma_week_before_fixed(d: CivilDate)
    requires
        valid_date(d),
        MIN_YEAR < d.year <= MAX_YEAR,
        (d.month == 1 && d.day == 1) || (d.month == 6 && d.day == 19) || (d.month == 7 && d.day == 4) || (
        d.month == 12 && d.day == 25),
    ensures
        ({
            let p = days_before(d, 7);
            (p.month == 1 && p.day == 1) || (p.month == 6 && p.day == 19) || (p.month == 7 && p.day == 4)
                || (p.month == 12 && p.day == 25)
        }) ==> d.month == 1 && d.day == 1,
{
    reveal_with_fuel(days_before, 8);
}

/// Less than a week before New Year's Day is a day of December.
proof fn lemma_days_before_new_year(d: CivilDate, n: nat)
    requires
        d.month == 1,
        d.day == 1,
        1 <= n <= 6,
        MIN_YEAR < d.year <= MAX_YEAR,
    ensures
        days_before(d, n).month == 12,
{
    reveal_with_fuel(days_before, 7);
}

/// A day `k` days back from `start` whose weekday is `target`.
proof fn lemma_back_to_weekday(start: CivilDate, target: int) -> (k: nat)
    requires
        valid_date(start),
        0 <= target < 7,
        -3 * crate::calendar::step_bound() <= start.year <= 3 * crate::calendar::step_bound(),
    ensures
        k < 7,
        weekday_of(days_before(start, k)) == target,
        weekday_of(days_before(start, k + 7)) == target,
{
    let w = weekday_of(start);
    let k = ((w - target) % 7) as nat;
    assert(0 <= k < 7 && (w - k) % 7 == target && (w - (k + 7)) % 7 == target) by (nonlinear_arith)
        requires
            k == (w - target) % 7,
            0 <= target < 7,
    ;
    lemma_weekday_before(start, k);
    lemma_weekday_before(start, k + 7);
    k
}

/// A Tuesday or a Wednesday that does not trade is a fixed-date holiday on its own day.
proof fn lemma_midweek_closed(d: CivilDate)
    requires
        valid_date(d),
        1 <= d.year <= MAX_YEAR - 2,
        weekday_of(d) == 1 || weekday_of(d) == 2,
        !nyse_trading_day(d),
    ensures
        (d.month == 1 && d.day == 1) || (d.month == 6 && d.day == 19) || (d.month == 7 && d.day == 4) || (
        d.month == 12 && d.day == 25),
{
    if holiday_of(d.year - 1, d) {
        lemma_midweek_holiday(d.year - 1, d);
    } else if holiday_of(d.year as int, d) {
        lemma_midweek_holiday(d.year as int, d);
    } else {
        lemma_midweek_holiday(d.year + 1, d);
    }
}

/// The exchange trades at least once in any two weeks: of the two Tuesdays and two
/// Wednesdays among the fourteen days back from `start`, at most New Year's Day and the
/// Christmas before it are holidays.
pub proof fn lemma_trading_day_within_two_weeks(start: CivilDate)
    requires
        representable(start),
        16 <= start.year <= MAX_YEAR - 2,
    ensures
        exists|j: nat| j <= 13 && #[trigger] nyse_trading_day(days_before(start, j)),
{
    let kt = lemma_back_to_weekday(start, 1);
    let kw = lemma_back_to_weekday(start, 2);
    let t1 = days_before(start, kt);
    let t2 = days_before(start, kt + 7);
    let w1 = days_before(start, kw);
    let w2 = days_before(start, kw + 7);
    crate::calendar::lemma_days_before_valid(start, kt);
    crate::calendar::lemma_days_before_valid(start, kt + 7);
    crate::calendar::lemma_days_before_valid(start, kw);
    crate::calendar::lemma_days_before_valid(start, kw + 7);
    crate::calendar::lemma_days_before_split(start, kt, 7);
    crate::calendar::lemma_days_before_split(start, kw, 7);
    if nyse_trading_day(t1) {
        assert(nyse_trading_day(days_before(start, kt)));
    } else if nyse_trading_day(t2) {
        assert(nyse_trading_day(days_before(start, kt + 7)));
    } else if nyse_trading_day(w1) {
        assert(nyse_trading_day(days_before(start, kw)));
    } else if nyse_trading_day(w2) {
        assert(nyse_trading_day(days_before(start, kw + 7)));
    } else {
        lemma_midweek_closed(t1);
        lemma_midweek_closed(t2);
        lemma_midweek_closed(w1);
        lemma_midweek_closed(w2);
        lemma_week_before_fixed(t1);
        lemma_week_before_fixed(w1);
        assert(kt != kw);
        if kw > kt {
            crate::calendar::lemma_days_before_split(start, kt, (kw - kt) as nat);
            assert((kt + (kw - kt) as nat) as nat == kw);
            lemma_days_before_new_year(t1, (kw - kt) as nat);
        } else {
            crate::calendar::lemma_days_before_split(start, kw, (kt - kw) as nat);
            assert((kw + (kt - kw) as nat) as nat == kt);
            lemma_days_before_new_year(w1, (kt - kw) as nat);
        }
    }
}

proof fn lemma_found_from(start: CivilDate, k: nat, left: nat, j: nat)
    requires
        k <= j <= k + left,
        nyse_trading_day(days_before(start, j)),
        forall|i: nat|
            k <= i <= k + left ==> representable(#[trigger] days_before(start, i)) && trading_day_known(
                days_before(start, i),
            ),
    ensures
        found_from(start, k, left),
    decreases left,
{
    assert(representable(days_before(start, k)) && trading_day_known(days_before(start, k)));
    if k < j {
        lemma_found_from(start, k + 1, (left - 1) as nat, j);
    }
}

/// The days back from `start` the search may visit lie in chrono's range and can be
/// classified.
proof fn lemma_search_days_known(start: CivilDate, i: nat)
    requires
        representable(start),
        16 <= start.year <= MAX_YEAR - 41,
        i <= 14,
    ensures
        representable(days_before(start, i)),
        trading_day_known(days_before(start, i)),
{
    crate::calendar::lemma_days_before_valid(start, i);
    let d = days_before(start, i);
    lemma_holidays_computable(d.year - 1);
    lemma_holidays_computable(d.year as int);
    lemma_holidays_computable(d.year + 1);
}

/// At an instant whose New York date lies well inside chrono's range, the search for the
/// latest session succeeds.
pub proof fn lemma_expected_date_found(unix_millis: int, local: CivilDate, seconds: int)
    requires
        new_york_wall_clock(unix_millis) == Some((local, seconds)),
        representable(local),
        17 <= local.year <= MAX_YEAR - 41,
    ensures
        expected_date_found(unix_millis),
{
    lemma_search_days_known(local, 0);
    lemma_search_days_known(local, 1);
    let start = search_start(local, seconds);
    assert(start == local || start == days_before(local, 1));
    crate::calendar::lemma_days_before_valid(local, 1);
    lemma_trading_day_within_two_weeks(start);
    let j = choose|j: nat| j <= 13 && #[trigger] nyse_trading_day(days_before(start, j));
    assert forall|i: nat| 0 <= i <= 14 implies representable(#[trigger] days_before(start, i))
        && trading_day_known(days_before(start, i)) by {
        lemma_search_days_known(start, i);
    }
    lemma_found_from(start, 0, 14, j);
}

/// The latest session whose closing prices can be expected at an instant: searching
/// back at most fourteen days from the search start for a trading day.
pub fn latest_expected_nyse_date(as_of_unix_millis: i64) -> (r: Result<CivilDate, Error>)
    ensures
        r is Ok <==> expected_date_found(as_of_unix_millis as int),
        new_york_wall_clock(as_of_unix_millis as int) matches Some((local, _)) && 17 <= local.year
            <= MAX_YEAR - 41 ==> r is Ok,
        r is Ok ==> new_york_wall_clock(as_of_unix_millis as int) is Some,
        r matches Ok(d) ==> nyse_trading_day(d),
        r matches Ok(d) ==> ({
            let local = new_york_wall_clock(as_of_unix_millis as int)->0;
            let start = search_start(local.0, local.1);
            exists|k: nat|
                #![trigger days_before(start, k)]
                k <= 14 && d == days_before(start, k) && forall|j: nat|
                    j < k ==> !nyse_trading_day(#[trigger] days_before(start, j))
        }),
        r matches Err(e) ==> e is Invariant,
{
    let (local, seconds) = match wall_clock_in_zone(NYSE_TIME_ZONE, as_of_unix_millis) {
        Some(x) => x,
        None => return Err(broken("the instant is outside the supported range")),
    };
    proof {
        if 17 <= local.year <= MAX_YEAR - 41 {
            lemma_expected_date_found(as_of_unix_millis as int, local, seconds as int);
        }
    }
    let local_trades = is_nyse_trading_day(local)?;
    let mut candidate = local;
    if seconds < 58_500 || !local_trades {
        candidate = match pred(local) {
            Some(p) => p,
            None => return Err(broken("NYSE date has no predecessor")),
        };
    }
    let ghost start = candidate;
    assert(start == search_start(local, seconds as int));
    let mut k: u32 = 0;
    while k <= 14
        invariant
            representable(candidate),
            candidate == days_before(start, k as nat),
            k <= 15,
            start == search_start(local, seconds as int),
            new_york_wall_clock(as_of_unix_millis as int) == Some((local, seconds as int)),
            forall|j: nat| j < k ==> !nyse_trading_day(#[trigger] days_before(start, j)),
            trading_day_known(local),
            search_start(local, seconds as int) != local ==> representable(previous_day(local)),
            k <= 14 ==> (expected_date_found(as_of_unix_millis as int) == found_from(start, k as nat, (14 - k) as nat)),
            k == 15 ==> !expected_date_found(as_of_unix_millis as int),
            17 <= local.year <= MAX_YEAR - 41 ==> expected_date_found(as_of_unix_millis as int),
        decreases 15 - k,
    {
        if is_nyse_trading_day(candidate)? {
            proof {
                let w = new_york_wall_clock(as_of_unix_millis as int)->0;
                assert(w == (local, seconds as int));
                assert(search_start(w.0, w.1) == start);
                assert(candidate == days_before(start, k as nat));
            }
            return Ok(candidate);
        }
        candidate = match pred(candidate) {
            Some(p) => p,
            None => {
                proof {
                    assert(days_before(start, (k + 1) as nat) == previous_day(days_before(start, k as nat)));
                    if k < 14 {
                        assert(!found_from(start, (k + 1) as nat, (13 - k) as nat));
                    }
                }
                return Err(broken("NYSE date has no predecessor"));
            },
        };
        proof {
            assert(days_before(start, (k + 1) as nat) == previous_day(days_before(start, k as nat)));
            if k == 14 {
                assert(!found_from(start, 14, 0));
            }
            assert forall|j: nat| j < k + 1 implies !nyse_trading_day(#[trigger] days_before(start, j)) by {
                if j == k {
                }
            }
        }
        k = k + 1;
    }
    Err(broken("unable to resolve latest confirmed NYSE trading date"))
}

} // verus!
