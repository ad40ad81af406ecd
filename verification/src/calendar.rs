use vstd::prelude::*;

use vstd::string::*;

use chrono::{Datelike, NaiveDate};

use crate::text::{padded_decimal, signed_padded_decimal, signed_zero_padded, zero_padded};

verus! {

/// A day of the proleptic Gregorian calendar, held as plain numbers.
#[derive(Debug, Clone, Copy, PartialEq, Eq, Structural)]
pub struct CivilDate {
    pub year: i32,
    pub month: u32,
    pub day: u32,
}

/// Whether `year` is a Gregorian leap year.
pub open spec fn is_leap_year(year: int) -> bool {
    (year % 4 == 0 && year % 100 != 0) || year % 400 == 0
}

/// The number of days in a month of a year.
pub open spec fn days_in_month(year: int, month: int) -> int {
    if month == 2 {
        if is_leap_year(year) { 29 } else { 28 }
    } else if month == 4 || month == 6 || month == 9 || month == 11 {
        30
    } else {
        31
    }
}

/// Whether the numbers name a real calendar day.
pub open spec fn valid_date(d: CivilDate) -> bool {
    1 <= d.month <= 12 && 1 <= d.day <= days_in_month(d.year as int, d.month as int)
}

/// Calendar order: by year, then month, then day.
pub open spec fn date_before(a: CivilDate, b: CivilDate) -> bool {
    a.year < b.year || (a.year == b.year && (a.month < b.month || (a.month == b.month && a.day
        < b.day)))
}

pub open spec fn date_not_after(a: CivilDate, b: CivilDate) -> bool {
    date_before(a, b) || a == b
}

/// Whether `a` falls strictly before `b`.
pub fn date_lt(a: CivilDate, b: CivilDate) -> (r: bool)
    ensures
        r == date_before(a, b),
{
    a.year < b.year || (a.year == b.year && (a.month < b.month || (a.month == b.month && a.day
        < b.day)))
}

/// Whether `a` falls on or before `b`.
pub fn date_le(a: CivilDate, b: CivilDate) -> (r: bool)
    ensures
        r == date_not_after(a, b),
{
    date_lt(a, b) || (a.year == b.year && a.month == b.month && a.day == b.day)
}


/// Earliest year chrono's `NaiveDate` represents.
pub const MIN_YEAR: i32 = -262_143;

/// Latest year chrono's `NaiveDate` represents.
pub const MAX_YEAR: i32 = 262_142;

/// A real calendar day inside chrono's range.
pub open spec fn representable(d: CivilDate) -> bool {
    valid_date(d) && MIN_YEAR <= d.year <= MAX_YEAR
}

/// The calendar day after `d`.
pub open spec fn next_day(d: CivilDate) -> CivilDate {
    if (d.day as int) < days_in_month(d.year as int, d.month as int) {
        CivilDate { year: d.year, month: d.month, day: (d.day + 1) as u32 }
    } else if d.month < 12 {
        CivilDate { year: d.year, month: (d.month + 1) as u32, day: 1 }
    } else {
        CivilDate { year: (d.year + 1) as i32, month: 1, day: 1 }
    }
}

/// The calendar day before `d`.
pub open spec fn previous_day(d: CivilDate) -> CivilDate {
    if d.day > 1 {
        CivilDate { year: d.year, month: d.month, day: (d.day - 1) as u32 }
    } else if d.month > 1 {
        CivilDate {
            year: d.year,
            month: (d.month - 1) as u32,
            day: days_in_month(d.year as int, d.month - 1) as u32,
        }
    } else {
        CivilDate { year: (d.year - 1) as i32, month: 12, day: 31 }
    }
}

/// The day `n` days after `d`, stepping one calendar day at a time.
pub open spec fn days_after(d: CivilDate, n: nat) -> CivilDate
    decreases n,
{
    if n == 0 {
        d
    } else {
        next_day(days_after(d, (n - 1) as nat))
    }
}

/// The day `n` days before `d`.
pub open spec fn days_before(d: CivilDate, n: nat) -> CivilDate
    decreases n,
{
    if n == 0 {
        d
    } else {
        previous_day(days_before(d, (n - 1) as nat))
    }
}

/// The number of a day counted from 1970-01-01 in the proleptic Gregorian calendar, by
/// years that start in March (so that a leap day ends its year).
#[verifier::opaque]
pub open spec fn day_number(d: CivilDate) -> int {
    let y = if d.month <= 2 { d.year - 1 } else { d.year as int };
    let era = y / 400;
    let yoe = y % 400;
    let mp = if d.month > 2 { d.month - 3 } else { d.month + 9 };
    let doy = (153 * mp + 2) / 5 + d.day - 1;
    era * 146097 + yoe * 365 + yoe / 4 - yoe / 100 + doy - 719468
}

/// The weekday of a day, counted from Monday as 0: 1970-01-01 was a Thursday.
pub open spec fn weekday_of(d: CivilDate) -> int {
    (day_number(d) + 3) % 7
}

/// The days before March of a March-based year, summed over the eras and years before it.
spec fn year_base(y: int) -> int {
    (y / 400) * 146097 + (y % 400) * 365 + (y % 400) / 4 - (y % 400) / 100
}

proof fn lemma_year_base_step(y: int)
    ensures
        year_base(y + 1) == year_base(y) + 365 + if is_leap_year(y + 1) { 1int } else { 0 },
{
    let era = y / 400;
    let yoe = y % 400;
    assert(y == 400 * era + yoe && 0 <= yoe < 400) by (nonlinear_arith)
        requires
            era == y / 400,
            yoe == y % 400,
    ;
    if yoe < 399 {
        assert((y + 1) / 400 == era && (y + 1) % 400 == yoe + 1) by (nonlinear_arith)
            requires
                y == 400 * era + yoe,
                0 <= yoe < 399,
        ;
        assert((y + 1) % 4 == (yoe + 1) % 4 && (y + 1) % 100 == (yoe + 1) % 100) by (nonlinear_arith)
            requires
                y == 400 * era + yoe,
        ;
    } else {
        assert((y + 1) / 400 == era + 1 && (y + 1) % 400 == 0) by (nonlinear_arith)
            requires
                y == 400 * era + yoe,
                yoe == 399,
        ;
    }
}

/// The day after a real day is numbered one more.
pub proof fn lemma_next_day_number(d: CivilDate)
    requires
        valid_date(d),
        d.year < i32::MAX || d.month < 12 || d.day < 31,
    ensures
        day_number(next_day(d)) == day_number(d) + 1,
        weekday_of(next_day(d)) == (weekday_of(d) + 1) % 7,
{
    reveal(day_number);
    let n = next_day(d);
    if (d.day as int) < days_in_month(d.year as int, d.month as int) {
    } else if d.month < 12 {
        if d.month == 2 {
            lemma_year_base_step(d.year - 1);
            assert(day_number(d) == year_base(d.year - 1) + 337 + d.day - 1 - 719468);
            assert(day_number(n) == year_base(d.year as int) - 719468);
        }
    } else {
    }
    assert((day_number(d) + 1 + 3) % 7 == ((day_number(d) + 3) % 7 + 1) % 7) by (nonlinear_arith);
}

/// A real day after the first of chrono's range follows the day before it.
pub proof fn lemma_previous_day_number(d: CivilDate)
    requires
        valid_date(d),
        d.year > i32::MIN,
    ensures
        valid_date(previous_day(d)),
        next_day(previous_day(d)) == d,
        day_number(previous_day(d)) == day_number(d) - 1,
        weekday_of(previous_day(d)) == (weekday_of(d) + 6) % 7,
{
    let p = previous_day(d);
    assert(next_day(p) == d);
    lemma_next_day_number(p);
    assert((day_number(d) - 1 + 3) % 7 == ((day_number(d) + 3) % 7 + 6) % 7) by (nonlinear_arith);
}

/// `NaiveDate::from_ymd_opt`: the day exists and lies in chrono's range.
#[verifier::external_body]
pub(crate) fn from_ymd(year: i32, month: u32, day: u32) -> (r: Option<CivilDate>)
    ensures
        r is Some <==> representable(CivilDate { year, month, day }),
        r matches Some(d) ==> d == (CivilDate { year, month, day }),
{
    match NaiveDate::from_ymd_opt(year, month, day) {
        Some(n) => Some(CivilDate { year: n.year(), month: n.month(), day: n.day() }),
        None => None,
    }
}

/// `NaiveDate::succ_opt`: the next day, if chrono can hold it.
#[verifier::external_body]
pub(crate) fn succ(d: CivilDate) -> (r: Option<CivilDate>)
    requires
        representable(d),
    ensures
        r is Some <==> representable(next_day(d)),
        r matches Some(n) ==> n == next_day(d),
{
    match NaiveDate::from_ymd_opt(d.year, d.month, d.day).unwrap().succ_opt() {
        Some(n) => Some(CivilDate { year: n.year(), month: n.month(), day: n.day() }),
        None => None,
    }
}

/// `NaiveDate::pred_opt`: the previous day, if chrono can hold it.
#[verifier::external_body]
pub(crate) fn pred(d: CivilDate) -> (r: Option<CivilDate>)
    requires
        representable(d),
    ensures
        r is Some <==> representable(previous_day(d)),
        r matches Some(n) ==> n == previous_day(d),
{
    match NaiveDate::from_ymd_opt(d.year, d.month, d.day).unwrap().pred_opt() {
        Some(n) => Some(CivilDate { year: n.year(), month: n.month(), day: n.day() }),
        None => None,
    }
}

/// `Datelike::weekday().num_days_from_monday()`: chrono's dates are proleptic Gregorian,
/// so the weekday is the one the day count from 1970-01-01 (a Thursday) gives.
#[verifier::external_body]
pub(crate) fn weekday(d: CivilDate) -> (w: u32)
    requires
        representable(d),
    ensures
        w == weekday_of(d),
        w < 7,
{
    NaiveDate::from_ymd_opt(d.year, d.month, d.day).unwrap().weekday().num_days_from_monday()
}

/// The bound on the steps and years the stepping lemmas below reason about, well inside
/// `i32`.
pub open spec fn step_bound() -> int {
    1_000_000
}

/// Stepping forward from a real day stays on real days and never moves the year back,
/// nor forward by more than the number of steps.
pub proof fn lemma_days_after_valid(d: CivilDate, k: nat)
    requires
        valid_date(d),
        -3 * step_bound() <= d.year <= 3 * step_bound(),
        k <= step_bound(),
    ensures
        valid_date(days_after(d, k)),
        d.year <= days_after(d, k).year <= d.year + k,
    decreases k,
{
    if k > 0 {
        lemma_days_after_valid(d, (k - 1) as nat);
    }
}

/// Stepping backward from a real day stays on real days and never moves the year
/// forward, nor back by more than the number of steps.
pub proof fn lemma_days_before_valid(d: CivilDate, k: nat)
    requires
        valid_date(d),
        -3 * step_bound() <= d.year <= 3 * step_bound(),
        k <= step_bound(),
    ensures
        valid_date(days_before(d, k)),
        d.year - k <= days_before(d, k).year <= d.year,
    decreases k,
{
    if k > 0 {
        lemma_days_before_valid(d, (k - 1) as nat);
        let p = days_before(d, (k - 1) as nat);
        if p.day <= 1 && p.month > 1 {
            assert(1 <= days_in_month(p.year as int, p.month - 1));
        }
    }
}

/// Stepping `n` days forward moves the weekday `n` places on.
pub proof fn lemma_weekday_after(d: CivilDate, n: nat)
    requires
        valid_date(d),
        -3 * step_bound() <= d.year <= 3 * step_bound(),
        n <= step_bound(),
    ensures
        weekday_of(days_after(d, n)) == (weekday_of(d) + n) % 7,
    decreases n,
{
    if n > 0 {
        let m = (n - 1) as nat;
        lemma_weekday_after(d, m);
        lemma_days_after_valid(d, m);
        lemma_next_day_number(days_after(d, m));
        let w = weekday_of(d);
        assert(((w + m) % 7 + 1) % 7 == (w + n) % 7) by (nonlinear_arith)
            requires
                n == m + 1,
        ;
    }
}

/// Stepping `n` days back moves the weekday `n` places back.
pub proof fn lemma_weekday_before(d: CivilDate, n: nat)
    requires
        valid_date(d),
        -3 * step_bound() <= d.year <= 3 * step_bound(),
        n <= step_bound(),
    ensures
        weekday_of(days_before(d, n)) == (weekday_of(d) - n) % 7,
    decreases n,
{
    if n > 0 {
        let m = (n - 1) as nat;
        lemma_weekday_before(d, m);
        lemma_days_before_valid(d, m);
        lemma_previous_day_number(days_before(d, m));
        let w = weekday_of(d);
        assert(((w - m) % 7 + 6) % 7 == (w - n) % 7) by (nonlinear_arith)
            requires
                n == m + 1,
        ;
    }
}

/// `a + b` steps forward are `a` steps, then `b`.
pub proof fn lemma_days_after_split(d: CivilDate, a: nat, b: nat)
    ensures
        days_after(d, a + b) == days_after(days_after(d, a), b),
    decreases b,
{
    if b > 0 {
        lemma_days_after_split(d, a, (b - 1) as nat);
        assert((a + b - 1) as nat == a + (b - 1) as nat);
    }
}

/// `a + b` steps backward are `a` steps, then `b`.
pub proof fn lemma_days_before_split(d: CivilDate, a: nat, b: nat)
    ensures
        days_before(d, a + b) == days_before(days_before(d, a), b),
    decreases b,
{
    if b > 0 {
        lemma_days_before_split(d, a, (b - 1) as nat);
        assert((a + b - 1) as nat == a + (b - 1) as nat);
    }
}

/// Chrono's range has no holes going forward: when the day `n` steps on is in it, so is
/// every day in between.
pub proof fn lemma_days_after_convex(d: CivilDate, k: nat, n: nat)
    requires
        representable(d),
        k <= n <= step_bound(),
        representable(days_after(d, n)),
    ensures
        representable(days_after(d, k)),
{
    lemma_days_after_valid(d, k);
    let x = days_after(d, k);
    lemma_days_after_split(d, k, (n - k) as nat);
    assert((k + (n - k) as nat) as nat == n);
    lemma_days_after_valid(x, (n - k) as nat);
}

/// Chrono's range has no holes going backward: when the day `n` steps back is in it, so
/// is every day in between.
pub proof fn lemma_days_before_convex(d: CivilDate, k: nat, n: nat)
    requires
        representable(d),
        k <= n <= step_bound(),
        representable(days_before(d, n)),
    ensures
        representable(days_before(d, k)),
{
    lemma_days_before_valid(d, k);
    let x = days_before(d, k);
    lemma_days_before_split(d, k, (n - k) as nat);
    assert((k + (n - k) as nat) as nat == n);
    lemma_days_before_valid(x, (n - k) as nat);
}

/// The day `n` days after `d`, or `None` when that leaves chrono's range.
pub fn add_days(d: CivilDate, n: u32) -> (r: Option<CivilDate>)
    requires
        representable(d),
    ensures
        r matches Some(x) ==> x == days_after(d, n as nat) && representable(x),
        r is None ==> exists|k: nat| k <= n && !representable(#[trigger] days_after(d, k)),
        n <= step_bound() ==> (r is Some <==> representable(days_after(d, n as nat))),
{
    let mut cur = d;
    let mut i: u32 = 0;
    while i < n
        invariant
            i <= n,
            cur == days_after(d, i as nat),
            representable(cur),
            representable(d),
        decreases n - i,
    {
        match succ(cur) {
            Some(x) => {
                cur = x;
                i = i + 1;
            },
            None => {
                assert(!representable(days_after(d, (i + 1) as nat)));
                proof {
                    if n <= step_bound() && representable(days_after(d, n as nat)) {
                        lemma_days_after_convex(d, (i + 1) as nat, n as nat);
                    }
                }
                return None;
            },
        }
    }
    Some(cur)
}

/// The day `n` days before `d`, or `None` when that leaves chrono's range.
pub fn sub_days(d: CivilDate, n: u32) -> (r: Option<CivilDate>)
    requires
        representable(d),
    ensures
        r matches Some(x) ==> x == days_before(d, n as nat) && representable(x),
        r is None ==> exists|k: nat| k <= n && !representable(#[trigger] days_before(d, k)),
        n <= step_bound() ==> (r is Some <==> representable(days_before(d, n as nat))),
{
    let mut cur = d;
    let mut i: u32 = 0;
    while i < n
        invariant
            i <= n,
            cur == days_before(d, i as nat),
            representable(cur),
            representable(d),
        decreases n - i,
    {
        match pred(cur) {
            Some(x) => {
                cur = x;
                i = i + 1;
            },
            None => {
                assert(!representable(days_before(d, (i + 1) as nat)));
                proof {
                    if n <= step_bound() && representable(days_before(d, n as nat)) {
                        lemma_days_before_convex(d, (i + 1) as nat, n as nat);
                    }
                }
                return None;
            },
        }
    }
    Some(cur)
}

/// The first day of the month holding `d`.
pub open spec fn first_of_month(d: CivilDate) -> CivilDate {
    CivilDate { year: d.year, month: d.month, day: 1 }
}

/// The last day of a month.
pub open spec fn last_of_month(year: int, month: int) -> CivilDate {
    CivilDate { year: year as i32, month: month as u32, day: days_in_month(year, month) as u32 }
}

/// The first day of the following month.
pub open spec fn first_of_next_month(d: CivilDate) -> CivilDate {
    if d.month == 12 {
        CivilDate { year: (d.year + 1) as i32, month: 1, day: 1 }
    } else {
        CivilDate { year: d.year, month: (d.month + 1) as u32, day: 1 }
    }
}

/// A month written `YYYY-MM`, as `{:04}-{:02}` writes the year and month.
pub open spec fn month_text(year: int, month: int) -> Seq<char> {
    signed_zero_padded(year, 4) + "-"@ + zero_padded(month as nat, 2)
}

/// A month written `YYYY-MM`.
pub fn month_label(year: i32, month: u32) -> (s: String)
    ensures
        s@ == month_text(year as int, month as int),
{
    let mut out = signed_padded_decimal(year as i64, 4);
    out.append("-");
    let m = padded_decimal(month as u64, 2);
    out.append(m.as_str());
    out
}

/// The day after a real day is a real day, and comes right after it: a real day
/// precedes it exactly when it is not after the first.
pub proof fn lemma_next_day_order(a: CivilDate, b: CivilDate)
    requires
        valid_date(a),
        valid_date(b),
        a.year < i32::MAX,
    ensures
        valid_date(next_day(a)),
        date_before(a, next_day(a)),
        date_before(b, next_day(a)) <==> date_not_after(b, a),
{
    let n = next_day(a);
    if (a.day as int) < days_in_month(a.year as int, a.month as int) {
        assert(n.year == a.year && n.month == a.month && n.day == a.day + 1);
    } else if a.month < 12 {
        assert(n.year == a.year && n.month == a.month + 1 && n.day == 1);
        assert(a.day as int == days_in_month(a.year as int, a.month as int));
    } else {
        assert(n.year == a.year + 1 && n.month == 1 && n.day == 1);
        assert(a.month == 12 && a.day == 31);
    }
}

/// Calendar order is transitive.
pub proof fn lemma_date_transitive(a: CivilDate, b: CivilDate, c: CivilDate)
    ensures
        date_not_after(a, b) && date_not_after(b, c) ==> date_not_after(a, c),
        date_before(a, b) && date_not_after(b, c) ==> date_before(a, c),
        date_not_after(a, b) && date_before(b, c) ==> date_before(a, c),
{
}

/// Calendar order is total.
pub proof fn lemma_date_total(a: CivilDate, b: CivilDate)
    ensures
        date_before(a, b) || a == b || date_before(b, a),
        !(date_before(a, b) && date_not_after(b, a)),
{
}

/// The later of two days.
pub fn later_of(a: CivilDate, b: CivilDate) -> (r: CivilDate)
    ensures
        r == (if date_before(a, b) { b } else { a }),
{
    if date_lt(a, b) {
        b
    } else {
        a
    }
}

/// The earlier of two days.
pub fn earlier_of(a: CivilDate, b: CivilDate) -> (r: CivilDate)
    ensures
        r == (if date_before(b, a) { b } else { a }),
{
    if date_lt(b, a) {
        b
    } else {
        a
    }
}

/// The number of days from `from` to `to`.
pub open spec fn day_count_between(from: CivilDate, to: CivilDate) -> int {
    day_number(to) - day_number(from)
}

/// `(to - from).num_days()` on chrono dates: the difference of their day counts in the
/// proleptic Gregorian calendar, so that stepping that many days forward from `from`
/// (backward, when negative) reaches `to`.
#[verifier::external_body]
pub(crate) fn days_between(from: CivilDate, to: CivilDate) -> (n: i64)
    requires
        representable(from),
        representable(to),
    ensures
        n == day_count_between(from, to),
        n >= 0 ==> to == days_after(from, n as nat),
        n < 0 ==> to == days_before(from, (-n) as nat),
{
    let a = NaiveDate::from_ymd_opt(from.year, from.month, from.day).unwrap();
    let b = NaiveDate::from_ymd_opt(to.year, to.month, to.day).unwrap();
    (b - a).num_days()
}

/// A year as chrono's `%Y` writes it: four digits, zero-padded, for years 0 to 9999;
/// otherwise with its sign, zero-padded to five characters.
pub open spec fn iso_year_text(year: int) -> Seq<char> {
    if 0 <= year <= 9999 {
        zero_padded(year as nat, 4)
    } else if year < 0 {
        "-"@ + zero_padded((-year) as nat, 4)
    } else {
        "+"@ + zero_padded(year as nat, 4)
    }
}

/// A date as chrono's `%Y-%m-%d` writes it.
pub open spec fn iso_date_text(d: CivilDate) -> Seq<char> {
    iso_year_text(d.year as int) + "-"@ + zero_padded(d.month as nat, 2) + "-"@ + zero_padded(
        d.day as nat,
        2,
    )
}

/// Writes a date as `%Y-%m-%d`.
pub fn iso_date(d: CivilDate) -> (s: String)
    ensures
        s@ == iso_date_text(d),
{
    let year = if d.year >= 0 && d.year <= 9999 {
        padded_decimal(d.year as u64, 4)
    } else if d.year < 0 {
        let magnitude: u64 = if d.year == i32::MIN {
            0x8000_0000
        } else {
            (-d.year) as u64
        };
        "-".to_owned().concat(padded_decimal(magnitude, 4).as_str())
    } else {
        "+".to_owned().concat(padded_decimal(d.year as u64, 4).as_str())
    };
    year.concat("-").concat(padded_decimal(d.month as u64, 2).as_str()).concat("-").concat(
        padded_decimal(d.day as u64, 2).as_str(),
    )
}


} // verus!
