//! The proleptic Gregorian calendar, counted in days from 1970-01-01.
//!
//! A date is what the leap rule and the month lengths make it: the date of day
//! `n` is the one valid date whose day number is `n`. The closed formula that
//! the executable code uses is proved to find it.

use vstd::prelude::*;

verus! {

/// A civil date.
pub struct Date {
    pub year: int,
    pub month: int,
    pub day: int,
}

/// Every fourth year, but of the centuries only every fourth.
pub open spec fn leap(year: int) -> bool {
    year % 4 == 0 && (year % 100 != 0 || year % 400 == 0)
}

/// How many days a month has.
pub open spec fn month_length(year: int, month: int) -> int {
    if month == 2 {
        if leap(year) {
            29
        } else {
            28
        }
    } else if month == 4 || month == 6 || month == 9 || month == 11 {
        30
    } else {
        31
    }
}

/// How many days a year has.
pub open spec fn year_length(year: int) -> int {
    if leap(year) {
        366
    } else {
        365
    }
}

/// How many days of a year come before a month.
pub open spec fn days_before_month(year: int, month: int) -> int
    decreases month,
{
    if month <= 1 {
        0
    } else {
        days_before_month(year, month - 1) + month_length(year, month - 1)
    }
}

/// How many days lie between the first of January of year 1 and that of `year`.
pub open spec fn days_before_year(year: int) -> int {
    365 * (year - 1) + (year - 1) / 4 - (year - 1) / 100 + (year - 1) / 400
}

impl Date {
    /// The month and the day exist.
    pub open spec fn valid(self) -> bool {
        &&& 1 <= self.month <= 12
        &&& 1 <= self.day <= month_length(self.year, self.month)
    }

    /// How many days lie between 1970-01-01 and this date.
    pub open spec fn day_number(self) -> int {
        days_before_year(self.year) - days_before_year(1970) + days_before_month(
            self.year,
            self.month,
        ) + self.day - 1
    }

    /// The date after this one.
    pub open spec fn next(self) -> Date {
        if self.day < month_length(self.year, self.month) {
            Date { day: self.day + 1, ..self }
        } else if self.month < 12 {
            Date { year: self.year, month: self.month + 1, day: 1 }
        } else {
            Date { year: self.year + 1, month: 1, day: 1 }
        }
    }
}

/// The date of day `n`, counted from 1970-01-01.
pub open spec fn date_of(n: int) -> Date {
    choose|d: Date| d.valid() && #[trigger] d.day_number() == n
}

/// The day that a second belongs to, counted from the epoch.
pub open spec fn day_of_second(unix_seconds: int) -> int {
    unix_seconds / 86_400
}

/// The second of its day that a second is.
pub open spec fn second_of_day(unix_seconds: int) -> int {
    unix_seconds % 86_400
}

/// A year is as long as the leap rule says.
pub proof fn lemma_year_length(year: int)
    ensures
        days_before_year(year + 1) - days_before_year(year) == year_length(year),
        days_before_month(year, 13) == year_length(year),
{
    reveal_with_fuel(days_before_month, 14);
}

proof fn lemma_years_apart(a: int, b: int)
    requires
        a < b,
    ensures
        days_before_year(a) + year_length(a) <= days_before_year(b),
    decreases b - a,
{
    lemma_year_length(b - 1);
    if a + 1 < b {
        lemma_years_apart(a, b - 1);
    }
}

proof fn lemma_within_year(d: Date)
    requires
        d.valid(),
    ensures
        0 <= days_before_month(d.year, d.month),
        days_before_month(d.year, d.month) + d.day <= year_length(d.year),
{
    reveal_with_fuel(days_before_month, 14);
}

/// Two valid dates with one day number are one date.
pub proof fn lemma_day_number_injective(a: Date, b: Date)
    requires
        a.valid(),
        b.valid(),
        a.day_number() == b.day_number(),
    ensures
        a == b,
{
    lemma_within_year(a);
    lemma_within_year(b);
    if a.year < b.year {
        lemma_years_apart(a.year, b.year);
    } else if b.year < a.year {
        lemma_years_apart(b.year, a.year);
    } else {
        lemma_months_apart(a, b);
    }
}

proof fn lemma_months_apart(a: Date, b: Date)
    requires
        a.valid(),
        b.valid(),
        a.year == b.year,
        days_before_month(a.year, a.month) + a.day == days_before_month(b.year, b.month) + b.day,
    ensures
        a == b,
{
    reveal_with_fuel(days_before_month, 13);
}

/// Dates come in the order of their day numbers: by year, then by month, then by
/// day.
pub proof fn lemma_dates_in_order(a: Date, b: Date)
    requires
        a.valid(),
        b.valid(),
        a.day_number() < b.day_number(),
    ensures
        a.year < b.year || (a.year == b.year && (a.month < b.month || (a.month == b.month && a.day
            < b.day))),
{
    lemma_within_year(a);
    lemma_within_year(b);
    if b.year < a.year {
        lemma_years_apart(b.year, a.year);
    } else if a.year == b.year {
        reveal_with_fuel(days_before_month, 13);
    }
}

/// The dates from one first of January to another are those of the years between
/// them.
pub proof fn lemma_years_between(d: Date, first: int, end: int)
    requires
        d.valid(),
        days_before_year(first) <= d.day_number() + days_before_year(1970) < days_before_year(end),
    ensures
        first <= d.year < end,
{
    lemma_within_year(d);
    if d.year < first {
        lemma_years_apart(d.year, first);
    }
    if d.year > end {
        lemma_years_apart(end, d.year);
    }
}

/// A day number tells the year to within its length.
pub proof fn lemma_year_bound(d: Date)
    requires
        d.valid(),
    ensures
        days_before_year(d.year) - days_before_year(1970) <= d.day_number(),
        d.day_number() < days_before_year(d.year) - days_before_year(1970) + year_length(d.year),
        1 <= d.day <= 31,
{
    lemma_within_year(d);
}

/// `date_of` gives the one valid date with the day number asked for.
pub proof fn lemma_date_of(d: Date)
    requires
        d.valid(),
    ensures
        date_of(d.day_number()) == d,
{
    let n = d.day_number();
    let c = date_of(n);
    assert(c.valid() && c.day_number() == n);
    lemma_day_number_injective(c, d);
}

/// Every day has a date.
pub proof fn lemma_date_of_valid(n: int)
    ensures
        date_of(n).valid(),
        date_of(n).day_number() == n,
{
    let d = formula(n);
    lemma_formula(n);
    assert(d.valid() && d.day_number() == n);
}

/// The day after is the next date: the calendar never skips and never repeats.
pub proof fn lemma_next_day(n: int)
    ensures
        date_of(n + 1) == date_of(n).next(),
{
    lemma_date_of_valid(n);
    let d = date_of(n);
    let e = d.next();
    lemma_year_length(d.year);
    reveal_with_fuel(days_before_month, 14);
    assert(e.valid());
    assert(e.day_number() == n + 1);
    lemma_date_of(e);
}

/// Day zero is the first of January 1970.
pub proof fn lemma_epoch()
    ensures
        date_of(0) == (Date { year: 1970, month: 1, day: 1 }),
{
    let d = Date { year: 1970, month: 1, day: 1 };
    reveal_with_fuel(days_before_month, 2);
    assert(d.valid() && d.day_number() == 0);
    lemma_date_of(d);
}

/// Day `doy` of the year that begins in March of year `y`.
spec fn march_date(y: int, doy: int) -> Date {
    let mp = (5 * doy + 2) / 153;
    let month = if mp < 10 {
        mp + 3
    } else {
        mp - 9
    };
    Date {
        year: if month <= 2 {
            y + 1
        } else {
            y
        },
        month,
        day: doy - (153 * mp + 2) / 5 + 1,
    }
}

/// The closed formula, with years that begin in March so that the leap day
/// falls at the end.
spec fn formula(n: int) -> Date {
    let z = n + 719_468;
    let era = z / 146_097;
    let doe = z % 146_097;
    let yoe = year_of_era(doe);
    march_date(yoe + era * 400, doe - (365 * yoe + yoe / 4 - yoe / 100))
}

#[verifier::opaque]
spec fn year_of_era(doe: int) -> int {
    (doe - doe / 1_460 + doe / 36_524 - doe / 146_096) / 365
}

proof fn lemma_year_of_era(doe: int)
    requires
        0 <= doe < 146_097,
    ensures
        ({
            let yoe = year_of_era(doe);
            let doy = doe - (365 * yoe + yoe / 4 - yoe / 100);
            &&& 0 <= yoe < 400
            &&& 0 <= doy
            &&& doy < if leap(yoe + 1) {
                366int
            } else {
                365int
            }
        }),
{
    reveal(year_of_era);
    let c = doe / 36_524;
    let yoe = year_of_era(doe);
    assert(0 <= c <= 4);
    assert(0 <= yoe < 400);
    assert(yoe / 100 == if c == 4 {
        3
    } else {
        c
    });
}

proof fn lemma_march_date(y: int, doy: int)
    requires
        0 <= doy,
        doy < if leap(y + 1) {
            366int
        } else {
            365int
        },
    ensures
        march_date(y, doy).valid(),
        march_date(y, doy).day_number() == 365 * y + y / 4 - y / 100 + y / 400 + doy - 719_468,
{
    let d = march_date(y, doy);
    let mp = (5 * doy + 2) / 153;
    reveal_with_fuel(days_before_month, 13);
    assert(0 <= mp <= 11);
    lemma_year_length(y);
    assert(days_before_year(y + 1) == 365 * y + y / 4 - y / 100 + y / 400);
    assert(days_before_year(1970) == 719_162);
    if mp == 0 {
    } else if mp == 1 {
    } else if mp == 2 {
    } else if mp == 3 {
    } else if mp == 4 {
    } else if mp == 5 {
    } else if mp == 6 {
    } else if mp == 7 {
    } else if mp == 8 {
    } else if mp == 9 {
    } else if mp == 10 {
        assert(d.year == y + 1 && d.month == 1 && d.day == doy - 305);
    } else {
        assert(d.year == y + 1 && d.month == 2 && d.day == doy - 336);
    }
}

proof fn lemma_era(era: int, yoe: int)
    requires
        0 <= yoe < 400,
    ensures
        ({
            let y = yoe + era * 400;
            &&& y / 4 == yoe / 4 + 100 * era
            &&& y / 100 == yoe / 100 + 4 * era
            &&& y / 400 == era
            &&& leap(y + 1) == leap(yoe + 1)
        }),
{
}

#[verifier::spinoff_prover]
proof fn lemma_formula(n: int)
    ensures
        formula(n).valid(),
        formula(n).day_number() == n,
{
    let z = n + 719_468;
    let era = z / 146_097;
    let doe = z % 146_097;
    lemma_year_of_era(doe);
    let yoe = year_of_era(doe);
    lemma_era(era, yoe);
    let doy = doe - (365 * yoe + yoe / 4 - yoe / 100);
    lemma_march_date(yoe + era * 400, doy);
}

/// The quotient rounded down, by a positive constant.
fn floor_div(a: i64, b: i64) -> (q: i64)
    requires
        b > 0,
    ensures
        q == a as int / b as int,
{
    assert(i64::MIN <= a as int / b as int <= i64::MAX) by (nonlinear_arith)
        requires
            b > 0,
            i64::MIN <= a <= i64::MAX,
    ;
    match a.checked_div_euclid(b) {
        Some(q) => q,
        None => 0,
    }
}

/// Split a count of seconds into its day and the second of that day.
pub fn split_seconds(unix_seconds: i64) -> (r: (i64, i64))
    ensures
        r.0 == day_of_second(unix_seconds as int),
        r.1 == second_of_day(unix_seconds as int),
        0 <= r.1 < 86_400,
        -106_751_991_167_301 <= r.0 <= 106_751_991_167_300,
{
    let days = floor_div(unix_seconds, 86_400);
    let second: i64 = match unix_seconds.checked_rem_euclid(86_400) {
        Some(r) => r,
        None => 0,
    };
    (days, second)
}

/// The date of a day, counted from 1970-01-01.
///
/// Years are counted from March so that the leap day falls at the end of one,
/// and the month lengths follow a linear formula.
pub fn civil_from_days(days: i64) -> (r: (i64, u32, u32))
    requires
        days <= i64::MAX - 719_468,
    ensures
        (Date { year: r.0 as int, month: r.1 as int, day: r.2 as int }) == date_of(days as int),
        1 <= r.1 <= 12,
        1 <= r.2 <= 31,
        -100_000_000_000_000_000 < r.0 < 100_000_000_000_000_000,
{
    let z: i64 = days + 719_468;
    let era = floor_div(z, 146_097);
    let doe: i64 = z - era * 146_097;
    let yoe: i64 = (doe - doe / 1_460 + doe / 36_524 - doe / 146_096) / 365;
    proof {
        lemma_formula(days as int);
        lemma_date_of(formula(days as int));
        reveal(year_of_era);
        lemma_year_of_era(doe as int);
        lemma_date_of_valid(days as int);
    }
    let y: i64 = yoe + era * 400;
    let doy: i64 = doe - (365 * yoe + yoe / 4 - yoe / 100);
    let mp: i64 = (5 * doy + 2) / 153;
    let d: i64 = doy - (153 * mp + 2) / 5 + 1;
    let m: i64 = if mp < 10 {
        mp + 3
    } else {
        mp - 9
    };
    let year: i64 = if m <= 2 {
        y + 1
    } else {
        y
    };
    (year, m as u32, d as u32)
}

} // verus!
