//! Calendar formatting for the one place where the Data API insists on an
//! absolute instant.
//!
//! Expiry on a write goes out as a duration (`"600s"`), which needs no calendar
//! at all. The touch endpoint is the exception: it takes an ISO 8601 timestamp,
//! so a relative time to live has to be added to the wall clock and rendered as
//! a civil date.

use vstd::prelude::*;
use vstd::string::*;

use crate::calendar;
use crate::calendar::Date;
use crate::number;
use crate::text;

verus! {

/// A number of at least `width` characters, a minus sign among them.
pub open spec fn signed_padded(n: int, width: nat) -> Seq<char> {
    if n < 0 {
        "-"@ + number::zero_padded(
            number::decimal((-n) as nat),
            if width > 0 {
                (width - 1) as nat
            } else {
                0
            },
        )
    } else {
        number::zero_padded(number::decimal(n as nat), width)
    }
}

/// Two digits.
pub open spec fn two(n: int) -> Seq<char> {
    number::zero_padded(number::decimal(n as nat), 2)
}

/// An instant as ISO 8601, in UTC, with milliseconds that are always zero.
pub open spec fn iso8601(unix_seconds: int) -> Seq<char> {
    let date = calendar::date_of(calendar::day_of_second(unix_seconds));
    let second = calendar::second_of_day(unix_seconds);
    signed_padded(date.year, 4) + "-"@ + two(date.month) + "-"@ + two(date.day) + "T"@ + two(
        second / 3_600,
    ) + ":"@ + two(second % 3_600 / 60) + ":"@ + two(second % 60) + ".000Z"@
}

fn padded(n: u64, width: usize) -> (s: String)
    ensures
        s@ == number::zero_padded(number::decimal(n as nat), width as nat),
{
    let cs = number::digits_of(n, 10);
    number::pad_zeros(cs.as_slice(), width)
}

fn year_text(year: i64) -> (s: String)
    requires
        year > i64::MIN,
    ensures
        s@ == signed_padded(year as int, 4),
{
    if year < 0 {
        let digits = padded((0 - year) as u64, 3);
        text::joined("-", digits.as_str())
    } else {
        padded(year as u64, 4)
    }
}

/// Format `unix_seconds` (seconds since 1970-01-01T00:00:00Z) as an ISO 8601
/// instant with millisecond precision, e.g. `2026-07-31T20:42:41.000Z`.
///
/// Millis are always `.000`: the only caller adds a whole number of seconds to
/// a whole-second clock reading.
pub fn iso8601_utc(unix_seconds: i64) -> (s: String)
    ensures
        s@ == iso8601(unix_seconds as int),
{
    let (days, second) = calendar::split_seconds(unix_seconds);
    let (year, month, day) = calendar::civil_from_days(days);
    let mut s = year_text(year);
    s.append("-");
    s.append(padded(month as u64, 2).as_str());
    s.append("-");
    s.append(padded(day as u64, 2).as_str());
    s.append("T");
    s.append(padded((second / 3_600) as u64, 2).as_str());
    s.append(":");
    s.append(padded(((second % 3_600) / 60) as u64, 2).as_str());
    s.append(":");
    s.append(padded((second % 60) as u64, 2).as_str());
    s.append(".000Z");
    s
}

/// The first second of the year 0.
pub const FIRST_SECOND: i64 = -62_167_219_200;

/// The last second of the year 9999.
pub const LAST_SECOND: i64 = 253_402_300_799;

/// Whether a text has the shape `YYYY-MM-DDTHH:MM:SS.000Z`.
pub open spec fn is_timestamp(t: Seq<char>) -> bool {
    &&& t.len() == 24
    &&& t[4] == '-' && t[7] == '-' && t[10] == 'T' && t[13] == ':' && t[16] == ':'
    &&& t.skip(19) == ".000Z"@
    &&& forall|i: int|
        0 <= i < 19 && i != 4 && i != 7 && i != 10 && i != 13 && i != 16 ==> number::digit_value(
            #[trigger] t[i],
            10,
        ) is Some
}

/// What follows the year.
spec fn after_year(date: Date, second: int) -> Seq<char> {
    "-"@ + (two(date.month) + ("-"@ + (two(date.day) + ("T"@ + clock(second)))))
}

/// The time of day.
spec fn clock(second: int) -> Seq<char> {
    two(second / 3_600) + (":"@ + (two(second % 3_600 / 60) + (":"@ + (two(second % 60)
        + ".000Z"@))))
}

proof fn lemma_two(n: int)
    requires
        0 <= n < 100,
    ensures
        two(n).len() == 2,
        number::digits_value(two(n), 10) == Some(n as nat),
        number::digit_value(two(n)[0], 10) is Some,
        number::digit_value(two(n)[1], 10) is Some,
{
    assert(number::power(10, 2) == 100) by {
        reveal_with_fuel(number::power, 3);
    }
    number::lemma_padded(n as nat, 2, 10);
}

proof fn lemma_year_text(year: int)
    requires
        0 <= year <= 9999,
    ensures
        signed_padded(year, 4).len() == 4,
        number::digits_value(signed_padded(year, 4), 10) == Some(year as nat),
        forall|i: int|
            0 <= i < 4 ==> number::digit_value(#[trigger] signed_padded(year, 4)[i], 10) is Some,
{
    assert(number::power(10, 4) == 10_000) by {
        reveal_with_fuel(number::power, 5);
    }
    number::lemma_padded(year as nat, 4, 10);
}

/// The date of a second of the years 0 to 9999.
proof fn lemma_date(unix_seconds: int) -> (date: Date)
    requires
        FIRST_SECOND <= unix_seconds <= LAST_SECOND,
    ensures
        date == calendar::date_of(calendar::day_of_second(unix_seconds)),
        date.valid(),
        date.day_number() == calendar::day_of_second(unix_seconds),
        0 <= date.year <= 9999,
        1 <= date.month <= 12,
        1 <= date.day <= 31,
        0 <= calendar::second_of_day(unix_seconds) < 86_400,
{
    let n = calendar::day_of_second(unix_seconds);
    let date = calendar::date_of(n);
    calendar::lemma_date_of_valid(n);
    assert(calendar::days_before_year(0) == -366);
    assert(calendar::days_before_year(1970) == 719_162);
    assert(calendar::days_before_year(10_000) == 3_652_059);
    calendar::lemma_years_between(date, 0, 10_000);
    date
}

/// An instant of the years 0 to 9999 is written in 24 characters, all in the
/// same places.
pub proof fn lemma_timestamp_shape(unix_seconds: i64)
    requires
        FIRST_SECOND <= unix_seconds <= LAST_SECOND,
    ensures
        is_timestamp(iso8601(unix_seconds as int)),
{
    let t = iso8601(unix_seconds as int);
    let date = lemma_date(unix_seconds as int);
    let second = calendar::second_of_day(unix_seconds as int);
    lemma_year_text(date.year);
    lemma_two(date.month);
    lemma_two(date.day);
    lemma_two(second / 3_600);
    lemma_two(second % 3_600 / 60);
    lemma_two(second % 60);
    reveal_strlit("-");
    reveal_strlit("T");
    reveal_strlit(":");
    reveal_strlit(".000Z");
    let y = signed_padded(date.year, 4);
    assert(t.skip(19) =~= ".000Z"@);
    assert forall|i: int|
        0 <= i < 19 && i != 4 && i != 7 && i != 10 && i != 13 && i != 16 implies number::digit_value(
        #[trigger] t[i],
        10,
    ) is Some by {
        if i < 4 {
            assert(t[i] == y[i]);
        } else if i < 7 {
            assert(t[i] == two(date.month)[i - 5]);
        } else if i < 10 {
            assert(t[i] == two(date.day)[i - 8]);
        } else if i < 13 {
            assert(t[i] == two(second / 3_600)[i - 11]);
        } else if i < 16 {
            assert(t[i] == two(second % 3_600 / 60)[i - 14]);
        } else {
            assert(t[i] == two(second % 60)[i - 17]);
        }
    }
}

proof fn lemma_field(m: int, x: Seq<char>, n: int, y: Seq<char>)
    requires
        0 <= m < 100,
        0 <= n < 100,
        m < n || (m == n && text::before(x, y)),
    ensures
        text::before(two(m) + x, two(n) + y),
{
    lemma_two(m);
    lemma_two(n);
    number::lemma_decimals_in_order(two(m), two(n));
    text::lemma_before_joined(two(m), x, two(n), y);
}

proof fn lemma_mark(mark: Seq<char>, x: Seq<char>, y: Seq<char>)
    requires
        text::before(x, y),
    ensures
        text::before(mark + x, mark + y),
{
    text::lemma_before_joined(mark, x, mark, y);
}

proof fn lemma_clock_in_order(m: int, n: int)
    requires
        0 <= m < n < 86_400,
    ensures
        text::before(clock(m), clock(n)),
{
    let sm = two(m % 60) + ".000Z"@;
    let sn = two(n % 60) + ".000Z"@;
    let mm = two(m % 3_600 / 60) + (":"@ + sm);
    let mn = two(n % 3_600 / 60) + (":"@ + sn);
    if m / 3_600 == n / 3_600 {
        if m % 3_600 / 60 == n % 3_600 / 60 {
            assert(m % 60 < n % 60);
            lemma_field(m % 60, ".000Z"@, n % 60, ".000Z"@);
            lemma_mark(":"@, sm, sn);
        }
        lemma_field(m % 3_600 / 60, ":"@ + sm, n % 3_600 / 60, ":"@ + sn);
        lemma_mark(":"@, mm, mn);
    }
    lemma_field(m / 3_600, ":"@ + mm, n / 3_600, ":"@ + mn);
}

proof fn lemma_regroup(a: Seq<char>, b: Seq<char>, c: Seq<char>)
    ensures
        a + b + c == a + (b + c),
{
    assert(a + b + c =~= a + (b + c));
}

proof fn lemma_parts(unix_seconds: int)
    ensures
        ({
            let date = calendar::date_of(calendar::day_of_second(unix_seconds));
            let second = calendar::second_of_day(unix_seconds);
            iso8601(unix_seconds) == signed_padded(date.year, 4) + after_year(date, second)
        }),
{
    let date = calendar::date_of(calendar::day_of_second(unix_seconds));
    let second = calendar::second_of_day(unix_seconds);
    let year = signed_padded(date.year, 4);
    let month = year + "-"@ + two(date.month);
    let day = month + "-"@ + two(date.day);
    let hour = day + "T"@ + two(second / 3_600);
    let minute = hour + ":"@ + two(second % 3_600 / 60);
    let seconds = two(second % 60) + ".000Z"@;
    let minutes = two(second % 3_600 / 60) + (":"@ + seconds);
    let days = two(date.day) + ("T"@ + clock(second));
    let months = two(date.month) + ("-"@ + days);
    lemma_regroup(minute + ":"@, two(second % 60), ".000Z"@);
    lemma_regroup(minute, ":"@, seconds);
    lemma_regroup(hour + ":"@, two(second % 3_600 / 60), ":"@ + seconds);
    lemma_regroup(hour, ":"@, minutes);
    lemma_regroup(day + "T"@, two(second / 3_600), ":"@ + minutes);
    lemma_regroup(day, "T"@, clock(second));
    lemma_regroup(month + "-"@, two(date.day), "T"@ + clock(second));
    lemma_regroup(month, "-"@, days);
    lemma_regroup(year + "-"@, two(date.month), "-"@ + days);
    lemma_regroup(year, "-"@, months);
}

/// Later instants sort later as text, in the years 0 to 9999; so different
/// seconds are never written alike.
pub proof fn lemma_timestamps_in_order(earlier: i64, later: i64)
    requires
        FIRST_SECOND <= earlier < later <= LAST_SECOND,
    ensures
        text::before(iso8601(earlier as int), iso8601(later as int)),
        iso8601(earlier as int) != iso8601(later as int),
{
    let a = lemma_date(earlier as int);
    let b = lemma_date(later as int);
    let m = calendar::second_of_day(earlier as int);
    let n = calendar::second_of_day(later as int);
    let day_a = two(a.day) + ("T"@ + clock(m));
    let day_b = two(b.day) + ("T"@ + clock(n));
    let month_a = two(a.month) + ("-"@ + day_a);
    let month_b = two(b.month) + ("-"@ + day_b);
    let year_a = signed_padded(a.year, 4);
    let year_b = signed_padded(b.year, 4);
    if a.day_number() == b.day_number() {
        calendar::lemma_day_number_injective(a, b);
        assert(m < n);
        lemma_clock_in_order(m, n);
        lemma_mark("T"@, clock(m), clock(n));
    } else {
        assert(a.day_number() < b.day_number());
        calendar::lemma_dates_in_order(a, b);
    }
    if a.year == b.year {
        if a.month == b.month {
            lemma_field(a.day, "T"@ + clock(m), b.day, "T"@ + clock(n));
            lemma_mark("-"@, day_a, day_b);
        }
        lemma_field(a.month, "-"@ + day_a, b.month, "-"@ + day_b);
        lemma_mark("-"@, month_a, month_b);
    }
    lemma_year_text(a.year);
    lemma_year_text(b.year);
    number::lemma_decimals_in_order(year_a, year_b);
    text::lemma_before_joined(year_a, after_year(a, m), year_b, after_year(b, n));
    lemma_parts(earlier as int);
    lemma_parts(later as int);
    text::lemma_before_differs(iso8601(earlier as int), iso8601(later as int));
}

} // verus!
