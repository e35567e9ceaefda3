//! Dates: seconds since the beginning of 1970 as a date and time in UTC.
use vstd::prelude::*;
use vstd::string::*;
use crate::text::{push_zero_padded, zero_padded};

verus! {

/// The year has a 29th of February.
pub open spec fn is_leap(year: int) -> bool {
    year % 4 == 0 && (year % 100 != 0 || year % 400 == 0)
}

/// The leap years from year 1 up to, and not including, `year`.
pub open spec fn leap_years_before(year: int) -> int {
    (year - 1) / 4 - (year - 1) / 100 + (year - 1) / 400
}

/// The days from the beginning of 1970 to the beginning of `year`.
pub open spec fn days_before_year(year: int) -> int {
    365 * (year - 1970) + leap_years_before(year) - leap_years_before(1970)
}

/// The days of a month.
pub open spec fn days_in_month(year: int, month: int) -> int {
    if month == 2 {
        if is_leap(year) {
            29
        } else {
            28
        }
    } else if month == 4 || month == 6 || month == 9 || month == 11 {
        30
    } else {
        31
    }
}

/// The days of a year.
pub open spec fn days_in_year(year: int) -> int {
    if is_leap(year) {
        366
    } else {
        365
    }
}

/// The days of the year before a month begins.
pub open spec fn days_before_month(year: int, month: int) -> int
    decreases month,
{
    if month <= 1 {
        0
    } else {
        days_before_month(year, month - 1) + days_in_month(year, month - 1)
    }
}

/// There is such a date and time.
pub open spec fn is_date(t: (u32, u32, u32, u32, u32, u32)) -> bool {
    &&& 1970 <= t.0
    &&& 1 <= t.1 <= 12
    &&& 1 <= t.2 <= days_in_month(t.0 as int, t.1 as int)
    &&& t.3 < 24
    &&& t.4 < 60
    &&& t.5 < 60
}

/// The seconds from the beginning of 1970 to a date and time.
pub open spec fn seconds_of(t: (u32, u32, u32, u32, u32, u32)) -> int {
    (days_before_year(t.0 as int) + days_before_month(t.0 as int, t.1 as int) + t.2 - 1) * 86400 + t.3 * 3600 + t.4
        * 60 + t.5
}

/// The year of the moment fits.
pub open spec fn representable(secs: int) -> bool {
    0 <= secs && secs / 86400 < days_before_year(0x1_0000_0000)
}

/// The date and time of a moment.
pub open spec fn date_of(secs: int) -> (u32, u32, u32, u32, u32, u32) {
    choose|t: (u32, u32, u32, u32, u32, u32)| is_date(t) && seconds_of(t) == secs
}

/// The text of a date and time.
pub open spec fn date_text(t: (u32, u32, u32, u32, u32, u32)) -> Seq<char> {
    zero_padded(t.0 as nat, 4) + "-"@ + zero_padded(t.1 as nat, 2) + "-"@ + zero_padded(t.2 as nat, 2) + "T"@
        + zero_padded(t.3 as nat, 2) + ":"@ + zero_padded(t.4 as nat, 2) + ":"@ + zero_padded(t.5 as nat, 2) + "Z"@
}

/// The text of a moment.
pub open spec fn iso_text(secs: int) -> Seq<char> {
    date_text(date_of(secs))
}

proof fn lemma_next_year(year: int)
    requires
        year >= 1970,
    ensures
        days_before_year(year + 1) == days_before_year(year) + days_in_year(year),
{
    assert(year / 4 - (year - 1) / 4 == if year % 4 == 0 { 1int } else { 0int });
    assert(year / 100 - (year - 1) / 100 == if year % 100 == 0 { 1int } else { 0int });
    assert(year / 400 - (year - 1) / 400 == if year % 400 == 0 { 1int } else { 0int });
}

proof fn lemma_years_grow(a: int, b: int)
    requires
        1970 <= a <= b,
    ensures
        days_before_year(a) + 365 * (b - a) <= days_before_year(b),
    decreases b - a,
{
    if a < b {
        lemma_years_grow(a, b - 1);
        lemma_next_year(b - 1);
    }
}

proof fn lemma_months(year: int)
    ensures
        days_before_month(year, 1) == 0,
        days_before_month(year, 13) == days_in_year(year),
{
    reveal_with_fuel(days_before_month, 14);
}

proof fn lemma_months_grow(year: int, a: int, b: int)
    requires
        1 <= a < b <= 13,
    ensures
        days_before_month(year, a) + days_in_month(year, a) <= days_before_month(year, b),
    decreases b - a,
{
    if a + 1 < b {
        lemma_months_grow(year, a, b - 1);
    }
}

/// The day of the year, counted from 0, is one of the year's days.
proof fn lemma_day_of_year(t: (u32, u32, u32, u32, u32, u32))
    requires
        is_date(t),
    ensures
        0 <= days_before_month(t.0 as int, t.1 as int) + t.2 - 1 < days_in_year(t.0 as int),
{
    lemma_months(t.0 as int);
    lemma_months_grow(t.0 as int, t.1 as int, 13);
    if t.1 > 1 {
        lemma_months_grow(t.0 as int, 1, t.1 as int);
    }
}

/// Each moment has one date and time at most.
pub proof fn law_dates_are_unique(
    a: (u32, u32, u32, u32, u32, u32),
    b: (u32, u32, u32, u32, u32, u32),
)
    requires
        is_date(a),
        is_date(b),
        seconds_of(a) == seconds_of(b),
    ensures
        a == b,
{
    let day_a = days_before_year(a.0 as int) + days_before_month(a.0 as int, a.1 as int) + a.2 - 1;
    let day_b = days_before_year(b.0 as int) + days_before_month(b.0 as int, b.1 as int) + b.2 - 1;
    let rest_a = a.3 * 3600 + a.4 * 60 + a.5;
    let rest_b = b.3 * 3600 + b.4 * 60 + b.5;
    assert(0 <= rest_a < 86400);
    assert(0 <= rest_b < 86400);
    assert(day_a == day_b && rest_a == rest_b);
    lemma_day_of_year(a);
    lemma_day_of_year(b);
    if a.0 < b.0 {
        lemma_next_year(a.0 as int);
        lemma_years_grow(a.0 + 1, b.0 as int);
    } else if b.0 < a.0 {
        lemma_next_year(b.0 as int);
        lemma_years_grow(b.0 + 1, a.0 as int);
    }
    assert(a.0 == b.0);
    if a.1 < b.1 {
        lemma_months_grow(a.0 as int, a.1 as int, b.1 as int);
    } else if b.1 < a.1 {
        lemma_months_grow(a.0 as int, b.1 as int, a.1 as int);
    }
    assert(a.1 == b.1);
}

fn leap(year: u32) -> (r: bool)
    ensures
        r == is_leap(year as int),
{
    year % 4 == 0 && (year % 100 != 0 || year % 400 == 0)
}

fn month_days(year: u32, month: u32) -> (r: u64)
    ensures
        r == days_in_month(year as int, month as int),
{
    if month == 2 {
        if leap(year) {
            29
        } else {
            28
        }
    } else if month == 4 || month == 6 || month == 9 || month == 11 {
        30
    } else {
        31
    }
}

/// Whether the year of a moment, in seconds since 1970, fits.
pub fn is_representable(secs: u64) -> (r: bool)
    ensures
        r == representable(secs as int),
{
    assert(days_before_year(0x1_0000_0000) == 1_568_703_873_082);
    secs / 86400 < 1_568_703_873_082
}

/// The year, month, day, hour, minute and second of a moment, in seconds since 1970.
pub fn epoch_to_ymd_hms(secs: u64) -> (r: (u32, u32, u32, u32, u32, u32))
    requires
        representable(secs as int),
    ensures
        is_date(r),
        seconds_of(r) == secs,
        r == date_of(secs as int),
{
    let s: u64 = secs % 60;
    let total_min: u64 = secs / 60;
    let mi: u64 = total_min % 60;
    let total_hours: u64 = total_min / 60;
    let h: u64 = total_hours % 24;
    let mut days: u64 = total_hours / 24;
    let ghost all_days = days as int;
    assert(all_days == secs / 86400);
    assert(secs == all_days * 86400 + h * 3600 + mi * 60 + s);

    let mut year: u32 = 1970;
    assert(leap_years_before(1970) == 477);
    loop
        invariant
            1970 <= year,
            all_days == days_before_year(year as int) + days,
            all_days < days_before_year(0x1_0000_0000),
        ensures
            1970 <= year,
            all_days == days_before_year(year as int) + days,
            days < days_in_year(year as int),
        decreases days,
    {
        let days_in_year: u64 = if leap(year) { 366 } else { 365 };
        if days < days_in_year {
            break;
        }
        proof {
            lemma_next_year(year as int);
            if year == u32::MAX {
                assert(year + 1 == 0x1_0000_0000);
            }
        }
        days = days - days_in_year;
        year = year + 1;
    }

    let ghost rest = days as int;
    let mut month: u32 = 1;
    proof {
        lemma_months(year as int);
    }
    while month <= 12 && days >= month_days(year, month)
        invariant
            1 <= month <= 13,
            rest == days_before_month(year as int, month as int) + days,
            rest < days_in_year(year as int),
            days_before_month(year as int, 13) == days_in_year(year as int),
        decreases 13 - month,
    {
        days = days - month_days(year, month);
        month = month + 1;
    }
    let r = (year, month, days as u32 + 1, h as u32, mi as u32, s as u32);
    proof {
        assert(seconds_of(r) == secs);
        law_dates_are_unique(r, date_of(secs as int));
    }
    r
}

/// The text of a moment, in seconds since 1970.
pub fn chrono_now_iso(secs: u64) -> (r: String)
    requires
        representable(secs as int),
    ensures
        r@ == iso_text(secs as int),
{
    let (y, mo, d, h, mi, s) = epoch_to_ymd_hms(secs);
    let mut out = String::new();
    push_zero_padded(&mut out, y as u64, 4);
    out.append("-");
    push_zero_padded(&mut out, mo as u64, 2);
    out.append("-");
    push_zero_padded(&mut out, d as u64, 2);
    out.append("T");
    push_zero_padded(&mut out, h as u64, 2);
    out.append(":");
    push_zero_padded(&mut out, mi as u64, 2);
    out.append(":");
    push_zero_padded(&mut out, s as u64, 2);
    out.append("Z");
    assert(out@ =~= iso_text(secs as int));
    out
}

/// The years follow each other: each has one day more than the three before it where it is a leap year, that
/// is where four divides it, but not a hundred without four hundred; the count begins with the year 1970.
pub proof fn law_years(year: int)
    requires
        year >= 1970,
    ensures
        days_before_year(1970) == 0,
        days_before_year(year + 1) - days_before_year(year) == 365 || days_before_year(year + 1) - days_before_year(year)
            == 366,
        days_before_year(year + 1) - days_before_year(year) == 366 <==> year % 4 == 0 && (year % 100 != 0 || year % 400
            == 0),
        days_in_year(year) == days_before_year(year + 1) - days_before_year(year),
        is_leap(year) <==> days_in_year(year) == 366,
{
    lemma_next_year(year);
}

/// The months have their usual lengths, follow each other, and make up the year.
pub proof fn law_months(year: int, month: int)
    ensures
        month == 1 || month == 3 || month == 5 || month == 7 || month == 8 || month == 10 || month == 12
            ==> days_in_month(year, month) == 31,
        month == 4 || month == 6 || month == 9 || month == 11 ==> days_in_month(year, month) == 30,
        days_in_month(year, 2) == if year % 4 == 0 && (year % 100 != 0 || year % 400 == 0) {
            29int
        } else {
            28int
        },
        days_before_month(year, 1) == 0,
        month >= 1 ==> days_before_month(year, month + 1) - days_before_month(year, month) == days_in_month(year, month),
        days_before_month(year, 13) == days_in_year(year),
{
    lemma_months(year);
}

/// The seconds count from the start of 1970, and go on by one with each second, by sixty with each minute,
/// and so with each hour, day, month and year.
pub proof fn law_seconds(t: (u32, u32, u32, u32, u32, u32))
    requires
        1970 <= t.0 < u32::MAX,
        1 <= t.1 <= 12,
        t.2 < u32::MAX,
        t.3 < u32::MAX,
        t.4 < u32::MAX,
        t.5 < u32::MAX,
    ensures
        seconds_of((1970, 1, 1, 0, 0, 0)) == 0,
        seconds_of((t.0, t.1, t.2, t.3, t.4, (t.5 + 1) as u32)) == seconds_of(t) + 1,
        seconds_of((t.0, t.1, t.2, t.3, (t.4 + 1) as u32, t.5)) == seconds_of(t) + 60,
        seconds_of((t.0, t.1, t.2, (t.3 + 1) as u32, t.4, t.5)) == seconds_of(t) + 3600,
        seconds_of((t.0, t.1, (t.2 + 1) as u32, t.3, t.4, t.5)) == seconds_of(t) + 86400,
        seconds_of((t.0, (t.1 + 1) as u32, t.2, t.3, t.4, t.5)) == seconds_of(t) + 86400 * days_in_month(
            t.0 as int,
            t.1 as int,
        ),
        seconds_of(((t.0 + 1) as u32, 1, t.2, t.3, t.4, t.5)) == seconds_of((t.0, 1, t.2, t.3, t.4, t.5)) + 86400
            * days_in_year(t.0 as int),
{
    lemma_next_year(t.0 as int);
    lemma_months(t.0 as int);
    lemma_months(t.0 + 1);
    lemma_months(1970);
}

/// A date is one of the calendar, at a time of day; and the seconds that count up to it tell it.
pub proof fn law_seconds_tell_the_date(t: (u32, u32, u32, u32, u32, u32))
    ensures
        is_date(t) <==> t.0 >= 1970 && 1 <= t.1 <= 12 && 1 <= t.2 <= days_in_month(t.0 as int, t.1 as int) && t.3 < 24
            && t.4 < 60 && t.5 < 60,
        is_date(t) ==> date_of(seconds_of(t)) == t,
        is_date(t) ==> iso_text(seconds_of(t)) == date_text(t),
{
    if is_date(t) {
        let d = date_of(seconds_of(t));
        assert(is_date(d) && seconds_of(d) == seconds_of(t));
        law_dates_are_unique(d, t);
    }
}

/// A date is written with four digits for the year and two for all else, as twenty characters.
pub proof fn law_date_text(t: (u32, u32, u32, u32, u32, u32))
    requires
        is_date(t),
        t.0 <= 9999,
    ensures
        ({
            let text = date_text(t);
            &&& text.len() == 20
            &&& text.subrange(0, 4) == zero_padded(t.0 as nat, 4)
            &&& text[4] == '-' && text.subrange(5, 7) == zero_padded(t.1 as nat, 2)
            &&& text[7] == '-' && text.subrange(8, 10) == zero_padded(t.2 as nat, 2)
            &&& text[10] == 'T' && text.subrange(11, 13) == zero_padded(t.3 as nat, 2)
            &&& text[13] == ':' && text.subrange(14, 16) == zero_padded(t.4 as nat, 2)
            &&& text[16] == ':' && text.subrange(17, 19) == zero_padded(t.5 as nat, 2)
            &&& text[19] == 'Z'
        }),
{
    reveal_strlit("-");
    reveal_strlit("T");
    reveal_strlit(":");
    reveal_strlit("Z");
    lemma_few_digits(t.0 as nat, 4);
    lemma_few_digits(t.1 as nat, 2);
    lemma_few_digits(t.2 as nat, 2);
    lemma_few_digits(t.3 as nat, 2);
    lemma_few_digits(t.4 as nat, 2);
    lemma_few_digits(t.5 as nat, 2);
    let text = date_text(t);
    assert(text.subrange(0, 4) =~= zero_padded(t.0 as nat, 4));
    assert(text.subrange(5, 7) =~= zero_padded(t.1 as nat, 2));
    assert(text.subrange(8, 10) =~= zero_padded(t.2 as nat, 2));
    assert(text.subrange(11, 13) =~= zero_padded(t.3 as nat, 2));
    assert(text.subrange(14, 16) =~= zero_padded(t.4 as nat, 2));
    assert(text.subrange(17, 19) =~= zero_padded(t.5 as nat, 2));
}

proof fn lemma_few_digits(n: nat, width: nat)
    requires
        width == 2 && n < 100 || width == 4 && n < 10000,
    ensures
        zero_padded(n, width).len() == width,
{
    reveal_with_fuel(crate::text::decimal, 5);
    crate::text::law_zero_padded(n, width);
}

/// The seconds that have a date are those from the start of 1970 on, up to the last year that can be written
/// down; every date is among them.
pub proof fn law_dates_are_representable(t: (u32, u32, u32, u32, u32, u32), secs: int)
    ensures
        is_date(t) ==> representable(seconds_of(t)),
        representable(secs) ==> secs >= 0,
        representable(secs) ==> secs < 86400 * days_before_year(0x1_0000_0000),
        0 <= secs < 86400 * days_before_year(0x1_0000_0000) ==> representable(secs),
{
    if is_date(t) {
        lemma_day_of_year(t);
        lemma_next_year(t.0 as int);
        lemma_years_grow(1970, t.0 as int);
        lemma_years_grow(t.0 + 1, 0x1_0000_0000);
    }
}

/// A date of any year is written in the same way, the year with as many digits as it needs.
pub proof fn law_any_date_text(t: (u32, u32, u32, u32, u32, u32))
    ensures
        date_text(t) == zero_padded(t.0 as nat, 4) + seq!['-'] + zero_padded(t.1 as nat, 2) + seq!['-'] + zero_padded(
            t.2 as nat,
            2,
        ) + seq!['T'] + zero_padded(t.3 as nat, 2) + seq![':'] + zero_padded(t.4 as nat, 2) + seq![':'] + zero_padded(
            t.5 as nat,
            2,
        ) + seq!['Z'],
{
    reveal_strlit("-");
    reveal_strlit("T");
    reveal_strlit(":");
    reveal_strlit("Z");
    assert("-"@ =~= seq!['-'] && "T"@ =~= seq!['T'] && ":"@ =~= seq![':'] && "Z"@ =~= seq!['Z']);
}

} // verus!
