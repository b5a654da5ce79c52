use vstd::prelude::*;

use chrono::Datelike;

use crate::strings::spec_decimal_padded;
use crate::strings::spec_lex_le;
use crate::strings::spec_digit_char;
use crate::strings::spec_int_decimal;
use crate::strings::u64_to_padded;
use crate::strings::i64_to_string;
use crate::strings::digit_str;
use crate::validate::spec_is_date_shape;
use crate::validate::is_date_shape;
use crate::validate::is_digit_char;

verus! {

/// A calendar date in the proleptic Gregorian calendar, within the years a
/// four-digit `YYYY-MM-DD` string can carry.
#[derive(Debug, Clone, Copy, PartialEq, Eq, Structural)]
pub struct Date {
    pub year: u32,
    pub month: u32,
    pub day: u32,
}

/// A Gregorian leap year.
pub open spec fn is_leap_year(y: int) -> bool {
    y % 4 == 0 && (y % 100 != 0 || y % 400 == 0)
}

/// The number of days in month `m` of year `y`.
pub open spec fn spec_days_in_month(y: int, m: int) -> int {
    if m == 4 || m == 6 || m == 9 || m == 11 {
        30
    } else if m == 2 {
        if is_leap_year(y) {
            29
        } else {
            28
        }
    } else {
        31
    }
}

/// A well-formed date: month and day in range for its year, year at most
/// four digits.
pub open spec fn valid_date(d: Date) -> bool {
    d.year <= 9999 && 1 <= d.month <= 12 && 1 <= d.day <= spec_days_in_month(
        d.year as int,
        d.month as int,
    )
}

/// The number of days in month `m` of year `y`.
pub fn days_in_month(y: u32, m: u32) -> (r: u32)
    requires
        1 <= m <= 12,
    ensures
        r == spec_days_in_month(y as int, m as int),
{
    if m == 4 || m == 6 || m == 9 || m == 11 {
        30
    } else if m == 2 {
        if y % 4 == 0 && (y % 100 != 0 || y % 400 == 0) {
            29
        } else {
            28
        }
    } else {
        31
    }
}

/// The number of days in year `y`.
pub open spec fn days_in_year(y: int) -> int {
    if is_leap_year(y) {
        366
    } else {
        365
    }
}

/// Days in all years before year `y`, counting from year zero.
pub open spec fn days_before_year(y: nat) -> int
    decreases y,
{
    if y == 0 {
        0
    } else {
        days_before_year((y - 1) as nat) + days_in_year(y - 1)
    }
}

/// Days in all months of year `y` before month `m`.
pub open spec fn days_before_month(y: int, m: nat) -> int
    decreases m,
{
    if m <= 1 {
        0
    } else {
        days_before_month(y, (m - 1) as nat) + spec_days_in_month(y, m - 1)
    }
}

/// The position of a date on the continuous day line: consecutive calendar
/// days have consecutive indices.
pub open spec fn day_index(d: Date) -> int {
    days_before_year(d.year as nat) + days_before_month(d.year as int, d.month as nat) + d.day - 1
}

/// The calendar day after `d`.
pub open spec fn spec_next_day(d: Date) -> Date {
    if d.day < spec_days_in_month(d.year as int, d.month as int) {
        Date { year: d.year, month: d.month, day: (d.day + 1) as u32 }
    } else if d.month < 12 {
        Date { year: d.year, month: (d.month + 1) as u32, day: 1 }
    } else {
        Date { year: (d.year + 1) as u32, month: 1, day: 1 }
    }
}

/// `days_before_month` grows with the month.
proof fn lemma_dbm_mono(y: int, m1: nat, m2: nat)
    requires
        m1 <= m2,
    ensures
        days_before_month(y, m1) <= days_before_month(y, m2),
    decreases m2,
{
    if m2 > m1 {
        lemma_dbm_mono(y, m1, (m2 - 1) as nat);
        assert(spec_days_in_month(y, m2 - 1) >= 28);
    }
}

/// A year's twelve months sum to its day count.
proof fn lemma_dbm_full_year(y: int)
    ensures
        days_before_month(y, 13) == days_in_year(y),
{
    reveal_with_fuel(days_before_month, 14);
}

/// Within its year, a valid date's offset stays below the year's length.
proof fn lemma_index_in_year(d: Date)
    requires
        valid_date(d),
    ensures
        0 <= days_before_month(d.year as int, d.month as nat) + d.day - 1 < days_in_year(
            d.year as int,
        ),
{
    lemma_dbm_mono(d.year as int, 1, d.month as nat);
    lemma_dbm_mono(d.year as int, (d.month + 1) as nat, 13);
    lemma_dbm_full_year(d.year as int);
    assert(days_before_month(d.year as int, (d.month + 1) as nat) == days_before_month(
        d.year as int,
        d.month as nat,
    ) + spec_days_in_month(d.year as int, d.month as int));
}

/// `days_before_year` grows with the year.
proof fn lemma_dby_mono(y1: nat, y2: nat)
    requires
        y1 <= y2,
    ensures
        days_before_year(y1) <= days_before_year(y2),
    decreases y2,
{
    if y2 > y1 {
        lemma_dby_mono(y1, (y2 - 1) as nat);
        assert(days_in_year(y2 - 1) >= 365);
    }
}

/// The day index respects the (year, month, day) ordering: an earlier
/// calendar date has a smaller index.
pub proof fn lemma_day_index_order(a: Date, b: Date)
    requires
        valid_date(a),
        valid_date(b),
    ensures
        (day_index(a) < day_index(b)) <==> (a.year < b.year || (a.year == b.year && a.month
            < b.month) || (a.year == b.year && a.month == b.month && a.day < b.day)),
        (day_index(a) == day_index(b)) <==> (a == b),
{
    lemma_index_in_year(a);
    lemma_index_in_year(b);
    if a.year < b.year {
        lemma_dby_mono((a.year + 1) as nat, b.year as nat);
        assert(days_before_year((a.year + 1) as nat) == days_before_year(a.year as nat)
            + days_in_year(a.year as int));
        assert(day_index(a) < day_index(b));
    } else if b.year < a.year {
        lemma_dby_mono((b.year + 1) as nat, a.year as nat);
        assert(days_before_year((b.year + 1) as nat) == days_before_year(b.year as nat)
            + days_in_year(b.year as int));
        assert(day_index(b) < day_index(a));
    } else {
        // Same year: compare by month, then day.
        let y = a.year as int;
        if a.month < b.month {
            lemma_dbm_mono(y, (a.month + 1) as nat, b.month as nat);
            assert(days_before_month(y, (a.month + 1) as nat) == days_before_month(
                y,
                a.month as nat,
            ) + spec_days_in_month(y, a.month as int));
            assert(day_index(a) < day_index(b));
        } else if b.month < a.month {
            lemma_dbm_mono(y, (b.month + 1) as nat, a.month as nat);
            assert(days_before_month(y, (b.month + 1) as nat) == days_before_month(
                y,
                b.month as nat,
            ) + spec_days_in_month(y, b.month as int));
            assert(day_index(b) < day_index(a));
        }
    }
}

/// No valid date lies after the last four-digit day.
pub proof fn lemma_max_date(d: Date)
    requires
        valid_date(d),
    ensures
        day_index(d) <= day_index(Date { year: 9999, month: 12, day: 31 }),
{
    lemma_day_index_order(d, Date { year: 9999, month: 12, day: 31 });
}

/// Step to the next calendar day.
pub fn next_day(d: Date) -> (r: Date)
    requires
        valid_date(d),
        !(d.year == 9999 && d.month == 12 && d.day == 31),
    ensures
        r == spec_next_day(d),
        valid_date(r),
        day_index(r) == day_index(d) + 1,
{
    let dim = days_in_month(d.year, d.month);
    if d.day < dim {
        Date { year: d.year, month: d.month, day: d.day + 1 }
    } else if d.month < 12 {
        let r = Date { year: d.year, month: d.month + 1, day: 1 };
        proof {
            assert(days_before_month(d.year as int, (d.month + 1) as nat) == days_before_month(
                d.year as int,
                d.month as nat,
            ) + spec_days_in_month(d.year as int, d.month as int));
            assert(spec_days_in_month(r.year as int, r.month as int) >= 28);
        }
        r
    } else {
        let r = Date { year: d.year + 1, month: 1, day: 1 };
        proof {
            lemma_dbm_full_year(d.year as int);
            lemma_dbm_mono(d.year as int, 12 as nat, 13 as nat);
            assert(days_before_month(d.year as int, 13) == days_before_month(d.year as int, 12)
                + spec_days_in_month(d.year as int, 12));
            assert(days_before_year((d.year + 1) as nat) == days_before_year(d.year as nat)
                + days_in_year(d.year as int));
        }
        r
    }
}

/// The value of the digit character `c`.
pub open spec fn spec_digit_val(c: char) -> int {
    (c as u32) - 48
}

/// The date a `YYYY-MM-DD` string denotes: its three numeric components,
/// accepted only when the string has the exact shape and the day exists in
/// the calendar.
pub open spec fn spec_parse_date(s: Seq<char>) -> Option<Date> {
    if spec_is_date_shape(s) {
        let y = spec_digit_val(s[0]) * 1000 + spec_digit_val(s[1]) * 100 + spec_digit_val(s[2])
            * 10 + spec_digit_val(s[3]);
        let m = spec_digit_val(s[5]) * 10 + spec_digit_val(s[6]);
        let d = spec_digit_val(s[8]) * 10 + spec_digit_val(s[9]);
        if 1 <= m <= 12 && 1 <= d <= spec_days_in_month(y, m) {
            Option::Some(Date { year: y as u32, month: m as u32, day: d as u32 })
        } else {
            Option::None
        }
    } else {
        Option::None
    }
}

fn digit_val(s: &str, i: usize) -> (r: u32)
    requires
        i < s@.len(),
        is_digit_char(s@[i as int]),
    ensures
        r == spec_digit_val(s@[i as int]),
        r <= 9,
{
    let c = s.get_char(i);
    (c as u32) - 48
}

/// Parse a strict `YYYY-MM-DD` string into a date, rejecting both malformed
/// shapes and days that do not exist in the calendar.
pub fn parse_date(s: &str) -> (r: Option<Date>)
    ensures
        r == spec_parse_date(s@),
        r matches Some(d) ==> valid_date(d),
{
    if !is_date_shape(s) {
        return None;
    }
    let y = digit_val(s, 0) * 1000 + digit_val(s, 1) * 100 + digit_val(s, 2) * 10 + digit_val(
        s,
        3,
    );
    let m = digit_val(s, 5) * 10 + digit_val(s, 6);
    let d = digit_val(s, 8) * 10 + digit_val(s, 9);
    if 1 <= m && m <= 12 {
        let dim = days_in_month(y, m);
        if 1 <= d && d <= dim {
            return Some(Date { year: y, month: m, day: d });
        }
    }
    None
}

/// The ten characters `YYYY-MM-DD` of a date.
pub open spec fn spec_format_date(d: Date) -> Seq<char> {
    spec_decimal_padded(d.year as int, 4) + seq!['-'] + spec_decimal_padded(d.month as int, 2)
        + seq!['-'] + spec_decimal_padded(d.day as int, 2)
}

/// Render a date as `YYYY-MM-DD`.
pub fn format_date(d: Date) -> (r: String)
    requires
        valid_date(d),
    ensures
        r@ == spec_format_date(d),
{
    proof {
        reveal_strlit("-");
    }
    let mut s = u64_to_padded(d.year as u64, 4);
    s.append("-");
    let mm = u64_to_padded(d.month as u64, 2);
    s.append(mm.as_str());
    s.append("-");
    let dd = u64_to_padded(d.day as u64, 2);
    s.append(dd.as_str());
    proof {
        assert("-"@ =~= seq!['-']);
        assert(s@ =~= spec_format_date(d));
    }
    s
}

proof fn lemma_padded2(n: int)
    ensures
        spec_decimal_padded(n, 2) =~= seq![
            spec_digit_char((n / 10) % 10),
            spec_digit_char(n % 10),
        ],
{
    reveal_with_fuel(spec_decimal_padded, 3);
}

proof fn lemma_padded4(n: int)
    ensures
        spec_decimal_padded(n, 4) =~= seq![
            spec_digit_char((n / 1000) % 10),
            spec_digit_char((n / 100) % 10),
            spec_digit_char((n / 10) % 10),
            spec_digit_char(n % 10),
        ],
{
    reveal_with_fuel(spec_decimal_padded, 5);
    assert(n / 10 / 10 == n / 100) by (nonlinear_arith);
    assert(n / 100 / 10 == n / 1000) by (nonlinear_arith);
}

proof fn lemma_digit_char_val(x: int)
    requires
        0 <= x < 10,
    ensures
        is_digit_char(spec_digit_char(x)),
        spec_digit_val(spec_digit_char(x)) == x,
{
}

/// Formatting then parsing gives the date back: the ten-character
/// `YYYY-MM-DD` rendering of a valid date denotes exactly that date.
pub proof fn lemma_format_parse_round_trip(d: Date)
    requires
        valid_date(d),
    ensures
        spec_parse_date(spec_format_date(d)) == Option::Some(d),
{
    let s = spec_format_date(d);
    let y = d.year as int;
    let m = d.month as int;
    let dd = d.day as int;
    lemma_padded4(y);
    lemma_padded2(m);
    lemma_padded2(dd);
    assert(s.len() == 10);
    assert(s[0] == spec_digit_char((y / 1000) % 10));
    assert(s[1] == spec_digit_char((y / 100) % 10));
    assert(s[2] == spec_digit_char((y / 10) % 10));
    assert(s[3] == spec_digit_char(y % 10));
    assert(s[4] == '-');
    assert(s[5] == spec_digit_char((m / 10) % 10));
    assert(s[6] == spec_digit_char(m % 10));
    assert(s[7] == '-');
    assert(s[8] == spec_digit_char((dd / 10) % 10));
    assert(s[9] == spec_digit_char(dd % 10));
    lemma_digit_char_val((y / 1000) % 10);
    lemma_digit_char_val((y / 100) % 10);
    lemma_digit_char_val((y / 10) % 10);
    lemma_digit_char_val(y % 10);
    lemma_digit_char_val((m / 10) % 10);
    lemma_digit_char_val(m % 10);
    lemma_digit_char_val((dd / 10) % 10);
    lemma_digit_char_val(dd % 10);
    assert(spec_is_date_shape(s));
    // The digits reassemble into the original components.
    assert(((y / 1000) % 10) * 1000 + ((y / 100) % 10) * 100 + ((y / 10) % 10) * 10 + y % 10
        == y) by (nonlinear_arith)
        requires
            0 <= y <= 9999,
    ;
    assert(((m / 10) % 10) * 10 + m % 10 == m) by (nonlinear_arith)
        requires
            0 <= m <= 99,
    ;
    assert(((dd / 10) % 10) * 10 + dd % 10 == dd) by (nonlinear_arith)
        requires
            0 <= dd <= 99,
    ;
}

proof fn lemma_digit_char_of_val(c: char)
    requires
        is_digit_char(c),
    ensures
        spec_digit_char(spec_digit_val(c)) == c,
{
}

/// Parsing then formatting gives the string back: a shape-valid string
/// that denotes a date is that date's canonical rendering.
pub proof fn lemma_parse_format_round_trip(s: Seq<char>)
    requires
        spec_parse_date(s) is Some,
    ensures
        spec_format_date(spec_parse_date(s)->0) == s,
{
    let d = spec_parse_date(s)->0;
    let y = spec_digit_val(s[0]) * 1000 + spec_digit_val(s[1]) * 100 + spec_digit_val(s[2]) * 10
        + spec_digit_val(s[3]);
    let m = spec_digit_val(s[5]) * 10 + spec_digit_val(s[6]);
    let dd = spec_digit_val(s[8]) * 10 + spec_digit_val(s[9]);
    lemma_padded4(y);
    lemma_padded2(m);
    lemma_padded2(dd);
    assert((y / 1000) % 10 == spec_digit_val(s[0]) && (y / 100) % 10 == spec_digit_val(s[1]) && (y
        / 10) % 10 == spec_digit_val(s[2]) && y % 10 == spec_digit_val(s[3])) by (nonlinear_arith)
        requires
            y == spec_digit_val(s[0]) * 1000 + spec_digit_val(s[1]) * 100 + spec_digit_val(s[2])
                * 10 + spec_digit_val(s[3]),
            0 <= spec_digit_val(s[0]) < 10,
            0 <= spec_digit_val(s[1]) < 10,
            0 <= spec_digit_val(s[2]) < 10,
            0 <= spec_digit_val(s[3]) < 10,
    ;
    assert((m / 10) % 10 == spec_digit_val(s[5]) && m % 10 == spec_digit_val(s[6]))
        by (nonlinear_arith)
        requires
            m == spec_digit_val(s[5]) * 10 + spec_digit_val(s[6]),
            0 <= spec_digit_val(s[5]) < 10,
            0 <= spec_digit_val(s[6]) < 10,
    ;
    assert((dd / 10) % 10 == spec_digit_val(s[8]) && dd % 10 == spec_digit_val(s[9]))
        by (nonlinear_arith)
        requires
            dd == spec_digit_val(s[8]) * 10 + spec_digit_val(s[9]),
            0 <= spec_digit_val(s[8]) < 10,
            0 <= spec_digit_val(s[9]) < 10,
    ;
    lemma_digit_char_of_val(s[0]);
    lemma_digit_char_of_val(s[1]);
    lemma_digit_char_of_val(s[2]);
    lemma_digit_char_of_val(s[3]);
    lemma_digit_char_of_val(s[5]);
    lemma_digit_char_of_val(s[6]);
    lemma_digit_char_of_val(s[8]);
    lemma_digit_char_of_val(s[9]);
    assert(spec_format_date(d) =~= s);
}

/// Ten to the power `w`.
pub open spec fn pow10(w: nat) -> int
    decreases w,
{
    if w == 0 {
        1
    } else {
        10 * pow10((w - 1) as nat)
    }
}

proof fn lemma_padded_len(n: int, w: nat)
    requires
        1 <= w,
    ensures
        spec_decimal_padded(n, w as int).len() == w,
    decreases w,
{
    if w > 1 {
        lemma_padded_len(n / 10, (w - 1) as nat);
    }
}

/// Comparing two sequences that start with one digit each comes down to the
/// digits, then the tails.
proof fn lemma_lex_digit_head(x1: int, x2: int, t1: Seq<char>, t2: Seq<char>)
    requires
        0 <= x1 < 10,
        0 <= x2 < 10,
    ensures
        spec_lex_le(seq![spec_digit_char(x1)] + t1, seq![spec_digit_char(x2)] + t2) == (if x1
            < x2 {
            true
        } else if x1 > x2 {
            false
        } else {
            spec_lex_le(t1, t2)
        }),
{
    let s1 = seq![spec_digit_char(x1)] + t1;
    let s2 = seq![spec_digit_char(x2)] + t2;
    assert(s1[0] == spec_digit_char(x1));
    assert(s2[0] == spec_digit_char(x2));
    assert(s1.skip(1) =~= t1);
    assert(s2.skip(1) =~= t2);
    assert(((spec_digit_char(x1) as u32) < (spec_digit_char(x2) as u32)) == (x1 < x2));
}

/// A shared first character does not affect the comparison.
proof fn lemma_lex_same_head(c: char, t1: Seq<char>, t2: Seq<char>)
    ensures
        spec_lex_le(seq![c] + t1, seq![c] + t2) == spec_lex_le(t1, t2),
{
    let s1 = seq![c] + t1;
    let s2 = seq![c] + t2;
    assert(s1[0] == c);
    assert(s2[0] == c);
    assert(s1.skip(1) =~= t1);
    assert(s2.skip(1) =~= t2);
}

/// Equal-width zero-padded numerals compare lexicographically exactly as
/// their values do; on a tie the tails decide.
proof fn lemma_lex_padded(w: nat, n1: int, n2: int, t1: Seq<char>, t2: Seq<char>)
    requires
        1 <= w,
        0 <= n1 < pow10(w),
        0 <= n2 < pow10(w),
    ensures
        spec_lex_le(spec_decimal_padded(n1, w as int) + t1, spec_decimal_padded(n2, w as int) + t2)
            == (if n1 < n2 {
            true
        } else if n1 > n2 {
            false
        } else {
            spec_lex_le(t1, t2)
        }),
    decreases w,
{
    if w == 1 {
        assert(spec_decimal_padded(n1, 1) =~= seq![spec_digit_char(n1 % 10)]);
        assert(spec_decimal_padded(n2, 1) =~= seq![spec_digit_char(n2 % 10)]);
        lemma_lex_digit_head(n1 % 10, n2 % 10, t1, t2);
    } else {
        let q1 = n1 / 10;
        let q2 = n2 / 10;
        let x1 = n1 % 10;
        let x2 = n2 % 10;
        assert(n1 < 10 * pow10((w - 1) as nat));
        assert(q1 < pow10((w - 1) as nat)) by (nonlinear_arith)
            requires
                0 <= n1,
                q1 == n1 / 10,
                n1 < 10 * pow10((w - 1) as nat),
        ;
        assert(q2 < pow10((w - 1) as nat)) by (nonlinear_arith)
            requires
                0 <= n2,
                q2 == n2 / 10,
                n2 < 10 * pow10((w - 1) as nat),
        ;
        lemma_padded_len(q1, (w - 1) as nat);
        lemma_padded_len(q2, (w - 1) as nat);
        assert(spec_decimal_padded(n1, w as int) + t1 =~= spec_decimal_padded(q1, w - 1) + (seq![
            spec_digit_char(x1),
        ] + t1));
        assert(spec_decimal_padded(n2, w as int) + t2 =~= spec_decimal_padded(q2, w - 1) + (seq![
            spec_digit_char(x2),
        ] + t2));
        lemma_lex_padded(
            (w - 1) as nat,
            q1,
            q2,
            seq![spec_digit_char(x1)] + t1,
            seq![spec_digit_char(x2)] + t2,
        );
        lemma_lex_digit_head(x1, x2, t1, t2);
        // The quotient–remainder view matches the numeric order.
        assert(n1 == 10 * q1 + x1);
        assert(n2 == 10 * q2 + x2);
        if q1 < q2 {
            assert(n1 < n2) by (nonlinear_arith)
                requires
                    q1 < q2,
                    n1 == 10 * q1 + x1,
                    n2 == 10 * q2 + x2,
                    0 <= x1 < 10,
                    0 <= x2 < 10,
            ;
        }
        if q2 < q1 {
            assert(n2 < n1) by (nonlinear_arith)
                requires
                    q2 < q1,
                    n1 == 10 * q1 + x1,
                    n2 == 10 * q2 + x2,
                    0 <= x1 < 10,
                    0 <= x2 < 10,
            ;
        }
    }
}

/// ISO date strings order the same way lexicographically as the dates they
/// denote do chronologically: the comparison the Backfill Aggregator makes
/// on date strings is exactly the calendar comparison.
pub proof fn lemma_format_lex_order(a: Date, b: Date)
    requires
        valid_date(a),
        valid_date(b),
    ensures
        spec_lex_le(spec_format_date(a), spec_format_date(b)) == (day_index(a) <= day_index(b)),
{
    let ya = a.year as int;
    let yb = b.year as int;
    let ma = a.month as int;
    let mb = b.month as int;
    let da = a.day as int;
    let db = b.day as int;
    lemma_day_index_order(a, b);
    lemma_padded_len(ya, 4);
    lemma_padded_len(yb, 4);
    lemma_padded_len(ma, 2);
    lemma_padded_len(mb, 2);
    lemma_padded_len(da, 2);
    lemma_padded_len(db, 2);
    reveal_with_fuel(pow10, 5);
    // Right-nest the pieces so the comparison lemmas chain.
    let resta = seq!['-'] + (spec_decimal_padded(ma, 2) + (seq!['-'] + (spec_decimal_padded(da, 2)
        + Seq::<char>::empty())));
    let restb = seq!['-'] + (spec_decimal_padded(mb, 2) + (seq!['-'] + (spec_decimal_padded(db, 2)
        + Seq::<char>::empty())));
    assert(spec_format_date(a) =~= spec_decimal_padded(ya, 4) + resta);
    assert(spec_format_date(b) =~= spec_decimal_padded(yb, 4) + restb);
    lemma_lex_padded(4, ya, yb, resta, restb);
    if ya == yb {
        lemma_lex_same_head(
            '-',
            spec_decimal_padded(ma, 2) + (seq!['-'] + (spec_decimal_padded(da, 2)
                + Seq::<char>::empty())),
            spec_decimal_padded(mb, 2) + (seq!['-'] + (spec_decimal_padded(db, 2)
                + Seq::<char>::empty())),
        );
        lemma_lex_padded(
            2,
            ma,
            mb,
            seq!['-'] + (spec_decimal_padded(da, 2) + Seq::<char>::empty()),
            seq!['-'] + (spec_decimal_padded(db, 2) + Seq::<char>::empty()),
        );
        if ma == mb {
            lemma_lex_same_head(
                '-',
                spec_decimal_padded(da, 2) + Seq::<char>::empty(),
                spec_decimal_padded(db, 2) + Seq::<char>::empty(),
            );
            lemma_lex_padded(2, da, db, Seq::<char>::empty(), Seq::<char>::empty());
        }
    }
}

/// Whether `a` is on or before `b` on the day line.
pub fn date_le(a: Date, b: Date) -> (r: bool)
    requires
        valid_date(a),
        valid_date(b),
    ensures
        r == (day_index(a) <= day_index(b)),
{
    proof {
        lemma_day_index_order(a, b);
    }
    if a.year != b.year {
        a.year < b.year
    } else if a.month != b.month {
        a.month < b.month
    } else {
        a.day <= b.day
    }
}

/// The date `k` days after `d`.
pub open spec fn spec_advance(d: Date, k: nat) -> Date
    decreases k,
{
    if k == 0 {
        d
    } else {
        spec_next_day(spec_advance(d, (k - 1) as nat))
    }
}

/// `v` is the inclusive day-by-day range from `df` to `dt`: one formatted
/// date per day, oldest first, consecutive on the day line.
pub open spec fn spec_is_day_range(v: Seq<String>, df: Date, dt: Date) -> bool {
    &&& day_index(df) <= day_index(dt)
    &&& v.len() == day_index(dt) - day_index(df) + 1
    &&& forall|i: int|
        0 <= i < v.len() ==> {
            &&& valid_date(#[trigger] spec_advance(df, i as nat))
            &&& day_index(spec_advance(df, i as nat)) == day_index(df) + i
            &&& v[i]@ == spec_format_date(spec_advance(df, i as nat))
        }
}

/// The inclusive day-by-day range from one `YYYY-MM-DD` string to another:
/// nothing when either endpoint is not a valid date or the start lies after
/// the end; otherwise one formatted date per day, oldest first.
pub fn generate_date_range(from: &str, to: &str) -> (r: Option<Vec<String>>)
    ensures
        match r {
            Option::None => {
                ||| spec_parse_date(from@) is None
                ||| spec_parse_date(to@) is None
                ||| (spec_parse_date(from@) matches Some(df) && spec_parse_date(to@) matches Some(
                    dt,
                ) && day_index(df) > day_index(dt))
            },
            Option::Some(v) => {
                &&& spec_parse_date(from@) matches Some(df)
                &&& spec_parse_date(to@) matches Some(dt)
                &&& spec_is_day_range(v@, spec_parse_date(from@)->0, spec_parse_date(to@)->0)
                &&& v@.len() > 0
                &&& v@[0]@ == from@
                &&& v@[v@.len() - 1]@ == to@
            },
        },
{
    let df = match parse_date(from) {
        Some(d) => d,
        None => {
            return None;
        },
    };
    let dt = match parse_date(to) {
        Some(d) => d,
        None => {
            return None;
        },
    };
    if !date_le(df, dt) {
        return None;
    }
    let mut v: Vec<String> = Vec::new();
    let mut cur = df;
    loop
        invariant_except_break
            cur == spec_advance(df, v@.len()),
            day_index(cur) == day_index(df) + v@.len(),
            day_index(cur) <= day_index(dt),
        invariant
            valid_date(df),
            valid_date(dt),
            valid_date(cur),
            day_index(df) <= day_index(dt),
            forall|i: int|
                0 <= i < v@.len() ==> {
                    &&& valid_date(#[trigger] spec_advance(df, i as nat))
                    &&& day_index(spec_advance(df, i as nat)) == day_index(df) + i
                    &&& v@[i]@ == spec_format_date(spec_advance(df, i as nat))
                },
        ensures
            v@.len() == day_index(dt) - day_index(df) + 1,
            forall|i: int|
                0 <= i < v@.len() ==> {
                    &&& valid_date(#[trigger] spec_advance(df, i as nat))
                    &&& day_index(spec_advance(df, i as nat)) == day_index(df) + i
                    &&& v@[i]@ == spec_format_date(spec_advance(df, i as nat))
                },
        decreases day_index(dt) - day_index(cur),
    {
        let s = format_date(cur);
        let ghost old_len = v@.len();
        v.push(s);
        proof {
            assert(spec_advance(df, (old_len + 1) as nat) == spec_next_day(
                spec_advance(df, old_len as nat),
            ));
        }
        if cur == dt {
            break;
        }
        proof {
            lemma_day_index_order(cur, dt);
            if cur.year == 9999 && cur.month == 12 && cur.day == 31 {
                lemma_max_date(dt);
            }
        }
        cur = next_day(cur);
    }
    proof {
        lemma_parse_format_round_trip(from@);
        lemma_parse_format_round_trip(to@);
        let i0: int = 0;
        let last: int = v@.len() - 1;
        assert(v@[i0]@ == spec_format_date(spec_advance(df, i0 as nat)));
        assert(spec_advance(df, i0 as nat) == df);
        assert(v@[last]@ == spec_format_date(spec_advance(df, last as nat)));
        lemma_day_index_order(spec_advance(df, last as nat), dt);
        assert(spec_advance(df, last as nat) == dt);
    }
    Some(v)
}

/// A generated day range is sorted ascending as strings: its entries'
/// lexicographic order is their calendar order.
pub proof fn lemma_day_range_sorted(v: Seq<String>, df: Date, dt: Date)
    requires
        valid_date(df),
        valid_date(dt),
        spec_is_day_range(v, df, dt),
    ensures
        forall|i: int, j: int|
            0 <= i <= j < v.len() ==> spec_lex_le(#[trigger] v[i]@, #[trigger] v[j]@),
{
    assert forall|i: int, j: int|
        0 <= i <= j < v.len() implies spec_lex_le(#[trigger] v[i]@, #[trigger] v[j]@) by {
        let ai = spec_advance(df, i as nat);
        let aj = spec_advance(df, j as nat);
        lemma_format_lex_order(ai, aj);
    }
}

/// The quarter label `YYYY-Qn` for a month of a year.
pub open spec fn spec_quarter_label(y: int, m: int) -> Seq<char> {
    spec_int_decimal(y) + seq!['-', 'Q'] + seq![spec_digit_char((m - 1) / 3 + 1)]
}

/// Render the quarter label, e.g. the first month of 2025 gives `2025-Q1`.
pub fn quarter_label(year: i64, month: u64) -> (r: String)
    requires
        1 <= month <= 12,
        year != i64::MIN,
    ensures
        r@ == spec_quarter_label(year as int, month as int),
{
    proof {
        reveal_strlit("-Q");
    }
    let mut s = i64_to_string(year);
    s.append("-Q");
    let q: u64 = (month - 1) / 3 + 1;
    s.append(digit_str(q));
    proof {
        assert("-Q"@ =~= seq!['-', 'Q']);
        assert(s@ =~= spec_quarter_label(year as int, month as int));
    }
    s
}

/// Relies on `chrono::Utc::now` with `Datelike::year` and `Datelike::month`:
/// the current UTC year, and the month as a number from 1 to 12.
#[verifier::external_body]
fn now_year_month() -> (r: (i64, u64))
    ensures
        1 <= r.1 <= 12,
        r.0 != i64::MIN,
{
    let now = chrono::Utc::now();
    (now.year() as i64, now.month() as u64)
}

/// The quarter label of the present UTC moment. Two calls may disagree when
/// they straddle a quarter boundary; each result is the label of the year
/// and month the clock reported.
pub fn get_current_quarter() -> (r: String)
    ensures
        exists|y: int, m: int|
            1 <= m <= 12 && r@ == #[trigger] spec_quarter_label(y, m),
{
    let (y, m) = now_year_month();
    let r = quarter_label(y, m);
    proof {
        assert(r@ == spec_quarter_label(y as int, m as int));
    }
    r
}

/// Relies on `chrono::Utc::now` formatted with `%Y-%m-%d`: the current UTC
/// date, year first, zero-padded, with `-` separators — at least ten
/// characters.
#[verifier::external_body]
pub fn today_utc_string() -> (r: String)
    ensures
        r@.len() >= 10,
{
    chrono::Utc::now().format("%Y-%m-%d").to_string()
}

} // verus!

