//! A verified Gregorian civil calendar: dates as year/month/day records,
//! day-of-week bookkeeping relative to a trusted "today", successor/addition
//! on dates, and strict `YYYY-MM-DD` parsing and rendering.

use vstd::prelude::*;

use crate::strutil::digit_char;

verus! {

/// Day-of-week encoding: Monday is 0, Sunday is 6
/// (the count of days since the most recent Monday).
pub const WD_MONDAY: u8 = 0;

pub const WD_SATURDAY: u8 = 5;

pub const WD_SUNDAY: u8 = 6;

/// A civil (Gregorian) calendar date.
#[derive(Clone, Copy, Debug, PartialEq, Eq, Structural)]
pub struct Date {
    pub year: i32,
    pub month: u8,
    pub day: u8,
}

/// Gregorian leap-year rule.
pub open spec fn is_leap_year(y: int) -> bool {
    y % 4 == 0 && (y % 100 != 0 || y % 400 == 0)
}

/// Number of days in month `m` of year `y`.
pub open spec fn days_in_month(y: int, m: int) -> int {
    if m == 2 {
        if is_leap_year(y) {
            29
        } else {
            28
        }
    } else if m == 4 || m == 6 || m == 9 || m == 11 {
        30
    } else {
        31
    }
}

/// A structurally valid calendar date.
pub open spec fn valid_date(d: Date) -> bool {
    &&& 1 <= d.month <= 12
    &&& 1 <= d.day <= days_in_month(d.year as int, d.month as int)
}

/// The calendar successor of `d` (the next day).
pub open spec fn next_date(d: Date) -> Date {
    if d.day < days_in_month(d.year as int, d.month as int) {
        Date { year: d.year, month: d.month, day: (d.day + 1) as u8 }
    } else if d.month < 12 {
        Date { year: d.year, month: (d.month + 1) as u8, day: 1 }
    } else {
        Date { year: (d.year + 1) as i32, month: 1, day: 1 }
    }
}

/// `d` advanced by `n` days.
pub open spec fn date_plus_days(d: Date, n: nat) -> Date
    decreases n,
{
    if n == 0 {
        d
    } else {
        date_plus_days(next_date(d), (n - 1) as nat)
    }
}

/// Strict ordering on dates by (year, month, day).
pub open spec fn date_lt(a: Date, b: Date) -> bool {
    ||| a.year < b.year
    ||| (a.year == b.year && a.month < b.month)
    ||| (a.year == b.year && a.month == b.month && a.day < b.day)
}

/// Executable check whether a date is structurally valid.
pub fn is_valid_date(d: &Date) -> (r: bool)
    ensures
        r == valid_date(*d),
{
    let dim = days_in_month_exec(d.year, d.month);
    1 <= d.month && d.month <= 12 && 1 <= d.day && d.day <= dim
}

/// Executable number of days in a month.
pub fn days_in_month_exec(y: i32, m: u8) -> (r: u8)
    ensures
        r == days_in_month(y as int, m as int),
{
    if m == 2 {
        if (y % 4 == 0) && (y % 100 != 0 || y % 400 == 0) {
            29
        } else {
            28
        }
    } else if m == 4 || m == 6 || m == 9 || m == 11 {
        30
    } else {
        31
    }
}

/// The calendar successor of a valid date.
pub fn next_date_exec(d: &Date) -> (r: Date)
    requires
        valid_date(*d),
        d.year < i32::MAX,
    ensures
        r == next_date(*d),
        valid_date(r),
{
    let dim = days_in_month_exec(d.year, d.month);
    if d.day < dim {
        Date { year: d.year, month: d.month, day: d.day + 1 }
    } else if d.month < 12 {
        Date { year: d.year, month: d.month + 1, day: 1 }
    } else {
        Date { year: d.year + 1, month: 1, day: 1 }
    }
}

/// A valid date advanced by `n` days.
pub fn add_days(d: &Date, n: u8) -> (r: Date)
    requires
        valid_date(*d),
        d.year + 1 + n <= i32::MAX,
    ensures
        r == date_plus_days(*d, n as nat),
        valid_date(r),
{
    let mut cur: Date = *d;
    let mut i: u8 = 0;
    while i < n
        invariant
            valid_date(cur),
            i <= n,
            d.year + 1 + n <= i32::MAX,
            cur.year <= d.year + i,
            date_plus_days(*d, n as nat) == date_plus_days(cur, (n - i) as nat),
        decreases n - i,
    {
        cur = next_date_exec(&cur);
        i = i + 1;
    }
    cur
}

/// Advancing a date by one day moves it strictly later in calendar order.
pub proof fn lemma_next_date_lt(d: Date)
    requires
        valid_date(d),
        d.year < i32::MAX,
    ensures
        date_lt(d, next_date(d)),
        valid_date(next_date(d)),
{
}

/// Advancing a valid date by any positive number of days moves it strictly
/// later in calendar order.
pub proof fn lemma_date_plus_days_lt(d: Date, n: nat)
    requires
        valid_date(d),
        n > 0,
        d.year + n <= i32::MAX,
    ensures
        date_lt(d, date_plus_days(d, n)),
        valid_date(date_plus_days(d, n)),
    decreases n,
{
    lemma_next_date_lt(d);
    if n == 1 {
        assert(date_plus_days(next_date(d), 0) == next_date(d));
        assert(date_plus_days(d, n) == next_date(d));
    } else {
        let e = next_date(d);
        assert(e.year <= d.year + 1);
        lemma_date_plus_days_lt(e, (n - 1) as nat);
        let f = date_plus_days(e, (n - 1) as nat);
        assert(date_plus_days(d, n) == f);
        assert(date_lt(d, e) && date_lt(e, f));
    }
}

/// The numeric value of a decimal digit character, or -1 for any other
/// character.
pub open spec fn char_digit_val(c: char) -> int {
    if c == '0' {
        0
    } else if c == '1' {
        1
    } else if c == '2' {
        2
    } else if c == '3' {
        3
    } else if c == '4' {
        4
    } else if c == '5' {
        5
    } else if c == '6' {
        6
    } else if c == '7' {
        7
    } else if c == '8' {
        8
    } else if c == '9' {
        9
    } else {
        -1
    }
}

/// Whether a character is a decimal digit.
pub open spec fn is_digit_char(c: char) -> bool {
    char_digit_val(c) >= 0
}

/// The result of `parse_date` on a character sequence: `Some` exactly for
/// `YYYY-MM-DD` renderings of structurally valid dates.
pub open spec fn parse_date_spec(s: Seq<char>) -> Option<Date> {
    if s.len() == 10 && is_digit_char(s[0]) && is_digit_char(s[1]) && is_digit_char(s[2])
        && is_digit_char(s[3]) && s[4] == '-' && is_digit_char(s[5]) && is_digit_char(s[6]) && s[7]
        == '-' && is_digit_char(s[8]) && is_digit_char(s[9]) {
        let y = char_digit_val(s[0]) * 1000 + char_digit_val(s[1]) * 100 + char_digit_val(s[2])
            * 10 + char_digit_val(s[3]);
        let m = char_digit_val(s[5]) * 10 + char_digit_val(s[6]);
        let d = char_digit_val(s[8]) * 10 + char_digit_val(s[9]);
        let date = Date { year: y as i32, month: m as u8, day: d as u8 };
        if valid_date(date) {
            Some(date)
        } else {
            None
        }
    } else {
        None
    }
}

/// The numeric value of a decimal digit character, or -1 otherwise.
fn char_digit_val_exec(c: char) -> (r: i32)
    ensures
        r == char_digit_val(c),
{
    if c == '0' {
        0
    } else if c == '1' {
        1
    } else if c == '2' {
        2
    } else if c == '3' {
        3
    } else if c == '4' {
        4
    } else if c == '5' {
        5
    } else if c == '6' {
        6
    } else if c == '7' {
        7
    } else if c == '8' {
        8
    } else if c == '9' {
        9
    } else {
        -1
    }
}

/// Parse a strict `YYYY-MM-DD` date from the first ten characters of `s`,
/// which must be all of `s`.
pub fn parse_date(s: &str) -> (r: Option<Date>)
    ensures
        r == parse_date_spec(s@),
{
    let len = s.unicode_len();
    if len != 10 {
        return None;
    }
    parse_date_at(s)
}

/// Parse a `YYYY-MM-DD` date from the first ten characters of `s`,
/// ignoring the rest (for timestamps such as `YYYY-MM-DDTHH:MM:SS`).
pub fn parse_date_prefix(s: &str) -> (r: Option<Date>)
    ensures
        s@.len() >= 10 ==> r == parse_date_spec(s@.subrange(0, 10)),
        s@.len() < 10 ==> r is None,
{
    let len = s.unicode_len();
    if len < 10 {
        return None;
    }
    let r = parse_date_at(s);
    proof {
        let p = s@.subrange(0, 10);
        assert(p[0] == s@[0] && p[1] == s@[1] && p[2] == s@[2] && p[3] == s@[3] && p[4] == s@[4]
            && p[5] == s@[5] && p[6] == s@[6] && p[7] == s@[7] && p[8] == s@[8] && p[9] == s@[9]);
    }
    r
}

/// Parse a date from the first ten characters of `s`.
fn parse_date_at(s: &str) -> (r: Option<Date>)
    requires
        s@.len() >= 10,
    ensures
        r == parse_date_spec(s@.subrange(0, 10)),
{
    let c0 = char_digit_val_exec(s.get_char(0));
    let c1 = char_digit_val_exec(s.get_char(1));
    let c2 = char_digit_val_exec(s.get_char(2));
    let c3 = char_digit_val_exec(s.get_char(3));
    let d4 = s.get_char(4);
    let c5 = char_digit_val_exec(s.get_char(5));
    let c6 = char_digit_val_exec(s.get_char(6));
    let d7 = s.get_char(7);
    let c8 = char_digit_val_exec(s.get_char(8));
    let c9 = char_digit_val_exec(s.get_char(9));
    proof {
        let p = s@.subrange(0, 10);
        assert(p.len() == 10);
        assert(p[0] == s@[0] && p[1] == s@[1] && p[2] == s@[2] && p[3] == s@[3] && p[4] == s@[4]
            && p[5] == s@[5] && p[6] == s@[6] && p[7] == s@[7] && p[8] == s@[8] && p[9] == s@[9]);
    }
    if c0 < 0 || c1 < 0 || c2 < 0 || c3 < 0 || d4 != '-' || c5 < 0 || c6 < 0 || d7 != '-' || c8 < 0
        || c9 < 0 {
        return None;
    }
    let y: i32 = c0 * 1000 + c1 * 100 + c2 * 10 + c3;
    let m: u8 = (c5 * 10 + c6) as u8;
    let d: u8 = (c8 * 10 + c9) as u8;
    let date = Date { year: y, month: m, day: d };
    if is_valid_date(&date) {
        Some(date)
    } else {
        None
    }
}

/// The `YYYY-MM-DD` rendering of a date (years 0 to 9999, zero padded).
pub open spec fn render_date_spec(d: Date) -> Seq<char> {
    seq![
        digit_char(d.year as int / 1000 % 10),
        digit_char(d.year as int / 100 % 10),
        digit_char(d.year as int / 10 % 10),
        digit_char(d.year as int % 10),
        '-',
        digit_char(d.month as int / 10),
        digit_char(d.month as int % 10),
        '-',
        digit_char(d.day as int / 10),
        digit_char(d.day as int % 10),
    ]
}

/// Render a date as `YYYY-MM-DD`.
pub fn render_date(d: &Date) -> (r: String)
    requires
        0 <= d.year <= 9999,
        valid_date(*d),
    ensures
        r@ == render_date_spec(*d),
{
    proof {
        reveal_strlit("-");
    }
    let mut s = String::new();
    append_digit(&mut s, ((d.year / 1000) % 10) as u8);
    append_digit(&mut s, ((d.year / 100) % 10) as u8);
    append_digit(&mut s, ((d.year / 10) % 10) as u8);
    append_digit(&mut s, (d.year % 10) as u8);
    s.append("-");
    append_digit(&mut s, d.month / 10);
    append_digit(&mut s, d.month % 10);
    s.append("-");
    append_digit(&mut s, d.day / 10);
    append_digit(&mut s, d.day % 10);
    proof {
        assert(s@ =~= render_date_spec(*d));
    }
    s
}

/// Append one decimal digit character to `out`.
fn append_digit(out: &mut String, v: u8)
    requires
        v < 10,
    ensures
        final(out)@ == old(out)@ + seq![digit_char(v as int)],
{
    proof {
        reveal_strlit("0");
        reveal_strlit("1");
        reveal_strlit("2");
        reveal_strlit("3");
        reveal_strlit("4");
        reveal_strlit("5");
        reveal_strlit("6");
        reveal_strlit("7");
        reveal_strlit("8");
        reveal_strlit("9");
    }
    let piece: &str = if v == 0 {
        "0"
    } else if v == 1 {
        "1"
    } else if v == 2 {
        "2"
    } else if v == 3 {
        "3"
    } else if v == 4 {
        "4"
    } else if v == 5 {
        "5"
    } else if v == 6 {
        "6"
    } else if v == 7 {
        "7"
    } else if v == 8 {
        "8"
    } else {
        "9"
    };
    out.append(piece);
    proof {
        assert(out@ =~= old(out)@ + seq![digit_char(v as int)]);
    }
}

/// A digit character maps back to its value.
proof fn lemma_digit_char_val(v: int)
    requires
        0 <= v < 10,
    ensures
        char_digit_val(digit_char(v)) == v,
{
}

/// Rendering a valid four-digit-year date and parsing it back yields the
/// same date (the parser inverts the renderer).
pub proof fn lemma_render_parse_roundtrip(d: Date)
    requires
        valid_date(d),
        0 <= d.year <= 9999,
    ensures
        parse_date_spec(render_date_spec(d)) == Some(d),
{
    let s = render_date_spec(d);
    assert(s.len() == 10);
    let y = d.year as int;
    assert(y / 1000 % 10 == y / 1000) by {
        assert(y / 1000 <= 9) by (nonlinear_arith)
            requires
                0 <= y <= 9999,
        ;
    }
    lemma_digit_char_val(y / 1000 % 10);
    lemma_digit_char_val(y / 100 % 10);
    lemma_digit_char_val(y / 10 % 10);
    lemma_digit_char_val(y % 10);
    lemma_digit_char_val(d.month as int / 10);
    lemma_digit_char_val(d.month as int % 10);
    lemma_digit_char_val(d.day as int / 10);
    lemma_digit_char_val(d.day as int % 10);
    assert(y / 1000 * 1000 + y / 100 % 10 * 100 + y / 10 % 10 * 10 + y % 10 == y) by (
    nonlinear_arith)
        requires
            0 <= y <= 9999,
    ;
    let m = d.month as int;
    assert(m / 10 * 10 + m % 10 == m);
    let dd = d.day as int;
    assert(dd / 10 * 10 + dd % 10 == dd);
}

} // verus!
