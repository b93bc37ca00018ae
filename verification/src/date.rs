use vstd::prelude::*;

verus! {

/// A calendar date. Content items carry only a date, never a time of day.
#[derive(Clone, Copy, PartialEq, Eq, Structural, Debug)]
pub struct Date {
    pub year: u32,
    pub month: u32,
    pub day: u32,
}

pub open spec fn is_leap_year(y: int) -> bool {
    (y % 4 == 0 && y % 100 != 0) || y % 400 == 0
}

pub open spec fn days_in_month(y: int, m: int) -> int {
    if m == 2 {
        if is_leap_year(y) {
            29
        } else {
            28
        }
    } else if m == 4 || m == 6 || m == 9 || m == 11 {
        30
    } else {
        31
    }
}

impl Date {
    /// A proper Gregorian date with a four-digit year.
    pub open spec fn valid(self) -> bool {
        &&& 1 <= self.year <= 9999
        &&& 1 <= self.month <= 12
        &&& 1 <= self.day <= days_in_month(self.year as int, self.month as int)
    }

    /// A single ordering key: later dates get larger keys.
    pub open spec fn key(self) -> int {
        self.year * 10000 + self.month * 100 + self.day
    }
}

/// Whether `d` is a proper Gregorian date, as `Date::valid` says.
pub fn date_valid(d: &Date) -> (r: bool)
    ensures
        r == d.valid(),
{
    1 <= d.year && d.year <= 9999 && 1 <= d.month && d.month <= 12 && 1 <= d.day && d.day
        <= days_in_month_exec(d.year, d.month)
}

/// Whether `a` is on or before `b`.
pub fn date_le(a: &Date, b: &Date) -> (r: bool)
    requires
        a.valid(),
        b.valid(),
    ensures
        r == (a.key() <= b.key()),
{
    if a.year != b.year {
        a.year < b.year
    } else if a.month != b.month {
        a.month < b.month
    } else {
        a.day <= b.day
    }
}

pub open spec fn is_digit(c: char) -> bool {
    '0' <= c && c <= '9'
}

pub open spec fn digit_val(c: char) -> int {
    c as int - '0' as int
}

/// Whether `s` has the shape `YYYY-MM-DD`: four digits, `-`, two digits,
/// `-`, two digits, and nothing else.
pub open spec fn date_str_wf(s: Seq<char>) -> bool {
    &&& s.len() == 10
    &&& is_digit(s[0]) && is_digit(s[1]) && is_digit(s[2]) && is_digit(s[3])
    &&& s[4] == '-'
    &&& is_digit(s[5]) && is_digit(s[6])
    &&& s[7] == '-'
    &&& is_digit(s[8]) && is_digit(s[9])
}

/// The date a well-shaped `YYYY-MM-DD` string names.
pub open spec fn date_of_str(s: Seq<char>) -> Date {
    Date {
        year: (digit_val(s[0]) * 1000 + digit_val(s[1]) * 100 + digit_val(s[2]) * 10 + digit_val(
            s[3],
        )) as u32,
        month: (digit_val(s[5]) * 10 + digit_val(s[6])) as u32,
        day: (digit_val(s[8]) * 10 + digit_val(s[9])) as u32,
    }
}

fn read_digit(s: &str, i: usize) -> (r: Option<u32>)
    requires
        i < s@.len(),
    ensures
        match r {
            Some(v) => is_digit(s@[i as int]) && v == digit_val(s@[i as int]),
            None => !is_digit(s@[i as int]),
        },
{
    let c = s.get_char(i);
    if '0' <= c && c <= '9' {
        Some(c as u32 - '0' as u32)
    } else {
        None
    }
}

/// Reads a date from a string of the exact shape `YYYY-MM-DD`.
///
/// Returns the date if and only if the shape holds and the date is a
/// proper calendar date (month in range, day within the month, leap
/// years included).
pub fn parse_date(s: &str) -> (r: Option<Date>)
    ensures
        match r {
            Some(d) => date_str_wf(s@) && d == date_of_str(s@) && d.valid(),
            None => !date_str_wf(s@) || !date_of_str(s@).valid(),
        },
{
    if s.unicode_len() != 10 {
        return None;
    }
    if s.get_char(4) != '-' || s.get_char(7) != '-' {
        return None;
    }
    let y3 = read_digit(s, 0);
    let y2 = read_digit(s, 1);
    let y1 = read_digit(s, 2);
    let y0 = read_digit(s, 3);
    let m1 = read_digit(s, 5);
    let m0 = read_digit(s, 6);
    let d1 = read_digit(s, 8);
    let d0 = read_digit(s, 9);
    match (y3, y2, y1, y0, m1, m0, d1, d0) {
        (
            Some(y3),
            Some(y2),
            Some(y1),
            Some(y0),
            Some(m1),
            Some(m0),
            Some(d1),
            Some(d0),
        ) => {
            let year = y3 * 1000 + y2 * 100 + y1 * 10 + y0;
            let month = m1 * 10 + m0;
            let day = d1 * 10 + d0;
            let date = Date { year, month, day };
            if year >= 1 && month >= 1 && month <= 12 && day >= 1 && day <= days_in_month_exec(
                year,
                month,
            ) {
                Some(date)
            } else {
                None
            }
        },
        _ => None,
    }
}

fn days_in_month_exec(y: u32, m: u32) -> (r: u32)
    ensures
        r == days_in_month(y as int, m as int),
{
    if m == 2 {
        if (y % 4 == 0 && y % 100 != 0) || y % 400 == 0 {
            29
        } else {
            28
        }
    } else if m == 4 || m == 6 || m == 9 || m == 11 {
        30
    } else {
        31
    }
}

/// Sakamoto's weekday formula: 0 is Sunday, 6 is Saturday.
pub open spec fn weekday_of(d: Date) -> int {
    let y = if d.month < 3 {
        d.year - 1
    } else {
        d.year as int
    };
    (y + y / 4 - y / 100 + y / 400 + month_term(d.month as int) + d.day) % 7
}

pub open spec fn month_term(m: int) -> int {
    if m == 1 {
        0
    } else if m == 2 {
        3
    } else if m == 3 {
        2
    } else if m == 4 {
        5
    } else if m == 5 {
        0
    } else if m == 6 {
        3
    } else if m == 7 {
        5
    } else if m == 8 {
        1
    } else if m == 9 {
        4
    } else if m == 10 {
        6
    } else if m == 11 {
        2
    } else {
        4
    }
}

pub open spec fn weekday_name(w: int) -> Seq<char> {
    if w == 0 {
        seq!['S', 'u', 'n']
    } else if w == 1 {
        seq!['M', 'o', 'n']
    } else if w == 2 {
        seq!['T', 'u', 'e']
    } else if w == 3 {
        seq!['W', 'e', 'd']
    } else if w == 4 {
        seq!['T', 'h', 'u']
    } else if w == 5 {
        seq!['F', 'r', 'i']
    } else {
        seq!['S', 'a', 't']
    }
}

pub open spec fn month_name(m: int) -> Seq<char> {
    if m == 1 {
        seq!['J', 'a', 'n']
    } else if m == 2 {
        seq!['F', 'e', 'b']
    } else if m == 3 {
        seq!['M', 'a', 'r']
    } else if m == 4 {
        seq!['A', 'p', 'r']
    } else if m == 5 {
        seq!['M', 'a', 'y']
    } else if m == 6 {
        seq!['J', 'u', 'n']
    } else if m == 7 {
        seq!['J', 'u', 'l']
    } else if m == 8 {
        seq!['A', 'u', 'g']
    } else if m == 9 {
        seq!['S', 'e', 'p']
    } else if m == 10 {
        seq!['O', 'c', 't']
    } else if m == 11 {
        seq!['N', 'o', 'v']
    } else {
        seq!['D', 'e', 'c']
    }
}

pub open spec fn digit_char(d: int) -> char {
    if d == 0 {
        '0'
    } else if d == 1 {
        '1'
    } else if d == 2 {
        '2'
    } else if d == 3 {
        '3'
    } else if d == 4 {
        '4'
    } else if d == 5 {
        '5'
    } else if d == 6 {
        '6'
    } else if d == 7 {
        '7'
    } else if d == 8 {
        '8'
    } else {
        '9'
    }
}

pub open spec fn two_digits(n: int) -> Seq<char> {
    seq![digit_char(n / 10), digit_char(n % 10)]
}

pub open spec fn four_digits(n: int) -> Seq<char> {
    two_digits(n / 100) + two_digits(n % 100)
}

/// The RFC-822 date line the feed carries: weekday, zero-padded day,
/// month name, four-digit year, and a fixed midnight-UTC time.
pub open spec fn rfc822_of(d: Date) -> Seq<char> {
    weekday_name(weekday_of(d)) + seq![',', ' '] + two_digits(d.day as int) + seq![' ']
        + month_name(d.month as int) + seq![' '] + four_digits(d.year as int) + seq![
        ' ',
        '0',
        '0',
        ':',
        '0',
        '0',
        ':',
        '0',
        '0',
        ' ',
        '+',
        '0',
        '0',
        '0',
        '0',
    ]
}

fn push_two_digits(out: &mut String, n: u32)
    requires
        n < 100,
    ensures
        final(out)@ == old(out)@ + two_digits(n as int),
{
    let hi = n / 10;
    let lo = n % 10;
    push_digit(out, hi);
    push_digit(out, lo);
}

fn push_digit(out: &mut String, d: u32)
    requires
        d < 10,
    ensures
        final(out)@ == old(out)@ + seq![digit_char(d as int)],
{
    proof {
        reveal_strlit("0");
        reveal_strlit("1");
        reveal_strlit("2");
        reveal_strlit("3");
        reveal_strlit("4");
        reveal_strlit("5");
        reveal_strlit("6");
        reveal_strlit("7");
        reveal_strlit("8");
        reveal_strlit("9");
    }
    if d == 0 {
        out.append("0");
    } else if d == 1 {
        out.append("1");
    } else if d == 2 {
        out.append("2");
    } else if d == 3 {
        out.append("3");
    } else if d == 4 {
        out.append("4");
    } else if d == 5 {
        out.append("5");
    } else if d == 6 {
        out.append("6");
    } else if d == 7 {
        out.append("7");
    } else if d == 8 {
        out.append("8");
    } else {
        out.append("9");
    }
    proof {
        assert(final(out)@ =~= old(out)@ + seq![digit_char(d as int)]);
    }
}

fn weekday_exec(d: &Date) -> (w: u32)
    requires
        d.valid(),
    ensures
        w == weekday_of(*d),
        w < 7,
{
    let y: u32 = if d.month < 3 {
        d.year - 1
    } else {
        d.year
    };
    let t: u32 = month_term_exec(d.month);
    (y + y / 4 - y / 100 + y / 400 + t + d.day) % 7
}

fn month_term_exec(m: u32) -> (r: u32)
    ensures
        r == month_term(m as int),
{
    if m == 1 {
        0
    } else if m == 2 {
        3
    } else if m == 3 {
        2
    } else if m == 4 {
        5
    } else if m == 5 {
        0
    } else if m == 6 {
        3
    } else if m == 7 {
        5
    } else if m == 8 {
        1
    } else if m == 9 {
        4
    } else if m == 10 {
        6
    } else if m == 11 {
        2
    } else {
        4
    }
}

fn push_weekday_name(out: &mut String, w: u32)
    requires
        w < 7,
    ensures
        final(out)@ == old(out)@ + weekday_name(w as int),
{
    proof {
        reveal_strlit("Sun");
        reveal_strlit("Mon");
        reveal_strlit("Tue");
        reveal_strlit("Wed");
        reveal_strlit("Thu");
        reveal_strlit("Fri");
        reveal_strlit("Sat");
    }
    if w == 0 {
        out.append("Sun");
    } else if w == 1 {
        out.append("Mon");
    } else if w == 2 {
        out.append("Tue");
    } else if w == 3 {
        out.append("Wed");
    } else if w == 4 {
        out.append("Thu");
    } else if w == 5 {
        out.append("Fri");
    } else {
        out.append("Sat");
    }
    proof {
        assert(final(out)@ =~= old(out)@ + weekday_name(w as int));
    }
}

fn push_month_name(out: &mut String, m: u32)
    requires
        1 <= m <= 12,
    ensures
        final(out)@ == old(out)@ + month_name(m as int),
{
    proof {
        reveal_strlit("Jan");
        reveal_strlit("Feb");
        reveal_strlit("Mar");
        reveal_strlit("Apr");
        reveal_strlit("May");
        reveal_strlit("Jun");
        reveal_strlit("Jul");
        reveal_strlit("Aug");
        reveal_strlit("Sep");
        reveal_strlit("Oct");
        reveal_strlit("Nov");
        reveal_strlit("Dec");
    }
    if m == 1 {
        out.append("Jan");
    } else if m == 2 {
        out.append("Feb");
    } else if m == 3 {
        out.append("Mar");
    } else if m == 4 {
        out.append("Apr");
    } else if m == 5 {
        out.append("May");
    } else if m == 6 {
        out.append("Jun");
    } else if m == 7 {
        out.append("Jul");
    } else if m == 8 {
        out.append("Aug");
    } else if m == 9 {
        out.append("Sep");
    } else if m == 10 {
        out.append("Oct");
    } else if m == 11 {
        out.append("Nov");
    } else {
        out.append("Dec");
    }
    proof {
        assert(final(out)@ =~= old(out)@ + month_name(m as int));
    }
}

/// A date written as `YYYY-MM-DD`.
pub open spec fn date_str_of(d: Date) -> Seq<char> {
    four_digits(d.year as int) + seq!['-'] + two_digits(d.month as int) + seq!['-'] + two_digits(
        d.day as int,
    )
}

/// A digit character carries its value.
proof fn lemma_digit_char(v: int)
    requires
        0 <= v < 10,
    ensures
        is_digit(digit_char(v)),
        digit_val(digit_char(v)) == v,
{
}

/// Writing a valid date and reading the string back gives the date:
/// the shape is well formed and names the same date.
proof fn lemma_date_str_roundtrip(d: Date)
    requires
        d.valid(),
    ensures
        date_str_wf(date_str_of(d)),
        date_of_str(date_str_of(d)) == d,
{
    let s = date_str_of(d);
    let y = d.year as int;
    let mo = d.month as int;
    let dd = d.day as int;
    assert(s[0] == digit_char(y / 100 / 10));
    assert(s[1] == digit_char(y / 100 % 10));
    assert(s[2] == digit_char(y % 100 / 10));
    assert(s[3] == digit_char(y % 100 % 10));
    assert(s[4] == '-');
    assert(s[5] == digit_char(mo / 10));
    assert(s[6] == digit_char(mo % 10));
    assert(s[7] == '-');
    assert(s[8] == digit_char(dd / 10));
    assert(s[9] == digit_char(dd % 10));
    lemma_digit_char(y / 100 / 10);
    lemma_digit_char(y / 100 % 10);
    lemma_digit_char(y % 100 / 10);
    lemma_digit_char(y % 100 % 10);
    lemma_digit_char(mo / 10);
    lemma_digit_char(mo % 10);
    lemma_digit_char(dd / 10);
    lemma_digit_char(dd % 10);
    assert((y / 100 / 10) * 1000 + (y / 100 % 10) * 100 + (y % 100 / 10) * 10 + (y % 100 % 10)
        == y);
    assert((mo / 10) * 10 + mo % 10 == mo);
    assert((dd / 10) * 10 + dd % 10 == dd);
}

/// Writes a date as `YYYY-MM-DD`, the exact shape `parse_date` reads:
/// reading the result back gives the date.
pub fn format_date(d: &Date) -> (r: String)
    requires
        d.valid(),
    ensures
        r@ == date_str_of(*d),
        date_str_wf(r@),
        date_of_str(r@) == *d,
{
    let mut out = String::new();
    push_two_digits(&mut out, d.year / 100);
    push_two_digits(&mut out, d.year % 100);
    proof {
        reveal_strlit("-");
    }
    out.append("-");
    push_two_digits(&mut out, d.month);
    out.append("-");
    push_two_digits(&mut out, d.day);
    proof {
        assert(out@ =~= date_str_of(*d));
        lemma_date_str_roundtrip(*d);
    }
    out
}

/// Writes a date as an RFC-822 date line with a midnight-UTC time,
/// the shape a feed's `pubDate` element carries.
pub fn date_to_rfc822(d: &Date) -> (r: String)
    requires
        d.valid(),
    ensures
        r@ == rfc822_of(*d),
{
    let mut out = String::new();
    let w = weekday_exec(d);
    push_weekday_name(&mut out, w);
    proof {
        reveal_strlit(", ");
        reveal_strlit(" ");
        reveal_strlit(" 00:00:00 +0000");
    }
    out.append(", ");
    push_two_digits(&mut out, d.day);
    out.append(" ");
    push_month_name(&mut out, d.month);
    out.append(" ");
    push_two_digits(&mut out, d.year / 100);
    push_two_digits(&mut out, d.year % 100);
    out.append(" 00:00:00 +0000");
    proof {
        assert(out@ =~= rfc822_of(*d));
    }
    out
}

} // verus!
