//! HTTP dates in the IMF-fixdate form, such as
//! `Wed, 21 Oct 2026 07:28:00 GMT`.

use crate::text;
use crate::text::chars_of;
use vstd::prelude::*;

verus! {

// ---------------------------------------------------------------------
// The calendar
// ---------------------------------------------------------------------

/// Is `y` a leap year of the Gregorian calendar?
pub open spec fn is_leap(y: int) -> bool {
    y % 4 == 0 && (y % 100 != 0 || y % 400 == 0)
}

/// Days in the year `y`.
pub open spec fn year_days(y: int) -> int {
    if is_leap(y) {
        366
    } else {
        365
    }
}

/// Days from 1970-01-01 to the first day of the year `y`.
pub open spec fn days_to_year(y: int) -> int
    decreases y - 1970,
{
    if y <= 1970 {
        0
    } else {
        days_to_year(y - 1) + year_days(y - 1)
    }
}

/// Days in the month `m` of the year `y`.
pub open spec fn month_days(y: int, m: int) -> int {
    if m == 2 {
        if is_leap(y) {
            29
        } else {
            28
        }
    } else if m == 4 || m == 6 || m == 9 || m == 11 {
        30
    } else {
        31
    }
}

/// Days from the first day of the year `y` to that of its month `m`.
pub open spec fn days_to_month(y: int, m: int) -> int
    decreases m,
{
    if m <= 1 {
        0
    } else {
        days_to_month(y, m - 1) + month_days(y, m - 1)
    }
}

/// Unix time of a date and time of day. A day beyond the end of its month
/// counts on into the next.
pub open spec fn unix_time(y: int, m: int, d: int, hour: int, minute: int, second: int) -> int {
    (days_to_year(y) + days_to_month(y, m) + d - 1) * 86400 + hour * 3600 + minute * 60 + second
}

/// The ranges that a date and time of day are accepted in.
pub open spec fn in_range(y: int, m: int, d: int, hour: int, minute: int, second: int) -> bool {
    &&& 1970 <= y <= 9999
    &&& 1 <= m <= 12
    &&& 1 <= d <= 31
    &&& 0 <= hour < 24
    &&& 0 <= minute < 60
    &&& 0 <= second < 60
}

/// Leap years in `1..=n`.
spec fn leaps(n: int) -> int {
    n / 4 - n / 100 + n / 400
}

proof fn lemma_leaps(y: int)
    requires
        y >= 1,
    ensures
        leaps(y) == leaps(y - 1) + if is_leap(y) {
            1int
        } else {
            0int
        },
{
}

proof fn lemma_days_to_year(y: int)
    requires
        y >= 1970,
    ensures
        days_to_year(y) == 365 * (y - 1970) + leaps(y - 1) - leaps(1969),
    decreases y,
{
    if y > 1970 {
        lemma_days_to_year(y - 1);
        lemma_leaps(y - 1);
    }
}

/// The closed form of the day count, over years that start in March.
proof fn lemma_days_from_civil(y: int, m: int)
    requires
        1970 <= y,
        1 <= m <= 12,
    ensures
        ({
            let shifted = if m <= 2 {
                y - 1
            } else {
                y
            };
            let mp = if m > 2 {
                m - 3
            } else {
                m + 9
            };
            days_to_year(y) + days_to_month(y, m) == 365 * shifted + leaps(shifted) + (153 * mp + 2)
                / 5 - 719468
        }),
{
    lemma_days_to_year(y);
    lemma_leaps(y);
    reveal_with_fuel(days_to_month, 13);
}

/// Convert a Gregorian (year, month, day, h, m, s) tuple to Unix seconds.
/// Returns `None` on out-of-range inputs.
pub fn imf_to_unix(year: i32, month: u32, day: u32, hour: u32, minute: u32, second: u32) -> (res:
    Option<u64>)
    ensures
        res is Some <==> in_range(
            year as int,
            month as int,
            day as int,
            hour as int,
            minute as int,
            second as int,
        ),
        res matches Some(t) ==> t == unix_time(
            year as int,
            month as int,
            day as int,
            hour as int,
            minute as int,
            second as int,
        ),
{
    if !(1970 <= year && year <= 9999) || !(1 <= month && month <= 12) || !(1 <= day && day <= 31)
        || hour >= 24 || minute >= 60 || second >= 60 {
        return None;
    }
    // Days-from-civil over years that start in March.
    let y: u64 = if month <= 2 {
        year as u64 - 1
    } else {
        year as u64
    };
    let era: u64 = y / 400;
    let yoe: u64 = y - era * 400;
    let mp: u64 = if month > 2 {
        (month - 3) as u64
    } else {
        (month + 9) as u64
    };
    let doy: u64 = (153 * mp + 2) / 5 + day as u64 - 1;
    let doe: u64 = yoe * 365 + yoe / 4 - yoe / 100 + doy;
    proof {
        lemma_days_from_civil(year as int, month as int);
        assert(era * 146097 + yoe * 365 + yoe / 4 - yoe / 100 == 365 * y + leaps(y as int));
    }
    let days: u64 = era * 146097 + doe - 719468;
    Some(days * 86400 + hour as u64 * 3600 + minute as u64 * 60 + second as u64)
}

// ---------------------------------------------------------------------
// The text form
// ---------------------------------------------------------------------

/// The names of the days of the week.
pub open spec fn is_day_name(s: Seq<char>) -> bool {
    ||| s == seq!['M', 'o', 'n']
    ||| s == seq!['T', 'u', 'e']
    ||| s == seq!['W', 'e', 'd']
    ||| s == seq!['T', 'h', 'u']
    ||| s == seq!['F', 'r', 'i']
    ||| s == seq!['S', 'a', 't']
    ||| s == seq!['S', 'u', 'n']
}

/// The number of the month that `s` names.
pub open spec fn month_number(s: Seq<char>) -> Option<int> {
    if s == seq!['J', 'a', 'n'] {
        Some(1)
    } else if s == seq!['F', 'e', 'b'] {
        Some(2)
    } else if s == seq!['M', 'a', 'r'] {
        Some(3)
    } else if s == seq!['A', 'p', 'r'] {
        Some(4)
    } else if s == seq!['M', 'a', 'y'] {
        Some(5)
    } else if s == seq!['J', 'u', 'n'] {
        Some(6)
    } else if s == seq!['J', 'u', 'l'] {
        Some(7)
    } else if s == seq!['A', 'u', 'g'] {
        Some(8)
    } else if s == seq!['S', 'e', 'p'] {
        Some(9)
    } else if s == seq!['O', 'c', 't'] {
        Some(10)
    } else if s == seq!['N', 'o', 'v'] {
        Some(11)
    } else if s == seq!['D', 'e', 'c'] {
        Some(12)
    } else {
        None
    }
}

/// The two-digit number at `i`.
pub open spec fn two_digits(s: Seq<char>, i: int) -> int {
    (s[i] as int - 48) * 10 + (s[i + 1] as int - 48)
}

/// Is `s` of the form `Day, DD Mon YYYY HH:MM:SS GMT`?
pub open spec fn is_imf_fixdate(s: Seq<char>) -> bool {
    &&& s.len() == 29
    &&& is_day_name(s.subrange(0, 3))
    &&& s[3] == ',' && s[4] == ' '
    &&& text::is_digit(s[5]) && text::is_digit(s[6])
    &&& s[7] == ' '
    &&& month_number(s.subrange(8, 11)) is Some
    &&& s[11] == ' '
    &&& text::is_digit(s[12]) && text::is_digit(s[13])
    &&& text::is_digit(s[14]) && text::is_digit(s[15])
    &&& s[16] == ' '
    &&& text::is_digit(s[17]) && text::is_digit(s[18])
    &&& s[19] == ':'
    &&& text::is_digit(s[20]) && text::is_digit(s[21])
    &&& s[22] == ':'
    &&& text::is_digit(s[23]) && text::is_digit(s[24])
    &&& s[25] == ' ' && s[26] == 'G' && s[27] == 'M' && s[28] == 'T'
}

/// The Unix time that `s` writes as an IMF-fixdate.
pub open spec fn imf_fixdate(s: Seq<char>) -> Option<int> {
    let y = two_digits(s, 12) * 100 + two_digits(s, 14);
    let m = month_number(s.subrange(8, 11));
    let d = two_digits(s, 5);
    let hour = two_digits(s, 17);
    let minute = two_digits(s, 20);
    let second = two_digits(s, 23);
    if is_imf_fixdate(s) && in_range(y, m->0, d, hour, minute, second) {
        Some(unix_time(y, m->0, d, hour, minute, second))
    } else {
        None
    }
}

/// Is `chars[i..i + 3]` the given name?
fn name_at(chars: &[char], i: usize, a: char, b: char, c: char) -> (res: bool)
    requires
        i + 3 <= chars@.len(),
    ensures
        res == (chars@.subrange(i as int, i + 3) == seq![a, b, c]),
{
    let res = chars[i] == a && chars[i + 1] == b && chars[i + 2] == c;
    let ghost part = chars@.subrange(i as int, i + 3);
    assert(part[0] == chars@[i as int] && part[1] == chars@[i + 1] && part[2] == chars@[i + 2]);
    assert(res ==> part =~= seq![a, b, c]);
    res
}

fn day_name_at(chars: &[char], i: usize) -> (res: bool)
    requires
        i + 3 <= chars@.len(),
    ensures
        res == is_day_name(chars@.subrange(i as int, i + 3)),
{
    name_at(chars, i, 'M', 'o', 'n') || name_at(chars, i, 'T', 'u', 'e') || name_at(
        chars,
        i,
        'W',
        'e',
        'd',
    ) || name_at(chars, i, 'T', 'h', 'u') || name_at(chars, i, 'F', 'r', 'i') || name_at(
        chars,
        i,
        'S',
        'a',
        't',
    ) || name_at(chars, i, 'S', 'u', 'n')
}

fn month_at(chars: &[char], i: usize) -> (res: Option<u32>)
    requires
        i + 3 <= chars@.len(),
    ensures
        res is Some <==> month_number(chars@.subrange(i as int, i + 3)) is Some,
        res matches Some(m) ==> m == month_number(chars@.subrange(i as int, i + 3))->0,
{
    if name_at(chars, i, 'J', 'a', 'n') {
        Some(1)
    } else if name_at(chars, i, 'F', 'e', 'b') {
        Some(2)
    } else if name_at(chars, i, 'M', 'a', 'r') {
        Some(3)
    } else if name_at(chars, i, 'A', 'p', 'r') {
        Some(4)
    } else if name_at(chars, i, 'M', 'a', 'y') {
        Some(5)
    } else if name_at(chars, i, 'J', 'u', 'n') {
        Some(6)
    } else if name_at(chars, i, 'J', 'u', 'l') {
        Some(7)
    } else if name_at(chars, i, 'A', 'u', 'g') {
        Some(8)
    } else if name_at(chars, i, 'S', 'e', 'p') {
        Some(9)
    } else if name_at(chars, i, 'O', 'c', 't') {
        Some(10)
    } else if name_at(chars, i, 'N', 'o', 'v') {
        Some(11)
    } else if name_at(chars, i, 'D', 'e', 'c') {
        Some(12)
    } else {
        None
    }
}

/// Read two digits at `i`.
fn two_digits_at(chars: &[char], i: usize) -> (res: Option<u32>)
    requires
        i + 2 <= chars@.len(),
    ensures
        res is Some <==> text::is_digit(chars@[i as int]) && text::is_digit(chars@[i + 1]),
        res matches Some(n) ==> n == two_digits(chars@, i as int) && n <= 99,
{
    let a = chars[i];
    let b = chars[i + 1];
    if '0' <= a && a <= '9' && '0' <= b && b <= '9' {
        Some((a as u32 - 48) * 10 + (b as u32 - 48))
    } else {
        None
    }
}

/// Parse an IMF-fixdate to Unix seconds. Returns `None` for inputs that
/// do not match the form exactly or are out of range.
pub fn httpdate_parse(s: &str) -> (res: Option<u64>)
    ensures
        res is Some <==> imf_fixdate(s@) is Some,
        res matches Some(t) ==> t == imf_fixdate(s@)->0,
{
    let v = chars_of(s);
    let c = v.as_slice();
    if c.len() != 29 {
        return None;
    }
    if !day_name_at(c, 0) || c[3] != ',' || c[4] != ' ' || c[7] != ' ' || c[11] != ' ' || c[16]
        != ' ' || c[19] != ':' || c[22] != ':' || c[25] != ' ' || c[26] != 'G' || c[27] != 'M'
        || c[28] != 'T' {
        return None;
    }
    let day = match two_digits_at(c, 5) {
        Some(n) => n,
        None => return None,
    };
    let month = match month_at(c, 8) {
        Some(n) => n,
        None => return None,
    };
    let century = match two_digits_at(c, 12) {
        Some(n) => n,
        None => return None,
    };
    let year = match two_digits_at(c, 14) {
        Some(n) => n,
        None => return None,
    };
    let hour = match two_digits_at(c, 17) {
        Some(n) => n,
        None => return None,
    };
    let minute = match two_digits_at(c, 20) {
        Some(n) => n,
        None => return None,
    };
    let second = match two_digits_at(c, 23) {
        Some(n) => n,
        None => return None,
    };
    imf_to_unix((century * 100 + year) as i32, month, day, hour, minute, second)
}

// ---------------------------------------------------------------------
// What holds of dates
// ---------------------------------------------------------------------

/// Time counts from the start of 1970, in seconds through the day.
pub proof fn law_time_of_day(y: int, m: int, d: int, hour: int, minute: int, second: int)
    ensures
        unix_time(1970, 1, 1, 0, 0, 0) == 0,
        unix_time(y, m, d, hour, minute, second) == unix_time(y, m, d, 0, 0, 0) + hour * 3600
            + minute * 60 + second,
        unix_time(y, m, d + 1, 0, 0, 0) == unix_time(y, m, d, 0, 0, 0) + 86400,
{
}

/// Months have 31 days or 30, and February 28 or, every fourth year but in
/// centuries that 400 does not divide, 29: the day after the last of a
/// month is the first of the next, and the day after 31 December the first
/// of the next year.
pub proof fn law_months_and_years_follow_each_other(y: int, m: int)
    requires
        1970 <= y,
        1 <= m <= 12,
    ensures
        m == 1 || m == 3 || m == 5 || m == 7 || m == 8 || m == 10 ==> unix_time(
            y,
            m + 1,
            1,
            0,
            0,
            0,
        ) == unix_time(y, m, 31, 0, 0, 0) + 86400,
        m == 4 || m == 6 || m == 9 || m == 11 ==> unix_time(y, m + 1, 1, 0, 0, 0) == unix_time(
            y,
            m,
            30,
            0,
            0,
            0,
        ) + 86400,
        y % 4 == 0 && (y % 100 != 0 || y % 400 == 0) ==> unix_time(y, 3, 1, 0, 0, 0) == unix_time(
            y,
            2,
            29,
            0,
            0,
            0,
        ) + 86400,
        y % 4 != 0 || (y % 100 == 0 && y % 400 != 0) ==> unix_time(y, 3, 1, 0, 0, 0) == unix_time(
            y,
            2,
            28,
            0,
            0,
            0,
        ) + 86400,
        unix_time(y + 1, 1, 1, 0, 0, 0) == unix_time(y, 12, 31, 0, 0, 0) + 86400,
{
    reveal_with_fuel(days_to_month, 13);
}

/// The name of a month.
pub open spec fn month_name(m: int) -> Seq<char> {
    if m == 1 {
        "Jan"@
    } else if m == 2 {
        "Feb"@
    } else if m == 3 {
        "Mar"@
    } else if m == 4 {
        "Apr"@
    } else if m == 5 {
        "May"@
    } else if m == 6 {
        "Jun"@
    } else if m == 7 {
        "Jul"@
    } else if m == 8 {
        "Aug"@
    } else if m == 9 {
        "Sep"@
    } else if m == 10 {
        "Oct"@
    } else if m == 11 {
        "Nov"@
    } else {
        "Dec"@
    }
}

/// Does `s` show `n` in two digits at `i`?
pub open spec fn shows(s: Seq<char>, i: int, n: int) -> bool {
    s[i] as u32 == 48 + n / 10 && s[i + 1] as u32 == 48 + n % 10
}

/// Is `s` the given date in the fixed form? The name of the day is any of
/// the seven.
pub open spec fn shows_date(
    s: Seq<char>,
    y: int,
    m: int,
    d: int,
    hour: int,
    minute: int,
    second: int,
) -> bool {
    let day = s.subrange(0, 3);
    &&& s.len() == 29
    &&& day == "Mon"@ || day == "Tue"@ || day == "Wed"@ || day == "Thu"@ || day == "Fri"@ || day
        == "Sat"@ || day == "Sun"@
    &&& s.subrange(3, 5) == ", "@
    &&& shows(s, 5, d)
    &&& s.subrange(7, 8) == " "@
    &&& s.subrange(8, 11) == month_name(m)
    &&& s.subrange(11, 12) == " "@
    &&& shows(s, 12, y / 100)
    &&& shows(s, 14, y % 100)
    &&& s.subrange(16, 17) == " "@
    &&& shows(s, 17, hour)
    &&& s.subrange(19, 20) == ":"@
    &&& shows(s, 20, minute)
    &&& s.subrange(22, 23) == ":"@
    &&& shows(s, 23, second)
    &&& s.subrange(25, 29) == " GMT"@
}

proof fn lemma_names()
    ensures
        "Mon"@ == seq!['M', 'o', 'n'],
        "Tue"@ == seq!['T', 'u', 'e'],
        "Wed"@ == seq!['W', 'e', 'd'],
        "Thu"@ == seq!['T', 'h', 'u'],
        "Fri"@ == seq!['F', 'r', 'i'],
        "Sat"@ == seq!['S', 'a', 't'],
        "Sun"@ == seq!['S', 'u', 'n'],
        "Jan"@ == seq!['J', 'a', 'n'],
        "Feb"@ == seq!['F', 'e', 'b'],
        "Mar"@ == seq!['M', 'a', 'r'],
        "Apr"@ == seq!['A', 'p', 'r'],
        "May"@ == seq!['M', 'a', 'y'],
        "Jun"@ == seq!['J', 'u', 'n'],
        "Jul"@ == seq!['J', 'u', 'l'],
        "Aug"@ == seq!['A', 'u', 'g'],
        "Sep"@ == seq!['S', 'e', 'p'],
        "Oct"@ == seq!['O', 'c', 't'],
        "Nov"@ == seq!['N', 'o', 'v'],
        "Dec"@ == seq!['D', 'e', 'c'],
        ", "@ == seq![',', ' '],
        " "@ == seq![' '],
        ":"@ == seq![':'],
        " GMT"@ == seq![' ', 'G', 'M', 'T'],
{
    reveal_strlit("Mon");
    reveal_strlit("Tue");
    reveal_strlit("Wed");
    reveal_strlit("Thu");
    reveal_strlit("Fri");
    reveal_strlit("Sat");
    reveal_strlit("Sun");
    reveal_strlit("Jan");
    reveal_strlit("Feb");
    reveal_strlit("Mar");
    reveal_strlit("Apr");
    reveal_strlit("May");
    reveal_strlit("Jun");
    reveal_strlit("Jul");
    reveal_strlit("Aug");
    reveal_strlit("Sep");
    reveal_strlit("Oct");
    reveal_strlit("Nov");
    reveal_strlit("Dec");
    reveal_strlit(", ");
    reveal_strlit(" ");
    reveal_strlit(":");
    reveal_strlit(" GMT");
}

/// The number of a month's name is that month.
proof fn lemma_month_number(m: int)
    requires
        1 <= m <= 12,
    ensures
        month_number(month_name(m)) == Some(m),
{
    lemma_names();
    let s = month_name(m);
    assert(s.len() == 3);
    assert(seq!['J', 'a', 'n'][1] != seq!['J', 'u', 'n'][1]);
    assert(seq!['J', 'u', 'n'][2] != seq!['J', 'u', 'l'][2]);
    assert(seq!['M', 'a', 'r'][2] != seq!['M', 'a', 'y'][2]);
    assert(seq!['A', 'p', 'r'][1] != seq!['A', 'u', 'g'][1]);
    assert(s[0] == s.first());
    assert(seq!['J', 'a', 'n'][0] == 'J' && seq!['F', 'e', 'b'][0] == 'F');
    assert(seq!['M', 'a', 'r'][0] == 'M' && seq!['A', 'p', 'r'][0] == 'A');
    assert(seq!['M', 'a', 'y'][0] == 'M' && seq!['J', 'u', 'n'][0] == 'J');
    assert(seq!['J', 'u', 'l'][0] == 'J' && seq!['A', 'u', 'g'][0] == 'A');
    assert(seq!['S', 'e', 'p'][0] == 'S' && seq!['O', 'c', 't'][0] == 'O');
    assert(seq!['N', 'o', 'v'][0] == 'N' && seq!['D', 'e', 'c'][0] == 'D');
}

proof fn lemma_digit(c: char, n: int)
    requires
        c as u32 == 48 + n,
        0 <= n <= 9,
    ensures
        text::is_digit(c),
        c as int - 48 == n,
{
}

/// Two digits that show a number are read as that number.
proof fn lemma_shows(s: Seq<char>, i: int, n: int)
    requires
        0 <= n <= 99,
        shows(s, i, n),
    ensures
        text::is_digit(s[i]),
        text::is_digit(s[i + 1]),
        two_digits(s, i) == n,
{
    lemma_digit(s[i], n / 10);
    lemma_digit(s[i + 1], n % 10);
}

/// A date that is written in the fixed form is read back to the second,
/// where it is in range.
pub proof fn law_dates_are_read_back(
    s: Seq<char>,
    y: int,
    m: int,
    d: int,
    hour: int,
    minute: int,
    second: int,
)
    requires
        0 <= y <= 9999,
        1 <= m <= 12,
        0 <= d <= 99,
        0 <= hour <= 99,
        0 <= minute <= 99,
        0 <= second <= 99,
        shows_date(s, y, m, d, hour, minute, second),
    ensures
        imf_fixdate(s) is Some <==> 1970 <= y && 1 <= d <= 31 && hour <= 23 && minute <= 59
            && second <= 59,
        imf_fixdate(s) matches Some(t) ==> t == unix_time(y, m, d, hour, minute, second),
{
    lemma_names();
    lemma_month_number(m);
    assert(s[3] == s.subrange(3, 5)[0] && s[4] == s.subrange(3, 5)[1]);
    assert(s[7] == s.subrange(7, 8)[0]);
    assert(s[11] == s.subrange(11, 12)[0]);
    assert(s[16] == s.subrange(16, 17)[0]);
    assert(s[19] == s.subrange(19, 20)[0]);
    assert(s[22] == s.subrange(22, 23)[0]);
    assert(s[25] == s.subrange(25, 29)[0] && s[26] == s.subrange(25, 29)[1]);
    assert(s[27] == s.subrange(25, 29)[2] && s[28] == s.subrange(25, 29)[3]);
    lemma_shows(s, 5, d);
    lemma_shows(s, 12, y / 100);
    lemma_shows(s, 14, y % 100);
    lemma_shows(s, 17, hour);
    lemma_shows(s, 20, minute);
    lemma_shows(s, 23, second);
    assert(is_imf_fixdate(s));
}

/// Nothing else is read as a date: what is read is in the fixed form, and
/// shows the date that is read.
pub proof fn law_only_dates_are_read(s: Seq<char>)
    requires
        imf_fixdate(s) is Some,
    ensures
        exists|y: int, m: int, d: int, hour: int, minute: int, second: int|
            {
                &&& #[trigger] shows_date(s, y, m, d, hour, minute, second)
                &&& 1970 <= y <= 9999 && 1 <= m <= 12 && 1 <= d <= 31
                &&& 0 <= hour <= 23 && 0 <= minute <= 59 && 0 <= second <= 59
                &&& imf_fixdate(s) == Some(unix_time(y, m, d, hour, minute, second))
            },
{
    lemma_names();
    let y = two_digits(s, 12) * 100 + two_digits(s, 14);
    let m = month_number(s.subrange(8, 11))->0;
    let d = two_digits(s, 5);
    let hour = two_digits(s, 17);
    let minute = two_digits(s, 20);
    let second = two_digits(s, 23);
    assert(s.subrange(3, 5) =~= ", "@);
    assert(s.subrange(7, 8) =~= " "@);
    assert(s.subrange(11, 12) =~= " "@);
    assert(s.subrange(16, 17) =~= " "@);
    assert(s.subrange(19, 20) =~= ":"@);
    assert(s.subrange(22, 23) =~= ":"@);
    assert(s.subrange(25, 29) =~= " GMT"@);
    assert(s.subrange(8, 11) == month_name(m));
    assert(two_digits(s, 12) == y / 100 && two_digits(s, 14) == y % 100);
    assert(shows_date(s, y, m, d, hour, minute, second));
}

} // verus!
