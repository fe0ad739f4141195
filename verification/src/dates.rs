//! The cookie `expires` date: `Wdy, DD-Mon-YYYY HH:MM:SS GMT`, with the
//! weekday written either short (`Tue`) or in full (`Tuesday`), turned into
//! seconds since the Unix epoch.

use vstd::prelude::*;

use crate::strutil::{first_index_of, is_digit, digit_val, find_char, subvec};

verus! {

pub open spec fn is_leap_year(y: int) -> bool {
    y % 4 == 0 && (y % 100 != 0 || y % 400 == 0)
}

pub open spec fn days_in_month(y: int, m: int) -> int {
    if m == 2 {
        if is_leap_year(y) {
            29
        } else {
            28
        }
    } else if m == 4 || m == 6 || m == 9 || m == 11 {
        30
    } else {
        31
    }
}

/// Days from 1970-01-01 to the first day of year `y`.
pub open spec fn days_before_year(y: int) -> int
    decreases y - 1970,
{
    if y <= 1970 {
        0
    } else {
        days_before_year(y - 1) + if is_leap_year(y - 1) {
            366int
        } else {
            365int
        }
    }
}

/// Days from the first day of year `y` to the first day of its month `m`.
pub open spec fn days_before_month(y: int, m: int) -> int
    decreases m,
{
    if m <= 1 {
        0
    } else {
        days_before_month(y, m - 1) + days_in_month(y, m - 1)
    }
}

/// Seconds since the Unix epoch of a calendar date and time of day.
pub open spec fn epoch_seconds(y: int, m: int, d: int, hh: int, mm: int, ss: int) -> int {
    (days_before_year(y) + days_before_month(y, m) + d - 1) * 86400 + hh * 3600 + mm * 60 + ss
}

/// A calendar date and time of day in the supported range.
pub open spec fn valid_date(y: int, m: int, d: int, hh: int, mm: int, ss: int) -> bool {
    &&& 1970 <= y <= 9999
    &&& 1 <= m <= 12
    &&& 1 <= d <= days_in_month(y, m)
    &&& 0 <= hh < 24
    &&& 0 <= mm < 60
    &&& 0 <= ss < 60
}

/// A short or full English weekday name.
pub open spec fn weekday_name(s: Seq<char>) -> bool {
    ||| (s.len() == 3 && s[0] == 'M' && s[1] == 'o' && s[2] == 'n')
    ||| (s.len() == 3 && s[0] == 'T' && s[1] == 'u' && s[2] == 'e')
    ||| (s.len() == 3 && s[0] == 'W' && s[1] == 'e' && s[2] == 'd')
    ||| (s.len() == 3 && s[0] == 'T' && s[1] == 'h' && s[2] == 'u')
    ||| (s.len() == 3 && s[0] == 'F' && s[1] == 'r' && s[2] == 'i')
    ||| (s.len() == 3 && s[0] == 'S' && s[1] == 'a' && s[2] == 't')
    ||| (s.len() == 3 && s[0] == 'S' && s[1] == 'u' && s[2] == 'n')
    ||| (s.len() == 6 && s[0] == 'M' && s[1] == 'o' && s[2] == 'n' && s[3] == 'd' && s[4] == 'a'
        && s[5] == 'y')
    ||| (s.len() == 7 && s[0] == 'T' && s[1] == 'u' && s[2] == 'e' && s[3] == 's' && s[4] == 'd'
        && s[5] == 'a' && s[6] == 'y')
    ||| (s.len() == 9 && s[0] == 'W' && s[1] == 'e' && s[2] == 'd' && s[3] == 'n' && s[4] == 'e'
        && s[5] == 's' && s[6] == 'd' && s[7] == 'a' && s[8] == 'y')
    ||| (s.len() == 8 && s[0] == 'T' && s[1] == 'h' && s[2] == 'u' && s[3] == 'r' && s[4] == 's'
        && s[5] == 'd' && s[6] == 'a' && s[7] == 'y')
    ||| (s.len() == 6 && s[0] == 'F' && s[1] == 'r' && s[2] == 'i' && s[3] == 'd' && s[4] == 'a'
        && s[5] == 'y')
    ||| (s.len() == 8 && s[0] == 'S' && s[1] == 'a' && s[2] == 't' && s[3] == 'u' && s[4] == 'r'
        && s[5] == 'd' && s[6] == 'a' && s[7] == 'y')
    ||| (s.len() == 6 && s[0] == 'S' && s[1] == 'u' && s[2] == 'n' && s[3] == 'd' && s[4] == 'a'
        && s[5] == 'y')
}

/// The month a short English month name denotes, or 0.
pub open spec fn month_number(s: Seq<char>) -> int {
    if s.len() != 3 {
        0
    } else if s[0] == 'J' && s[1] == 'a' && s[2] == 'n' {
        1
    } else if s[0] == 'F' && s[1] == 'e' && s[2] == 'b' {
        2
    } else if s[0] == 'M' && s[1] == 'a' && s[2] == 'r' {
        3
    } else if s[0] == 'A' && s[1] == 'p' && s[2] == 'r' {
        4
    } else if s[0] == 'M' && s[1] == 'a' && s[2] == 'y' {
        5
    } else if s[0] == 'J' && s[1] == 'u' && s[2] == 'n' {
        6
    } else if s[0] == 'J' && s[1] == 'u' && s[2] == 'l' {
        7
    } else if s[0] == 'A' && s[1] == 'u' && s[2] == 'g' {
        8
    } else if s[0] == 'S' && s[1] == 'e' && s[2] == 'p' {
        9
    } else if s[0] == 'O' && s[1] == 'c' && s[2] == 't' {
        10
    } else if s[0] == 'N' && s[1] == 'o' && s[2] == 'v' {
        11
    } else if s[0] == 'D' && s[1] == 'e' && s[2] == 'c' {
        12
    } else {
        0
    }
}

pub open spec fn two_digits(s: Seq<char>, at: int) -> Option<int> {
    if is_digit(s[at]) && is_digit(s[at + 1]) {
        Some(10 * digit_val(s[at]) + digit_val(s[at + 1]))
    } else {
        None
    }
}

pub open spec fn four_digits(s: Seq<char>, at: int) -> Option<int> {
    if is_digit(s[at]) && is_digit(s[at + 1]) && is_digit(s[at + 2]) && is_digit(s[at + 3]) {
        Some(
            1000 * digit_val(s[at]) + 100 * digit_val(s[at + 1]) + 10 * digit_val(s[at + 2])
                + digit_val(s[at + 3]),
        )
    } else {
        None
    }
}

/// What the date string denotes: the epoch seconds of
/// `Wdy, DD-Mon-YYYY HH:MM:SS GMT` when the weekday name is valid and the
/// date is a valid calendar date between 1970 and 9999; nothing otherwise.
pub open spec fn spec_parse_http_date(s: Seq<char>) -> Option<u64> {
    let ci = first_index_of(s, ',');
    if ci >= s.len() {
        None
    } else {
        let wd = s.take(ci);
        let rest = s.skip(ci + 1);
        if !weekday_name(wd) || rest.len() != 25 {
            None
        } else if !(rest[0] == ' ' && rest[3] == '-' && rest[7] == '-' && rest[12] == ' '
            && rest[15] == ':' && rest[18] == ':' && rest[21] == ' ' && rest[22] == 'G' && rest[23]
            == 'M' && rest[24] == 'T') {
            None
        } else {
            let day = two_digits(rest, 1);
            let mon = month_number(rest.subrange(4, 7));
            let year = four_digits(rest, 8);
            let hh = two_digits(rest, 13);
            let mm = two_digits(rest, 16);
            let ss = two_digits(rest, 19);
            if day is Some && mon != 0 && year is Some && hh is Some && mm is Some && ss is Some
                && valid_date(
                year->Some_0,
                mon,
                day->Some_0,
                hh->Some_0,
                mm->Some_0,
                ss->Some_0,
            ) {
                Some(
                    epoch_seconds(
                        year->Some_0,
                        mon,
                        day->Some_0,
                        hh->Some_0,
                        mm->Some_0,
                        ss->Some_0,
                    ) as u64,
                )
            } else {
                None
            }
        }
    }
}

/// Each year adds at most 366 days.
proof fn lemma_days_before_year_bound(y: int)
    requires
        1970 <= y <= 10000,
    ensures
        0 <= days_before_year(y) <= (y - 1970) * 366,
    decreases y - 1970,
{
    if y > 1970 {
        lemma_days_before_year_bound(y - 1);
    }
}

/// Each month adds at most 31 days.
proof fn lemma_days_before_month_bound(y: int, m: int)
    requires
        1 <= m <= 13,
    ensures
        0 <= days_before_month(y, m) <= (m - 1) * 31,
    decreases m,
{
    if m > 1 {
        lemma_days_before_month_bound(y, m - 1);
    }
}

fn days_before_year_exec(y: u64) -> (r: u64)
    requires
        1970 <= y <= 9999,
    ensures
        r == days_before_year(y as int),
        r <= (y - 1970) * 366,
{
    proof {
        lemma_days_before_year_bound(y as int);
    }
    let mut x: u64 = 1970;
    let mut acc: u64 = 0;
    while x < y
        invariant
            1970 <= x <= y <= 9999,
            acc == days_before_year(x as int),
            acc <= (x - 1970) * 366,
        decreases y - x,
    {
        proof {
            lemma_days_before_year_bound(x as int);
        }
        let leap = x % 4 == 0 && (x % 100 != 0 || x % 400 == 0);
        if leap {
            acc = acc + 366;
        } else {
            acc = acc + 365;
        }
        x = x + 1;
    }
    acc
}

fn days_in_month_exec(y: u64, m: u64) -> (r: u64)
    requires
        1970 <= y <= 9999,
    ensures
        r == days_in_month(y as int, m as int),
        28 <= r <= 31,
{
    if m == 2 {
        if y % 4 == 0 && (y % 100 != 0 || y % 400 == 0) {
            29
        } else {
            28
        }
    } else if m == 4 || m == 6 || m == 9 || m == 11 {
        30
    } else {
        31
    }
}

fn days_before_month_exec(y: u64, m: u64) -> (r: u64)
    requires
        1970 <= y <= 9999,
        1 <= m <= 12,
    ensures
        r == days_before_month(y as int, m as int),
        r <= 366,
{
    proof {
        lemma_days_before_month_bound(y as int, m as int);
    }
    let mut x: u64 = 1;
    let mut acc: u64 = 0;
    while x < m
        invariant
            1970 <= y <= 9999,
            1 <= x <= m <= 12,
            acc == days_before_month(y as int, x as int),
            acc <= (x - 1) * 31,
        decreases m - x,
    {
        proof {
            lemma_days_before_month_bound(y as int, x as int);
        }
        acc = acc + days_in_month_exec(y, x);
        x = x + 1;
    }
    acc
}

/// The epoch seconds of a valid calendar date and time of day.
pub fn epoch_seconds_exec(y: u64, m: u64, d: u64, hh: u64, mm: u64, ss: u64) -> (r: u64)
    requires
        valid_date(y as int, m as int, d as int, hh as int, mm as int, ss as int),
    ensures
        r == epoch_seconds(y as int, m as int, d as int, hh as int, mm as int, ss as int),
{
    proof {
        lemma_days_before_year_bound(y as int);
        lemma_days_before_month_bound(y as int, m as int);
    }
    let days = days_before_year_exec(y) + days_before_month_exec(y, m) + (d - 1);
    days * 86400 + hh * 3600 + mm * 60 + ss
}

fn two_digits_exec(v: &Vec<char>, at: usize) -> (r: Option<u64>)
    requires
        at + 2 <= v@.len(),
    ensures
        match r {
            Some(n) => two_digits(v@, at as int) == Some(n as int) && n < 100,
            None => two_digits(v@, at as int) is None,
        },
{
    let n = v.len();
    proof {
        assert(at + 2 <= n);
    }
    let a = v[at];
    let b = v[at + 1];
    if '0' <= a && a <= '9' && '0' <= b && b <= '9' {
        Some(10 * ((a as u8 - 48) as u64) + ((b as u8 - 48) as u64))
    } else {
        None
    }
}

fn four_digits_exec(v: &Vec<char>, at: usize) -> (r: Option<u64>)
    requires
        at + 4 <= v@.len(),
    ensures
        match r {
            Some(n) => four_digits(v@, at as int) == Some(n as int) && n < 10000,
            None => four_digits(v@, at as int) is None,
        },
{
    let n = v.len();
    proof {
        assert(at + 4 <= n);
    }
    let a = v[at];
    let b = v[at + 1];
    let c = v[at + 2];
    let d = v[at + 3];
    if '0' <= a && a <= '9' && '0' <= b && b <= '9' && '0' <= c && c <= '9' && '0' <= d && d <= '9' {
        Some(
            1000 * ((a as u8 - 48) as u64) + 100 * ((b as u8 - 48) as u64) + 10 * ((c as u8
                - 48) as u64) + ((d as u8 - 48) as u64),
        )
    } else {
        None
    }
}

fn weekday_name_exec(v: &Vec<char>) -> (r: bool)
    ensures
        r == weekday_name(v@),
{
    if v.len() == 3 {
        let a = v[0];
        let b = v[1];
        let c = v[2];
        (a == 'M' && b == 'o' && c == 'n') || (a == 'T' && b == 'u' && c == 'e') || (a == 'W' && b
            == 'e' && c == 'd') || (a == 'T' && b == 'h' && c == 'u') || (a == 'F' && b == 'r' && c
            == 'i') || (a == 'S' && b == 'a' && c == 't') || (a == 'S' && b == 'u' && c == 'n')
    } else if v.len() == 6 {
        let a = v[0];
        let b = v[1];
        let c = v[2];
        let d = v[3];
        let e = v[4];
        let f = v[5];
        (a == 'M' && b == 'o' && c == 'n' && d == 'd' && e == 'a' && f == 'y') || (a == 'F' && b
            == 'r' && c == 'i' && d == 'd' && e == 'a' && f == 'y') || (a == 'S' && b == 'u' && c
            == 'n' && d == 'd' && e == 'a' && f == 'y')
    } else if v.len() == 7 {
        v[0] == 'T' && v[1] == 'u' && v[2] == 'e' && v[3] == 's' && v[4] == 'd' && v[5] == 'a'
            && v[6] == 'y'
    } else if v.len() == 8 {
        (v[0] == 'T' && v[1] == 'h' && v[2] == 'u' && v[3] == 'r' && v[4] == 's' && v[5] == 'd'
            && v[6] == 'a' && v[7] == 'y') || (v[0] == 'S' && v[1] == 'a' && v[2] == 't' && v[3]
            == 'u' && v[4] == 'r' && v[5] == 'd' && v[6] == 'a' && v[7] == 'y')
    } else if v.len() == 9 {
        v[0] == 'W' && v[1] == 'e' && v[2] == 'd' && v[3] == 'n' && v[4] == 'e' && v[5] == 's'
            && v[6] == 'd' && v[7] == 'a' && v[8] == 'y'
    } else {
        false
    }
}

fn month_number_exec(v: &Vec<char>) -> (r: u64)
    ensures
        r == month_number(v@),
        r <= 12,
{
    if v.len() != 3 {
        return 0;
    }
    let a = v[0];
    let b = v[1];
    let c = v[2];
    if a == 'J' && b == 'a' && c == 'n' {
        1
    } else if a == 'F' && b == 'e' && c == 'b' {
        2
    } else if a == 'M' && b == 'a' && c == 'r' {
        3
    } else if a == 'A' && b == 'p' && c == 'r' {
        4
    } else if a == 'M' && b == 'a' && c == 'y' {
        5
    } else if a == 'J' && b == 'u' && c == 'n' {
        6
    } else if a == 'J' && b == 'u' && c == 'l' {
        7
    } else if a == 'A' && b == 'u' && c == 'g' {
        8
    } else if a == 'S' && b == 'e' && c == 'p' {
        9
    } else if a == 'O' && b == 'c' && c == 't' {
        10
    } else if a == 'N' && b == 'o' && c == 'v' {
        11
    } else if a == 'D' && b == 'e' && c == 'c' {
        12
    } else {
        0
    }
}

/// Parses a cookie `expires` date; `None` on anything that is not a valid
/// date in either accepted form.
pub fn parse_http_date(v: &Vec<char>) -> (r: Option<u64>)
    ensures
        r == spec_parse_http_date(v@),
{
    let ci = find_char(v, ',');
    if ci >= v.len() {
        return None;
    }
    let wd = subvec(v, 0, ci);
    let rest = subvec(v, ci + 1, v.len());
    proof {
        assert(wd@ =~= v@.take(ci as int));
        assert(rest@ =~= v@.skip(ci + 1));
    }
    if !weekday_name_exec(&wd) {
        return None;
    }
    if rest.len() != 25 {
        return None;
    }
    if !(rest[0] == ' ' && rest[3] == '-' && rest[7] == '-' && rest[12] == ' ' && rest[15] == ':'
        && rest[18] == ':' && rest[21] == ' ' && rest[22] == 'G' && rest[23] == 'M' && rest[24]
        == 'T') {
        return None;
    }
    let day = two_digits_exec(&rest, 1);
    let mon_chars = subvec(&rest, 4, 7);
    proof {
        assert(mon_chars@ =~= rest@.subrange(4, 7));
    }
    let mon = month_number_exec(&mon_chars);
    let year = four_digits_exec(&rest, 8);
    let hh = two_digits_exec(&rest, 13);
    let mm = two_digits_exec(&rest, 16);
    let ss = two_digits_exec(&rest, 19);
    match (day, year, hh, mm, ss) {
        (Some(d), Some(y), Some(h), Some(mi), Some(s)) => {
            if mon != 0 && 1970 <= y && y <= 9999 && 1 <= d && d <= days_in_month_exec(y, mon) && h
                < 24 && mi < 60 && s < 60 {
                Some(epoch_seconds_exec(y, mon, d, h, mi, s))
            } else {
                None
            }
        },
        _ => None,
    }
}

} // verus!
