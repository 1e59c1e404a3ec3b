//! HTTP-dates in the preferred form (`Sun, 06 Nov 1994 08:49:37 GMT`), read as
//! seconds since the Unix epoch.

use vstd::prelude::*;
use crate::text::{digit_value, is_digit};

verus! {

pub open spec fn is_leap_year(y: nat) -> bool {
    (y % 4 == 0 && y % 100 != 0) || y % 400 == 0
}

/// Number of days of month `m` (1 to 12) in year `y`.
pub open spec fn days_in_month(y: nat, m: nat) -> nat {
    if m == 2 {
        if is_leap_year(y) {
            29
        } else {
            28
        }
    } else if m == 4 || m == 6 || m == 9 || m == 11 {
        30
    } else {
        31
    }
}

/// Days from 1970-01-01 to the first day of year `y` (at least 1970).
pub open spec fn days_before_year(y: nat) -> nat
    decreases y,
{
    if y <= 1970 {
        0
    } else {
        days_before_year((y - 1) as nat) + if is_leap_year((y - 1) as nat) {
            366nat
        } else {
            365nat
        }
    }
}

/// Days from the first day of year `y` to the first day of its month `m`.
pub open spec fn days_before_month(y: nat, m: nat) -> nat
    decreases m,
{
    if m <= 1 {
        0
    } else {
        days_before_month(y, (m - 1) as nat) + days_in_month(y, (m - 1) as nat)
    }
}

/// The number (1 to 12) of the month with the three-letter English name
/// `n`, or 0.
pub open spec fn month_number(n: Seq<char>) -> nat {
    if n == seq!['J', 'a', 'n'] {
        1
    } else if n == seq!['F', 'e', 'b'] {
        2
    } else if n == seq!['M', 'a', 'r'] {
        3
    } else if n == seq!['A', 'p', 'r'] {
        4
    } else if n == seq!['M', 'a', 'y'] {
        5
    } else if n == seq!['J', 'u', 'n'] {
        6
    } else if n == seq!['J', 'u', 'l'] {
        7
    } else if n == seq!['A', 'u', 'g'] {
        8
    } else if n == seq!['S', 'e', 'p'] {
        9
    } else if n == seq!['O', 'c', 't'] {
        10
    } else if n == seq!['N', 'o', 'v'] {
        11
    } else if n == seq!['D', 'e', 'c'] {
        12
    } else {
        0
    }
}

/// Whether `n` is a three-letter English weekday name.
pub open spec fn is_weekday_name(n: Seq<char>) -> bool {
    n == seq!['M', 'o', 'n'] || n == seq!['T', 'u', 'e'] || n == seq!['W', 'e', 'd'] || n
        == seq!['T', 'h', 'u'] || n == seq!['F', 'r', 'i'] || n == seq!['S', 'a', 't'] || n
        == seq!['S', 'u', 'n']
}

/// The number written by the decimal digits `s[i..j]`.
pub open spec fn number_at(s: Seq<char>, i: int, j: int) -> nat
    decreases j - i,
{
    if j <= i {
        0
    } else {
        10 * number_at(s, i, j - 1) + digit_value(s[j - 1])
    }
}

/// Every character of `s[i..j]` is a decimal digit.
pub open spec fn digits_at(s: Seq<char>, i: int, j: int) -> bool {
    forall|k: int| i <= k < j ==> is_digit(#[trigger] s[k])
}

/// Whether `n` is an English weekday name written out.
pub open spec fn long_weekday_name(n: Seq<char>) -> bool {
    n == seq!['M', 'o', 'n', 'd', 'a', 'y'] || n == seq!['T', 'u', 'e', 's', 'd', 'a', 'y'] || n
        == seq!['W', 'e', 'd', 'n', 'e', 's', 'd', 'a', 'y'] || n == seq![
        'T',
        'h',
        'u',
        'r',
        's',
        'd',
        'a',
        'y',
    ] || n == seq!['F', 'r', 'i', 'd', 'a', 'y'] || n == seq!['S', 'a', 't', 'u', 'r', 'd', 'a', 'y']
        || n == seq!['S', 'u', 'n', 'd', 'a', 'y']
}

/// A time of day `hh:mm:ss` at `s[i..i + 8]`.
pub open spec fn clock_layout(s: Seq<char>, i: int) -> bool {
    &&& 0 <= i && i + 8 <= s.len()
    &&& digits_at(s, i, i + 2) && s[i + 2] == ':' && digits_at(s, i + 3, i + 5)
    &&& s[i + 5] == ':' && digits_at(s, i + 6, i + 8)
}

/// The instant, in seconds since 1970-01-01T00:00:00Z, of a date and time of
/// day; `None` before 1970 or where a field is out of its range.
pub open spec fn instant_of(year: nat, month: nat, day: nat, hour: nat, minute: nat, second: nat) -> Option<nat> {
    if month < 1 || month > 12 || year < 1970 || day < 1 || day > days_in_month(year, month) || hour
        > 23 || minute > 59 || second > 59 {
        None
    } else {
        Some(
            (days_before_year(year) + days_before_month(year, month) + (day - 1) as nat) * 86400
                + hour * 3600 + minute * 60 + second,
        )
    }
}

/// `instant_of` the given date at the time of day written at `s[i..i + 8]`.
pub open spec fn instant_at(s: Seq<char>, i: int, year: nat, month: nat, day: nat) -> Option<nat> {
    instant_of(
        year,
        month,
        day,
        number_at(s, i, i + 2),
        number_at(s, i + 3, i + 5),
        number_at(s, i + 6, i + 8),
    )
}

/// The preferred layout `Www, DD Mmm YYYY hh:mm:ss GMT`.
pub open spec fn fixdate_layout(s: Seq<char>) -> bool {
    &&& s.len() == 29
    &&& is_weekday_name(s.subrange(0, 3))
    &&& s[3] == ',' && s[4] == ' ' && s[7] == ' ' && s[11] == ' ' && s[16] == ' '
    &&& s.subrange(25, 29) == seq![' ', 'G', 'M', 'T']
    &&& digits_at(s, 5, 7) && digits_at(s, 12, 16) && clock_layout(s, 17)
}

pub open spec fn fixdate_secs(s: Seq<char>) -> Option<nat> {
    instant_at(s, 17, number_at(s, 12, 16), month_number(s.subrange(8, 11)), number_at(s, 5, 7))
}

/// Where the date of an RFC 850 date starts: 22 characters before its end.
pub open spec fn rfc850_start(s: Seq<char>) -> int {
    s.len() - 22
}

/// The obsolete layout `Weekday, DD-Mmm-YY hh:mm:ss GMT`.
pub open spec fn rfc850_layout(s: Seq<char>) -> bool {
    let b = rfc850_start(s);
    &&& s.len() >= 30
    &&& long_weekday_name(s.subrange(0, b - 2))
    &&& s[b - 2] == ',' && s[b - 1] == ' ' && s[b + 2] == '-' && s[b + 6] == '-' && s[b + 9] == ' '
    &&& s.subrange(b + 18, s.len() as int) == seq![' ', 'G', 'M', 'T']
    &&& digits_at(s, b, b + 2) && digits_at(s, b + 7, b + 9) && clock_layout(s, b + 10)
}

/// A two-digit year: below 70 in the 2000s, else in the 1900s.
pub open spec fn full_year(yy: nat) -> nat {
    if yy < 70 {
        2000 + yy
    } else {
        1900 + yy
    }
}

pub open spec fn rfc850_secs(s: Seq<char>) -> Option<nat> {
    let b = rfc850_start(s);
    instant_at(
        s,
        b + 10,
        full_year(number_at(s, b + 7, b + 9)),
        month_number(s.subrange(b + 3, b + 6)),
        number_at(s, b, b + 2),
    )
}

/// The asctime layout `Www Mmm _D hh:mm:ss YYYY`, a one-digit day padded
/// with a space.
pub open spec fn asctime_layout(s: Seq<char>) -> bool {
    &&& s.len() == 24
    &&& is_weekday_name(s.subrange(0, 3))
    &&& s[3] == ' ' && s[7] == ' ' && s[10] == ' ' && s[19] == ' '
    &&& (s[8] == ' ' || is_digit(s[8])) && is_digit(s[9])
    &&& clock_layout(s, 11) && digits_at(s, 20, 24)
}

pub open spec fn asctime_day(s: Seq<char>) -> nat {
    if s[8] == ' ' {
        digit_value(s[9])
    } else {
        number_at(s, 8, 10)
    }
}

pub open spec fn asctime_secs(s: Seq<char>) -> Option<nat> {
    instant_at(s, 11, number_at(s, 20, 24), month_number(s.subrange(4, 7)), asctime_day(s))
}

/// The instant, in seconds since 1970-01-01T00:00:00Z, that the HTTP-date `s`
/// names, in any of its three forms: preferred, RFC 850 or asctime. `None`
/// unless `s` is laid out so and names a valid date of 1970 or later.
pub open spec fn http_date_secs(s: Seq<char>) -> Option<nat> {
    if fixdate_layout(s) {
        fixdate_secs(s)
    } else if rfc850_layout(s) {
        rfc850_secs(s)
    } else if asctime_layout(s) {
        asctime_secs(s)
    } else {
        None
    }
}

proof fn lemma_days_before_year_bound(y: nat)
    ensures
        days_before_year(y) <= 366 * y,
    decreases y,
{
    if y > 1970 {
        lemma_days_before_year_bound((y - 1) as nat);
    }
}

proof fn lemma_days_before_month_bound(y: nat, m: nat)
    ensures
        days_before_month(y, m) <= 31 * m,
    decreases m,
{
    if m > 1 {
        lemma_days_before_month_bound(y, (m - 1) as nat);
    }
}

fn leap(y: u64) -> (r: bool)
    ensures
        r == is_leap_year(y as nat),
{
    (y % 4 == 0 && y % 100 != 0) || y % 400 == 0
}

fn month_days(y: u64, m: u64) -> (r: u64)
    ensures
        r == days_in_month(y as nat, m as nat),
{
    if m == 2 {
        if leap(y) {
            29
        } else {
            28
        }
    } else if m == 4 || m == 6 || m == 9 || m == 11 {
        30
    } else {
        31
    }
}

fn number_in(v: &[char], i: usize, j: usize) -> (r: u64)
    requires
        i <= j <= v@.len(),
        j - i <= 4,
        digits_at(v@, i as int, j as int),
    ensures
        r == number_at(v@, i as int, j as int),
        r < 10000,
        j - i <= 2 ==> r < 100,
{
    let mut r: u64 = 0;
    let mut k: usize = i;
    while k < j
        invariant
            i <= k <= j <= v@.len(),
            j - i <= 4,
            digits_at(v@, i as int, j as int),
            r == number_at(v@, i as int, k as int),
            k - i == 1 ==> r < 10,
            k - i == 2 ==> r < 100,
            k - i == 3 ==> r < 1000,
            k - i == 4 ==> r < 10000,
        decreases j - k,
    {
        assert(is_digit(v@[k as int]));
        r = 10 * r + (v[k] as u64 - '0' as u64);
        k = k + 1;
    }
    r
}

fn is3(v: &[char], i: usize, a: char, b: char, c: char) -> (r: bool)
    requires
        i + 3 <= v@.len(),
    ensures
        r == (v@.subrange(i as int, i + 3) == seq![a, b, c]),
{
    let r = v[i] == a && v[i + 1] == b && v[i + 2] == c;
    if r {
        assert(v@.subrange(i as int, i + 3) =~= seq![a, b, c]);
    } else {
        proof {
            if v@.subrange(i as int, i + 3) == seq![a, b, c] {
                assert(v@.subrange(i as int, i + 3)[0] == a);
                assert(v@.subrange(i as int, i + 3)[1] == b);
                assert(v@.subrange(i as int, i + 3)[2] == c);
            }
        }
    }
    r
}

fn month_at(v: &[char], i: usize) -> (r: u64)
    requires
        i + 3 <= v@.len(),
    ensures
        r == month_number(v@.subrange(i as int, i + 3)),
{
    if is3(v, i, 'J', 'a', 'n') {
        1
    } else if is3(v, i, 'F', 'e', 'b') {
        2
    } else if is3(v, i, 'M', 'a', 'r') {
        3
    } else if is3(v, i, 'A', 'p', 'r') {
        4
    } else if is3(v, i, 'M', 'a', 'y') {
        5
    } else if is3(v, i, 'J', 'u', 'n') {
        6
    } else if is3(v, i, 'J', 'u', 'l') {
        7
    } else if is3(v, i, 'A', 'u', 'g') {
        8
    } else if is3(v, i, 'S', 'e', 'p') {
        9
    } else if is3(v, i, 'O', 'c', 't') {
        10
    } else if is3(v, i, 'N', 'o', 'v') {
        11
    } else if is3(v, i, 'D', 'e', 'c') {
        12
    } else {
        0
    }
}

fn all_digits_in(v: &[char], i: usize, j: usize) -> (r: bool)
    requires
        i <= j <= v@.len(),
    ensures
        r == digits_at(v@, i as int, j as int),
{
    let mut k: usize = i;
    while k < j
        invariant
            i <= k <= j <= v@.len(),
            digits_at(v@, i as int, k as int),
        decreases j - k,
    {
        if !('0' <= v[k] && v[k] <= '9') {
            return false;
        }
        k = k + 1;
    }
    true
}

/// Whether `v[i..j]` holds exactly the characters of `w`.
fn chars_equal(v: &[char], i: usize, j: usize, w: &[char]) -> (r: bool)
    requires
        i <= j <= v@.len(),
    ensures
        r == (v@.subrange(i as int, j as int) == w@),
{
    if j - i != w.len() {
        return false;
    }
    let mut k: usize = 0;
    while k < w.len()
        invariant
            i <= j <= v@.len(),
            j - i == w@.len(),
            k <= w@.len(),
            forall|m: int| 0 <= m < k ==> v@[i + m] == w@[m],
        decreases w@.len() - k,
    {
        if v[i + k] != w[k] {
            assert(v@.subrange(i as int, j as int)[k as int] != w@[k as int]);
            return false;
        }
        k = k + 1;
    }
    assert(v@.subrange(i as int, j as int) =~= w@);
    true
}

fn weekday_at(v: &[char], i: usize) -> (r: bool)
    requires
        i + 3 <= v@.len(),
    ensures
        r == is_weekday_name(v@.subrange(i as int, i + 3)),
{
    is3(v, i, 'M', 'o', 'n') || is3(v, i, 'T', 'u', 'e') || is3(v, i, 'W', 'e', 'd') || is3(
        v,
        i,
        'T',
        'h',
        'u',
    ) || is3(v, i, 'F', 'r', 'i') || is3(v, i, 'S', 'a', 't') || is3(v, i, 'S', 'u', 'n')
}

fn long_weekday_in(v: &[char], i: usize, j: usize) -> (r: bool)
    requires
        i <= j <= v@.len(),
    ensures
        r == long_weekday_name(v@.subrange(i as int, j as int)),
{
    chars_equal(v, i, j, vec!['M', 'o', 'n', 'd', 'a', 'y'].as_slice()) || chars_equal(
        v,
        i,
        j,
        vec!['T', 'u', 'e', 's', 'd', 'a', 'y'].as_slice(),
    ) || chars_equal(v, i, j, vec!['W', 'e', 'd', 'n', 'e', 's', 'd', 'a', 'y'].as_slice())
        || chars_equal(v, i, j, vec!['T', 'h', 'u', 'r', 's', 'd', 'a', 'y'].as_slice())
        || chars_equal(v, i, j, vec!['F', 'r', 'i', 'd', 'a', 'y'].as_slice()) || chars_equal(
        v,
        i,
        j,
        vec!['S', 'a', 't', 'u', 'r', 'd', 'a', 'y'].as_slice(),
    ) || chars_equal(v, i, j, vec!['S', 'u', 'n', 'd', 'a', 'y'].as_slice())
}

/// Whether `v[i..]` ends with ` GMT` right at the end.
fn gmt_at(v: &[char], i: usize) -> (r: bool)
    requires
        i <= v@.len(),
    ensures
        r == (v@.subrange(i as int, v@.len() as int) == seq![' ', 'G', 'M', 'T']),
{
    chars_equal(v, i, v.len(), vec![' ', 'G', 'M', 'T'].as_slice())
}

/// The time of day `hh:mm:ss` at `v[i..i + 8]`, if laid out so.
fn clock_in(v: &[char], i: usize) -> (r: Option<(u64, u64, u64)>)
    requires
        i + 8 <= v@.len(),
    ensures
        r is Some <==> clock_layout(v@, i as int),
        r matches Some((h, m, s)) ==> h == number_at(v@, i as int, i + 2) && m == number_at(
            v@,
            i + 3,
            i + 5,
        ) && s == number_at(v@, i + 6, i + 8) && h < 100 && m < 100 && s < 100,
{
    let n: usize = v.len();
    assert(i + 8 <= n);
    if !(all_digits_in(v, i, i + 2) && v[i + 2] == ':' && all_digits_in(v, i + 3, i + 5) && v[i
        + 5] == ':' && all_digits_in(v, i + 6, i + 8)) {
        return None;
    }
    let h = number_in(v, i, i + 2);
    let m = number_in(v, i + 3, i + 5);
    let s = number_in(v, i + 6, i + 8);
    Some((h, m, s))
}

/// `instant_of` the fields, which fit in `u64`.
fn instant(year: u64, month: u64, day: u64, hour: u64, minute: u64, second: u64) -> (r: Option<u64>)
    requires
        year < 10000,
        day < 100,
        hour < 100,
        minute < 100,
        second < 100,
    ensures
        match instant_of(
            year as nat,
            month as nat,
            day as nat,
            hour as nat,
            minute as nat,
            second as nat,
        ) {
            Some(t) => r == Some(t as u64) && t <= u64::MAX,
            None => r is None,
        },
{
    if month < 1 || month > 12 || year < 1970 || day < 1 || day > month_days(year, month) || hour
        > 23 || minute > 59 || second > 59 {
        return None;
    }
    let mut days: u64 = 0;
    let mut y: u64 = 1970;
    while y < year
        invariant
            1970 <= y <= year < 10000,
            days == days_before_year(y as nat),
        decreases year - y,
    {
        proof {
            lemma_days_before_year_bound(y as nat);
        }
        days = days + if leap(y) {
            366
        } else {
            365
        };
        y = y + 1;
    }
    let mut m: u64 = 1;
    let mut mdays: u64 = 0;
    while m < month
        invariant
            1 <= m <= month <= 12,
            mdays == days_before_month(year as nat, m as nat),
        decreases month - m,
    {
        proof {
            lemma_days_before_month_bound(year as nat, m as nat);
        }
        mdays = mdays + month_days(year, m);
        m = m + 1;
    }
    proof {
        lemma_days_before_year_bound(year as nat);
        lemma_days_before_month_bound(year as nat, month as nat);
    }
    let total_days = days + mdays + (day - 1);
    assert(total_days <= 3700000);
    Some(total_days * 86400 + hour * 3600 + minute * 60 + second)
}

/// `None` unless `v` has this layout; then the instant it names, if valid.
fn fixdate(v: &[char]) -> (r: Option<Option<u64>>)
    ensures
        r is Some <==> fixdate_layout(v@),
        r matches Some(x) ==> match fixdate_secs(v@) {
            Some(t) => x == Some(t as u64) && t <= u64::MAX,
            None => x is None,
        },
{
    if v.len() != 29 || !(weekday_at(v, 0) && v[3] == ',' && v[4] == ' ' && v[7] == ' ' && v[11]
        == ' ' && v[16] == ' ' && gmt_at(v, 25) && all_digits_in(v, 5, 7) && all_digits_in(
        v,
        12,
        16,
    )) {
        return None;
    }
    let (h, mi, sec) = match clock_in(v, 17) {
        Some(c) => c,
        None => return None,
    };
    Some(instant(number_in(v, 12, 16), month_at(v, 8), number_in(v, 5, 7), h, mi, sec))
}

/// `None` unless `v` has this layout; then the instant it names, if valid.
fn rfc850(v: &[char]) -> (r: Option<Option<u64>>)
    ensures
        r is Some <==> rfc850_layout(v@),
        r matches Some(x) ==> match rfc850_secs(v@) {
            Some(t) => x == Some(t as u64) && t <= u64::MAX,
            None => x is None,
        },
{
    if v.len() < 30 {
        return None;
    }
    let b = v.len() - 22;
    assert(b == rfc850_start(v@));
    if !(long_weekday_in(v, 0, b - 2) && v[b - 2] == ',' && v[b - 1] == ' ' && v[b + 2] == '-'
        && v[b + 6] == '-' && v[b + 9] == ' ' && gmt_at(v, b + 18) && all_digits_in(v, b, b + 2)
        && all_digits_in(v, b + 7, b + 9)) {
        return None;
    }
    let (h, mi, sec) = match clock_in(v, b + 10) {
        Some(c) => c,
        None => return None,
    };
    let yy = number_in(v, b + 7, b + 9);
    let year = if yy < 70 {
        2000 + yy
    } else {
        1900 + yy
    };
    Some(instant(year, month_at(v, b + 3), number_in(v, b, b + 2), h, mi, sec))
}

/// `None` unless `v` has this layout; then the instant it names, if valid.
fn asctime(v: &[char]) -> (r: Option<Option<u64>>)
    ensures
        r is Some <==> asctime_layout(v@),
        r matches Some(x) ==> match asctime_secs(v@) {
            Some(t) => x == Some(t as u64) && t <= u64::MAX,
            None => x is None,
        },
{
    if v.len() != 24 || !(weekday_at(v, 0) && v[3] == ' ' && v[7] == ' ' && v[10] == ' ' && v[19]
        == ' ' && (v[8] == ' ' || ('0' <= v[8] && v[8] <= '9')) && '0' <= v[9] && v[9] <= '9'
        && all_digits_in(v, 20, 24)) {
        return None;
    }
    let (h, mi, sec) = match clock_in(v, 11) {
        Some(c) => c,
        None => return None,
    };
    let day = if v[8] == ' ' {
        v[9] as u64 - '0' as u64
    } else {
        assert(digits_at(v@, 8, 10));
        number_in(v, 8, 10)
    };
    Some(instant(number_in(v, 20, 24), month_at(v, 4), day, h, mi, sec))
}

/// Reads the HTTP-date in `v`, in any of its three forms.
pub fn parse_http_date(v: &[char]) -> (r: Option<u64>)
    ensures
        match http_date_secs(v@) {
            Some(t) => r == Some(t as u64) && t <= u64::MAX,
            None => r is None,
        },
{
    if let Some(x) = fixdate(v) {
        return x;
    }
    if let Some(x) = rfc850(v) {
        return x;
    }
    match asctime(v) {
        Some(x) => x,
        None => None,
    }
}

} // verus!
