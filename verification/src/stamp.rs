//! Time stamps: calendar dates, and identifiers that sort by the time they
//! were made.

use vstd::prelude::*;
use crate::text::{chars_of, push_decimal};
#[allow(unused_imports)]
use crate::text::{decimal, precedes};

verus! {

// The calendar.

pub open spec fn leap(year: int) -> bool {
    (year % 4 == 0 && year % 100 != 0) || year % 400 == 0
}

pub open spec fn year_days(year: int) -> nat {
    if leap(year) {
        366
    } else {
        365
    }
}

/// Days from the beginning of 1970 to the beginning of a year.
pub open spec fn year_start(year: nat) -> nat
    decreases year,
{
    if year <= 1970 {
        0
    } else {
        year_start((year - 1) as nat) + year_days(year - 1)
    }
}

pub open spec fn month_days(year: int, month: int) -> nat {
    if month == 2 {
        if leap(year) {
            29
        } else {
            28
        }
    } else if month == 4 || month == 6 || month == 9 || month == 11 {
        30
    } else {
        31
    }
}

/// Days from the beginning of a year to the beginning of a month.
pub open spec fn month_start(year: int, month: nat) -> nat
    decreases month,
{
    if month <= 1 {
        0
    } else {
        month_start(year, (month - 1) as nat) + month_days(year, month - 1)
    }
}

pub open spec fn valid_date(year: int, month: int, day: int) -> bool {
    1970 <= year && 1 <= month <= 12 && 1 <= day <= month_days(year, month)
}

/// Days from the beginning of 1970 to a date.
pub open spec fn day_number(year: int, month: int, day: int) -> int {
    year_start(year as nat) + month_start(year, month as nat) + day - 1
}

/// The days of a second's date, as a 32-bit number.
pub open spec fn days_of(secs: u64) -> nat {
    (secs as nat / 86400) % 0x1_0000_0000
}

fn is_leap(year: u32) -> (r: bool)
    ensures
        r == leap(year as int),
{
    (year % 4 == 0 && year % 100 != 0) || year % 400 == 0
}

fn days_in_month(year: u32, month: u32) -> (r: u32)
    ensures
        r == month_days(year as int, month as int),
{
    if month == 2 {
        if is_leap(year) {
            29
        } else {
            28
        }
    } else if month == 4 || month == 6 || month == 9 || month == 11 {
        30
    } else {
        31
    }
}

proof fn year_holds_its_months(year: int)
    ensures
        month_start(year, 13) == year_days(year),
{
    reveal_with_fuel(month_start, 14);
}

fn date_of(days: u32) -> (r: (u32, u32, u32))
    ensures
        valid_date(r.0 as int, r.1 as int, r.2 as int),
        day_number(r.0 as int, r.1 as int, r.2 as int) == days,
{
    let mut year: u32 = 1970;
    let mut day: u32 = days;
    let mut span: u32 = 365;
    while day >= span
        invariant
            1970 <= year,
            year_start(year as nat) + day == days,
            365 * (year - 1970) + day <= days,
            span == year_days(year as int),
        decreases day,
    {
        day = day - span;
        year = year + 1;
        span = if is_leap(year) {
            366
        } else {
            365
        };
    }
    let mut month: u32 = 1;
    let ghost day_of_year = day;
    proof {
        year_holds_its_months(year as int);
    }
    let mut length: u32 = 31;
    while day >= length
        invariant
            1 <= month <= 12,
            day_of_year < year_days(year as int),
            month_start(year as int, 13) == year_days(year as int),
            month_start(year as int, month as nat) + day == day_of_year,
            length == month_days(year as int, month as int),
        decreases day,
    {
        day = day - length;
        month = month + 1;
        length = days_in_month(year, month);
    }
    (year, month, day + 1)
}

/// Seconds since midnight.
pub open spec fn time_of_day(secs: u64) -> nat {
    secs as nat % 86400
}

/// The date and time of day of a second since the beginning of 1970.
pub fn unix_to_utc(secs: u64) -> (r: (u32, u32, u32, u32, u32, u32))
    ensures
        valid_date(r.0 as int, r.1 as int, r.2 as int),
        day_number(r.0 as int, r.1 as int, r.2 as int) == days_of(secs),
        r.3 == time_of_day(secs) / 3600,
        r.4 == time_of_day(secs) % 3600 / 60,
        r.5 == time_of_day(secs) % 60,
{
    let days: u32 = ((secs / 86400) % 0x1_0000_0000) as u32;
    let rem: u32 = (secs % 86400) as u32;
    let (year, month, day) = date_of(days);
    (year, month, day, rem / 3600, (rem % 3600) / 60, rem % 60)
}

/// A number in at least `width` digits.
pub open spec fn padded(n: nat, width: nat) -> Seq<char> {
    let d = decimal(n);
    if d.len() >= width {
        d
    } else {
        Seq::new((width - d.len()) as nat, |i: int| '0') + d
    }
}

proof fn decimal_len(n: nat)
    ensures
        decimal(n).len() >= 1,
        n < 10 ==> decimal(n).len() == 1,
        10 <= n < 100 ==> decimal(n).len() == 2,
        100 <= n < 1000 ==> decimal(n).len() == 3,
        n >= 1000 ==> decimal(n).len() >= 4,
        1000 <= n < 10000 ==> decimal(n).len() == 4,
{
    reveal_with_fuel(decimal, 5);
}

fn push_two(s: &mut String, n: u32)
    ensures
        final(s)@ == old(s)@ + padded(n as nat, 2),
{
    proof {
        decimal_len(n as nat);
    }
    if n < 10 {
        s.push('0');
        push_decimal(s, n as u64);
        assert(Seq::new(1, |i: int| '0') =~= seq!['0']);
        assert(s@ =~= old(s)@ + padded(n as nat, 2));
    } else {
        push_decimal(s, n as u64);
    }
}

fn push_four(s: &mut String, n: u32)
    requires
        n >= 1000,
    ensures
        final(s)@ == old(s)@ + padded(n as nat, 4),
{
    proof {
        decimal_len(n as nat);
    }
    push_decimal(s, n as u64);
}

/// A date and a time of day as text.
pub open spec fn stamp_text(
    year: nat,
    month: nat,
    day: nat,
    hour: nat,
    min: nat,
    sec: nat,
) -> Seq<char> {
    padded(year, 4) + "-"@ + padded(month, 2) + "-"@ + padded(day, 2) + "T"@ + padded(hour, 2)
        + ":"@ + padded(min, 2) + ":"@ + padded(sec, 2) + "Z"@
}

/// A text is the stamp of a second.
pub open spec fn stamps(s: Seq<char>, secs: u64) -> bool {
    exists|year: nat, month: nat, day: nat|
        valid_date(year as int, month as int, day as int) && day_number(
            year as int,
            month as int,
            day as int,
        ) == days_of(secs) && s == #[trigger] stamp_text(
            year,
            month,
            day,
            time_of_day(secs) / 3600,
            time_of_day(secs) % 3600 / 60,
            time_of_day(secs) % 60,
        )
}

/// The stamp of a second since the beginning of 1970.
pub fn rfc3339(secs: u64) -> (r: String)
    ensures
        stamps(r@, secs),
{
    let (year, month, day, hour, min, sec) = unix_to_utc(secs);
    let mut s = String::new();
    push_four(&mut s, year);
    s.append("-");
    push_two(&mut s, month);
    s.append("-");
    push_two(&mut s, day);
    s.append("T");
    push_two(&mut s, hour);
    s.append(":");
    push_two(&mut s, min);
    s.append(":");
    push_two(&mut s, sec);
    s.append("Z");
    assert(s@ =~= stamp_text(
        year as nat,
        month as nat,
        day as nat,
        time_of_day(secs) / 3600,
        time_of_day(secs) % 3600 / 60,
        time_of_day(secs) % 60,
    ));
    s
}

// Laws of the calendar.

proof fn years_follow(a: nat, b: nat)
    requires
        1970 <= a < b,
    ensures
        year_start(a) + year_days(a as int) <= year_start(b),
    decreases b,
{
    if a + 1 < b {
        years_follow(a, (b - 1) as nat);
    }
}

proof fn months_follow(year: int, a: nat, b: nat)
    requires
        1 <= a < b <= 13,
    ensures
        month_start(year, a) + month_days(year, a as int) <= month_start(year, b),
    decreases b,
{
    if a + 1 < b {
        months_follow(year, a, (b - 1) as nat);
    }
}

proof fn date_within_year(y: int, m: int, d: int)
    requires
        valid_date(y, m, d),
    ensures
        year_start(y as nat) <= day_number(y, m, d) < year_start(y as nat) + year_days(y),
{
    months_follow(y, m as nat, 13);
    year_holds_its_months(y);
}

/// A day has one date.
pub proof fn date_is_unique(y1: int, m1: int, d1: int, y2: int, m2: int, d2: int)
    requires
        valid_date(y1, m1, d1),
        valid_date(y2, m2, d2),
        day_number(y1, m1, d1) == day_number(y2, m2, d2),
    ensures
        y1 == y2 && m1 == m2 && d1 == d2,
{
    date_within_year(y1, m1, d1);
    date_within_year(y2, m2, d2);
    if y1 < y2 {
        years_follow(y1 as nat, y2 as nat);
    } else if y2 < y1 {
        years_follow(y2 as nat, y1 as nat);
    } else if m1 < m2 {
        months_follow(y1, m1 as nat, m2 as nat);
    } else if m2 < m1 {
        months_follow(y1, m2 as nat, m1 as nat);
    }
}

// Identifiers.

pub const CROCKFORD: [char; 32] = [
    '0', '1', '2', '3', '4', '5', '6', '7', '8', '9', 'A', 'B', 'C', 'D', 'E', 'F', 'G', 'H', 'J',
    'K', 'M', 'N', 'P', 'Q', 'R', 'S', 'T', 'V', 'W', 'X', 'Y', 'Z',
];

/// The last `n` base-32 digits of a number.
pub open spec fn base32(v: nat, n: nat) -> Seq<char>
    decreases n,
{
    if n == 0 {
        Seq::empty()
    } else {
        base32(v / 32, (n - 1) as nat).push(CROCKFORD@[(v % 32) as int])
    }
}

/// The digits of a 128-bit value: 26 of them, of the value's lower 126 bits
/// with two bits added behind them.
pub open spec fn crockford(value: u128) -> Seq<char> {
    base32((value as nat % 0x4000_0000_0000_0000_0000_0000_0000_0000) * 4, 26)
}

fn push_base32(s: &mut String, v: u128, n: u32)
    ensures
        final(s)@ == old(s)@ + base32(v as nat, n as nat),
    decreases n,
{
    if n > 0 {
        push_base32(s, v / 32, n - 1);
        let ghost mid = s@;
        let digits = CROCKFORD;
        s.push(digits[(v % 32) as usize]);
        assert(s@ =~= old(s)@ + base32(v as nat, n as nat));
    } else {
        assert(s@ =~= old(s)@ + base32(v as nat, 0));
    }
}

/// A 128-bit value in 26 characters.
pub fn encode_crockford(value: u128) -> (r: String)
    ensures
        r@ == crockford(value),
{
    let low: u128 = value % 0x4000_0000_0000_0000_0000_0000_0000_0000;
    let mut s = String::new();
    push_base32(&mut s, low * 4, 26);
    assert(s@ =~= crockford(value));
    s
}

/// What is mixed into an identifier besides its time.
pub open spec fn mixture(now_ms: u64, nanos: u32, pid: u32) -> u64 {
    (nanos as u64) ^ ((pid as u64) << 32) ^ now_ms
}

/// 48 bits of time, 64 of mixture, 16 of the clock's finest digits.
pub open spec fn ulid_value(now_ms: u64, nanos: u32, pid: u32) -> nat {
    (now_ms as nat % 0x1_0000_0000_0000) * 0x1_0000_0000_0000_0000_0000 + mixture(
        now_ms,
        nanos,
        pid,
    ) as nat * 0x1_0000 + nanos as nat % 0x1_0000
}

/// An identifier made at a time, by a process.
pub fn ulid_string(now_ms: u64, nanos: u32, pid: u32) -> (r: String)
    ensures
        ulid_value(now_ms, nanos, pid) <= u128::MAX,
        r@ == crockford(ulid_value(now_ms, nanos, pid) as u128),
{
    let mix: u64 = (nanos as u64) ^ ((pid as u64) << 32) ^ now_ms;
    let value: u128 = ((now_ms % 0x1_0000_0000_0000) as u128) * 0x1_0000_0000_0000_0000_0000
        + (mix as u128) * 0x1_0000 + ((nanos % 0x1_0000) as u128);
    encode_crockford(value)
}

/// A character identifiers are made of: no I, L, O and U.
pub open spec fn identifier_char(c: char) -> bool {
    '0' <= c <= '9' || 'A' <= c <= 'H' || 'J' <= c <= 'K' || 'M' <= c <= 'N' || 'P' <= c <= 'T'
        || 'V' <= c <= 'Z'
}

/// 26 characters identifiers are made of.
pub open spec fn ulid_shape(s: Seq<char>) -> bool {
    s.len() == 26 && forall|i: int| 0 <= i < s.len() ==> identifier_char(#[trigger] s[i])
}

/// Whether a text looks like an identifier.
pub fn looks_like_ulid(s: &str) -> (r: bool)
    ensures
        r == ulid_shape(s@),
{
    let x = chars_of(s);
    if x.len() != 26 {
        return false;
    }
    let mut i: usize = 0;
    while i < x.len()
        invariant
            i <= x@.len(),
            x@ == s@,
            x@.len() == 26,
            forall|j: int| 0 <= j < i ==> identifier_char(#[trigger] x@[j]),
        decreases x@.len() - i,
    {
        let c = x[i];
        let fits = ('0' <= c && '9' >= c) || ('A' <= c && 'H' >= c) || ('J' <= c && 'K' >= c) || (
        'M' <= c && 'N' >= c) || ('P' <= c && 'T' >= c) || ('V' <= c && 'Z' >= c);
        if !fits {
            assert(!identifier_char(s@[i as int]));
            return false;
        }
        i = i + 1;
    }
    true
}

// Laws of identifiers.

proof fn digits_are_identifier_chars(v: nat, n: nat)
    ensures
        base32(v, n).len() == n,
        forall|i: int| 0 <= i < n ==> identifier_char(#[trigger] base32(v, n)[i]),
    decreases n,
{
    if n > 0 {
        digits_are_identifier_chars(v / 32, (n - 1) as nat);
        assert(forall|d: int| 0 <= d < 32 ==> identifier_char(#[trigger] CROCKFORD@[d]));
    }
}

/// Every identifier that is made looks like one.
pub proof fn made_identifiers_are_recognised(value: u128)
    ensures
        ulid_shape(crockford(value)),
{
    digits_are_identifier_chars(
        (value as nat % 0x4000_0000_0000_0000_0000_0000_0000_0000) * 4,
        26,
    );
}

proof fn base32_len(v: nat, n: nat)
    ensures
        base32(v, n).len() == n,
    decreases n,
{
    if n > 0 {
        base32_len(v / 32, (n - 1) as nat);
    }
}

/// `b` is 32 to the power `n`.
pub open spec fn power32(n: nat) -> nat
    decreases n,
{
    if n == 0 {
        1
    } else {
        32 * power32((n - 1) as nat)
    }
}

proof fn digits_ascend(i: int, j: int)
    requires
        0 <= i < j < 32,
    ensures
        (CROCKFORD@[i] as int) < (CROCKFORD@[j] as int),
{
}

proof fn longer_precedes(a: Seq<char>, b: Seq<char>, x: char, y: char)
    requires
        a.len() == b.len(),
        precedes(a, b),
    ensures
        precedes(a.push(x), b.push(y)),
    decreases a.len(),
{
    if a[0] == b[0] {
        longer_precedes(a.drop_first(), b.drop_first(), x, y);
        assert(a.push(x).drop_first() =~= a.drop_first().push(x));
        assert(b.push(y).drop_first() =~= b.drop_first().push(y));
    }
}

proof fn last_decides(a: Seq<char>, x: char, y: char)
    requires
        (x as int) < (y as int),
    ensures
        precedes(a.push(x), a.push(y)),
    decreases a.len(),
{
    if a.len() > 0 {
        last_decides(a.drop_first(), x, y);
        assert(a.push(x).drop_first() =~= a.drop_first().push(x));
        assert(a.push(y).drop_first() =~= a.drop_first().push(y));
    }
}

/// Digit strings of one length sort as their numbers do.
pub proof fn digits_sort_as_numbers(v: nat, w: nat, n: nat)
    requires
        v < w,
        w < power32(n),
    ensures
        precedes(base32(v, n), base32(w, n)),
    decreases n,
{
    if n > 0 {
        let m = (n - 1) as nat;
        base32_len(v / 32, m);
        base32_len(w / 32, m);
        assert(w / 32 < power32(m));
        if v / 32 < w / 32 {
            digits_sort_as_numbers(v / 32, w / 32, m);
            longer_precedes(
                base32(v / 32, m),
                base32(w / 32, m),
                CROCKFORD@[(v % 32) as int],
                CROCKFORD@[(w % 32) as int],
            );
        } else {
            assert(v / 32 == w / 32);
            digits_ascend((v % 32) as int, (w % 32) as int);
            last_decides(
                base32(v / 32, m),
                CROCKFORD@[(v % 32) as int],
                CROCKFORD@[(w % 32) as int],
            );
        }
    }
}

/// Identifiers have 26 characters and sort by the millisecond they were made
/// in, whatever else went into them, for the next two thousand years.
pub proof fn identifiers_sort_by_time(
    t1: u64,
    nanos1: u32,
    pid1: u32,
    t2: u64,
    nanos2: u32,
    pid2: u32,
)
    requires
        t1 < t2 < 0x4000_0000_0000,
    ensures
        crockford(ulid_value(t1, nanos1, pid1) as u128).len() == 26,
        precedes(
            crockford(ulid_value(t1, nanos1, pid1) as u128),
            crockford(ulid_value(t2, nanos2, pid2) as u128),
        ),
{
    let a = ulid_value(t1, nanos1, pid1);
    let b = ulid_value(t2, nanos2, pid2);
    base32_len((a as u128 as nat % 0x4000_0000_0000_0000_0000_0000_0000_0000) * 4, 26);
    assert(a < b);
    assert(b < 0x4000_0000_0000_0000_0000_0000_0000_0000);
    reveal_with_fuel(power32, 27);
    assert(b * 4 < power32(26)) by {
        assert(power32(26) == 0x4_0000_0000_0000_0000_0000_0000_0000_0000);
    }
    digits_sort_as_numbers(a * 4, b * 4, 26);
}

/// The number of days in a month of the calendar.
pub open spec fn calendar_month(year: int, month: int) -> int {
    if month == 2 {
        if year % 400 == 0 || (year % 4 == 0 && year % 100 != 0) {
            29
        } else {
            28
        }
    } else if set![4int, 6, 9, 11].contains(month) {
        30
    } else {
        31
    }
}

/// The day after a date of the calendar.
pub open spec fn day_after(year: int, month: int, day: int) -> (int, int, int) {
    if day < calendar_month(year, month) {
        (year, month, day + 1)
    } else if month < 12 {
        (year, month + 1, 1)
    } else {
        (year + 1, 1, 1)
    }
}

/// Days are counted through the calendar from the first of January 1970: that
/// day has number zero, and the day after a date has the next number.
pub proof fn days_are_counted_one_by_one(year: int, month: int, day: int)
    requires
        1970 <= year,
        1 <= month <= 12,
        1 <= day <= calendar_month(year, month),
    ensures
        valid_date(year, month, day),
        day_number(1970, 1, 1) == 0,
        ({
            let (y, m, d) = day_after(year, month, day);
            &&& valid_date(y, m, d)
            &&& day_number(y, m, d) == day_number(year, month, day) + 1
        }),
{
    assert(month_days(year, month) == calendar_month(year, month));
    if day == calendar_month(year, month) && month == 12 {
        reveal_with_fuel(month_start, 13);
        assert(month_start(year, 12) + 31 == year_days(year));
        assert(year_start((year + 1) as nat) == year_start(year as nat) + year_days(year));
    }
}

/// A day has 86,400 seconds, an hour 3600 and a minute 60.
pub proof fn seconds_are_told_apart(day: nat, hour: nat, min: nat, sec: nat)
    requires
        day < 0x1_0000_0000,
        hour < 24,
        min < 60,
        sec < 60,
    ensures
        ({
            let t = (day * 86_400 + hour * 3_600 + min * 60 + sec) as u64;
            &&& days_of(t) == day
            &&& time_of_day(t) / 3600 == hour
            &&& time_of_day(t) % 3600 / 60 == min
            &&& time_of_day(t) % 60 == sec
        }),
{
}

proof fn two_digits(n: nat)
    requires
        n < 100,
    ensures
        padded(n, 2) == seq![(48 + n / 10) as char, (48 + n % 10) as char],
{
    reveal_with_fuel(decimal, 3);
    if n < 10 {
        assert(decimal(n).len() == 1);
        assert(padded(n, 2) =~= seq!['0', (48 + n) as char]);
    } else {
        assert(padded(n, 2) =~= seq![(48 + n / 10) as char, (48 + n % 10) as char]);
    }
}

proof fn four_digits(n: nat)
    requires
        1000 <= n < 10_000,
    ensures
        padded(n, 4) == seq![
            (48 + n / 1000) as char,
            (48 + n / 100 % 10) as char,
            (48 + n / 10 % 10) as char,
            (48 + n % 10) as char,
        ],
{
    reveal_with_fuel(decimal, 5);
    assert(n / 10 / 10 == n / 100 && n / 10 / 10 / 10 == n / 1000);
    assert(padded(n, 4) =~= seq![
        (48 + n / 1000) as char,
        (48 + n / 100 % 10) as char,
        (48 + n / 10 % 10) as char,
        (48 + n % 10) as char,
    ]);
}

/// A stamp has twenty characters: four digits of year, then month, day, hour,
/// minute and second, two digits each, with `-`, `-`, `T`, `:`, `:` between
/// them and `Z` at the end.
pub proof fn stamp_has_its_places(
    year: nat,
    month: nat,
    day: nat,
    hour: nat,
    min: nat,
    sec: nat,
)
    requires
        1000 <= year < 10_000,
        month < 100,
        day < 100,
        hour < 100,
        min < 100,
        sec < 100,
    ensures
        stamp_text(year, month, day, hour, min, sec) == seq![
            (48 + year / 1000) as char,
            (48 + year / 100 % 10) as char,
            (48 + year / 10 % 10) as char,
            (48 + year % 10) as char,
            '-',
            (48 + month / 10) as char,
            (48 + month % 10) as char,
            '-',
            (48 + day / 10) as char,
            (48 + day % 10) as char,
            'T',
            (48 + hour / 10) as char,
            (48 + hour % 10) as char,
            ':',
            (48 + min / 10) as char,
            (48 + min % 10) as char,
            ':',
            (48 + sec / 10) as char,
            (48 + sec % 10) as char,
            'Z',
        ],
{
    four_digits(year);
    two_digits(month);
    two_digits(day);
    two_digits(hour);
    two_digits(min);
    two_digits(sec);
    reveal_strlit("-");
    reveal_strlit("T");
    reveal_strlit(":");
    reveal_strlit("Z");
    assert("-"@ =~= seq!['-'] && "T"@ =~= seq!['T'] && ":"@ =~= seq![':'] && "Z"@ =~= seq!['Z']);
}

} // verus!
