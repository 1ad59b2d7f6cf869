//! Backup artifacts are named `<anything>_<YYYYMMDDHHMMSS>[.<extension>]`.
//! The fourteen digits after the last underscore are a UTC date and time;
//! every ordering and retention decision reads them and nothing else.

use vstd::prelude::*;

verus! {

pub open spec fn is_digit(c: char) -> bool {
    '0' <= c && c <= '9'
}

/// The decimal value of a run of digits.
pub open spec fn digits_value(s: Seq<char>) -> int
    decreases s.len(),
{
    if s.len() == 0 {
        0
    } else {
        digits_value(s.drop_last()) * 10 + (s.last() as int - '0' as int)
    }
}

/// The index of the last `c` among the first `n` characters of `s`, or -1.
pub open spec fn last_index_before(s: Seq<char>, c: char, n: int) -> int
    decreases n,
{
    if n <= 0 {
        -1
    } else if s[n - 1] == c {
        n - 1
    } else {
        last_index_before(s, c, n - 1)
    }
}

/// Where the fourteen timestamp digits begin: just after the last underscore.
pub open spec fn stamp_start(s: Seq<char>) -> int {
    last_index_before(s, '_', s.len() as int) + 1
}

/// An underscore, then fourteen digits, then the end of the name or a dot.
pub open spec fn has_stamp_shape(s: Seq<char>) -> bool {
    let a = stamp_start(s);
    &&& a >= 1
    &&& a + 14 <= s.len()
    &&& forall|i: int| a <= i < a + 14 ==> is_digit(#[trigger] s[i])
    &&& (a + 14 == s.len() || s[a + 14] == '.')
}

/// The value of the `len` digits at offset `off` of the timestamp.
pub open spec fn stamp_field(s: Seq<char>, off: int, len: int) -> int {
    let a = stamp_start(s);
    digits_value(s.subrange(a + off, a + off + len))
}

pub open spec fn is_leap_year(y: int) -> bool {
    (y % 4 == 0 && y % 100 != 0) || y % 400 == 0
}

pub open spec fn days_in_month(y: int, m: int) -> int {
    if m == 2 {
        if is_leap_year(y) { 29 } else { 28 }
    } else if m == 4 || m == 6 || m == 9 || m == 11 {
        30
    } else {
        31
    }
}

/// Days of the year `y` that come before the first day of month `m`.
pub open spec fn days_before_month(y: int, m: int) -> int
    decreases m,
{
    if m <= 1 {
        0
    } else {
        days_before_month(y, m - 1) + days_in_month(y, m - 1)
    }
}

/// A real date and time of the proleptic Gregorian calendar, without leap seconds.
pub open spec fn valid_civil(y: int, mo: int, d: int, h: int, mi: int, se: int) -> bool {
    &&& 1 <= mo <= 12
    &&& 1 <= d <= days_in_month(y, mo)
    &&& 0 <= h < 24
    &&& 0 <= mi < 60
    &&& 0 <= se < 60
}

/// Day number of a date, 0001-01-01 being day 1.
pub open spec fn days_from_ce(y: int, m: int, d: int) -> int {
    365 * (y - 1) + (y - 1) / 4 - (y - 1) / 100 + (y - 1) / 400 + days_before_month(y, m) + d
}

/// Seconds from 1970-01-01T00:00:00 UTC to the given UTC date and time.
pub open spec fn unix_of(y: int, mo: int, d: int, h: int, mi: int, se: int) -> int {
    (days_from_ce(y, mo, d) - 719163) * 86400 + h * 3600 + mi * 60 + se
}

/// The instant (Unix seconds) that a file name carries, if it carries one.
pub open spec fn filename_timestamp(s: Seq<char>) -> Option<int> {
    if has_stamp_shape(s) {
        let y = stamp_field(s, 0, 4);
        let mo = stamp_field(s, 4, 2);
        let d = stamp_field(s, 6, 2);
        let h = stamp_field(s, 8, 2);
        let mi = stamp_field(s, 10, 2);
        let se = stamp_field(s, 12, 2);
        if valid_civil(y, mo, d, h, mi, se) {
            Some(unix_of(y, mo, d, h, mi, se))
        } else {
            None
        }
    } else {
        None
    }
}

pub open spec fn opt_int(v: Option<i64>) -> Option<int> {
    match v {
        Some(t) => Some(t as int),
        None => None,
    }
}

/// Relies on chrono's `NaiveDate::from_ymd_opt` (None on a day that the
/// calendar lacks), `NaiveDate::and_hms_opt` (None unless hour < 24,
/// minute < 60, second < 60) and `DateTime::timestamp` (non-leap seconds
/// since the Unix epoch) to turn a UTC calendar date into Unix seconds.
#[verifier::external_body]
fn civil_to_unix(y: i32, mo: u32, d: u32, h: u32, mi: u32, se: u32) -> (r: Option<i64>)
    requires
        0 <= y <= 9999,
    ensures
        r.is_some() == valid_civil(y as int, mo as int, d as int, h as int, mi as int, se as int),
        r.is_some() ==> r.unwrap() as int == unix_of(
            y as int,
            mo as int,
            d as int,
            h as int,
            mi as int,
            se as int,
        ),
{
    let date = chrono::NaiveDate::from_ymd_opt(y, mo, d)?;
    let date_time = date.and_hms_opt(h, mi, se)?;
    Some(date_time.and_utc().timestamp())
}

/// Reads `len` (at most four) digits of `name` starting at `from`.
pub(crate) fn read_digits(name: &str, from: usize, len: usize) -> (r: u32)
    requires
        from + len <= name@.len(),
        from + len <= usize::MAX,
        len <= 4,
        forall|k: int| from <= k < from + len ==> is_digit(#[trigger] name@[k]),
    ensures
        r as int == digits_value(name@.subrange(from as int, from + len)),
        r <= 9999,
{
    let mut acc: u32 = 0;
    let mut i: usize = from;
    while i < from + len
        invariant
            from <= i <= from + len,
            from + len <= name@.len(),
            from + len <= usize::MAX,
            len <= 4,
            forall|k: int| from <= k < from + len ==> is_digit(#[trigger] name@[k]),
            acc as int == digits_value(name@.subrange(from as int, i as int)),
            i - from == 0 ==> acc == 0,
            i - from <= 1 ==> acc <= 9,
            i - from <= 2 ==> acc <= 99,
            i - from <= 3 ==> acc <= 999,
            acc <= 9999,
        decreases from + len - i,
    {
        let c = name.get_char(i);
        assert(is_digit(name@[i as int]));
        let d: u32 = (c as u32) - ('0' as u32);
        assert(name@.subrange(from as int, i + 1).drop_last() =~= name@.subrange(
            from as int,
            i as int,
        ));
        acc = acc * 10 + d;
        i = i + 1;
    }
    acc
}

/// The Unix time embedded in a backup file name, or `None` when the name does
/// not follow the convention or names a date that does not exist.
pub fn extract_timestamp_from_filename(name: &str) -> (r: Option<i64>)
    ensures
        opt_int(r) == filename_timestamp(name@),
{
    let n = name.unicode_len();
    let mut i: usize = n;
    while i > 0 && name.get_char(i - 1) != '_'
        invariant
            i <= n,
            n == name@.len(),
            last_index_before(name@, '_', n as int) == last_index_before(name@, '_', i as int),
        decreases i,
    {
        i = i - 1;
    }
    if i == 0 {
        return None;
    }
    let a = i;
    assert(stamp_start(name@) == a as int);
    if n < 14 || a > n - 14 {
        return None;
    }
    let mut j: usize = a;
    while j < a + 14
        invariant
            a <= j <= a + 14,
            a + 14 <= n,
            stamp_start(name@) == a as int,
            n == name@.len(),
            forall|k: int| a <= k < j ==> is_digit(#[trigger] name@[k]),
        decreases a + 14 - j,
    {
        let c = name.get_char(j);
        if !('0' <= c && c <= '9') {
            assert(!is_digit(name@[j as int]));
            assert(!has_stamp_shape(name@)) by {
                let a2 = stamp_start(name@);
                assert(a2 <= j < a2 + 14);
            }
            return None;
        }
        j = j + 1;
    }
    if a + 14 < n && name.get_char(a + 14) != '.' {
        return None;
    }
    let y = read_digits(name, a, 4);
    let mo = read_digits(name, a + 4, 2);
    let d = read_digits(name, a + 6, 2);
    let h = read_digits(name, a + 8, 2);
    let mi = read_digits(name, a + 10, 2);
    let se = read_digits(name, a + 12, 2);
    civil_to_unix(y as i32, mo, d, h, mi, se)
}

} // verus!
