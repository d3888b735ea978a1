use vstd::prelude::*;
use crate::text::{dec_digits, padded, push_char, push_padded, push_uint, zero_pad, string_chars};
use chrono::{Datelike, Timelike};

verus! {

/// A civil date and time of day, as the proleptic Gregorian calendar counts them.
#[derive(Debug, Clone, Copy, PartialEq, Eq, Structural)]
pub struct CalendarTime {
    pub year: i32,
    pub month: u32,
    pub day: u32,
    pub hour: u32,
    pub minute: u32,
    pub second: u32,
    pub nanosecond: u32,
}

/// Whether `y` is a leap year.
pub open spec fn is_leap_year(y: int) -> bool {
    (y % 4 == 0 && y % 100 != 0) || y % 400 == 0
}

/// The number of days in month `m` of year `y`.
pub open spec fn days_in_month(y: int, m: int) -> int {
    if m == 2 {
        if is_leap_year(y) {
            29
        } else {
            28
        }
    } else if m == 4 || m == 6 || m == 9 || m == 11 {
        30
    } else {
        31
    }
}

/// Whether the fields name a date and time that the calendar has.
pub open spec fn valid_calendar(t: CalendarTime) -> bool {
    &&& -262143 <= t.year <= 262142
    &&& 1 <= t.month <= 12
    &&& 1 <= t.day <= days_in_month(t.year as int, t.month as int)
    &&& t.hour < 24
    &&& t.minute < 60
    &&& t.second < 60
    &&& t.nanosecond < 1_000_000_000
}

/// The fields of `t` as a tuple of numbers.
pub open spec fn calendar_tuple(t: CalendarTime) -> (int, int, int, int, int, int, int) {
    (
        t.year as int,
        t.month as int,
        t.day as int,
        t.hour as int,
        t.minute as int,
        t.second as int,
        t.nanosecond as int,
    )
}

/// The proleptic Gregorian date `z` days after 1970-01-01, as (year, month, day): days are
/// counted in 400-year eras of 146097 days, each starting on the 1st of March.
#[verifier::opaque]
pub open spec fn civil_from_days(z: int) -> (int, int, int) {
    let zz = z + 719468;
    let era = zz / 146097;
    let doe = zz - era * 146097;
    let yoe = (doe - doe / 1460 + doe / 36524 - doe / 146096) / 365;
    let doy = doe - (365 * yoe + yoe / 4 - yoe / 100);
    let mp = (5 * doy + 2) / 153;
    let day = doy - (153 * mp + 2) / 5 + 1;
    let month = if mp < 10 {
        mp + 3
    } else {
        mp - 9
    };
    (yoe + era * 400 + if month <= 2 {
        1int
    } else {
        0int
    }, month, day)
}

/// The UTC date and time `secs` seconds and `nsecs` nanoseconds after 1970-01-01 00:00:00,
/// for `nsecs` below one second, or `None` where the day falls outside the years -262143 to
/// 262142, from -262143-01-01 00:00:00 (-8334601228800 seconds) to 262142-12-31 23:59:59
/// (8210266876799 seconds).
pub open spec fn unix_calendar(secs: i64, nsecs: u32) -> Option<(int, int, int, int, int, int, int)> {
    if -8_334_601_228_800 <= secs <= 8_210_266_876_799 {
        let days = secs as int / 86400;
        let sod = secs as int % 86400;
        let (year, month, day) = civil_from_days(days);
        Some((year, month, day, sod / 3600, (sod % 3600) / 60, sod % 60, nsecs as int))
    } else {
        None
    }
}

/// The UTC time of a UNIX timestamp: `chrono::DateTime::from_timestamp` and its fields.
/// chrono's source splits the seconds into days (rounded down) and seconds of the day,
/// turns the days into a date of the proleptic Gregorian calendar, and gives a time exactly
/// when that date lies in the years -262143 to 262142 (below one second of `nsecs` there is
/// no leap second): the time `unix_calendar` states.
#[verifier::external_body]
pub(crate) fn unix_to_calendar(secs: i64, nsecs: u32) -> (r: Option<CalendarTime>)
    requires
        nsecs < 1_000_000_000,
    ensures
        r matches Some(t) ==> unix_calendar(secs, nsecs) == Some(calendar_tuple(t)) && valid_calendar(t),
        r is None ==> unix_calendar(secs, nsecs) is None,
{
    match chrono::DateTime::from_timestamp(secs, nsecs) {
        Some(d) => Some(
            CalendarTime {
                year: d.year(),
                month: d.month(),
                day: d.day(),
                hour: d.hour(),
                minute: d.minute(),
                second: d.second(),
                nanosecond: d.nanosecond(),
            },
        ),
        None => None,
    }
}

/// Whether the numbers name a date and time that the calendar has.
pub open spec fn fields_valid(
    year: int,
    month: int,
    day: int,
    hour: int,
    minute: int,
    second: int,
    nanosecond: int,
) -> bool {
    &&& -262143 <= year <= 262142
    &&& 1 <= month <= 12
    &&& 1 <= day <= days_in_month(year, month)
    &&& 0 <= hour < 24
    &&& 0 <= minute < 60
    &&& 0 <= second < 60
    &&& 0 <= nanosecond < 1_000_000_000
}

/// The UTC time `ts` microseconds after the UNIX epoch.
pub open spec fn micro_sec_time(ts: int, t: CalendarTime) -> bool {
    unix_calendar((ts / 1_000_000) as i64, ((ts % 1_000_000) * 1000) as u32) == Some(
        calendar_tuple(t),
    )
}

/// The UTC time `ts` microseconds after the UNIX epoch; the epoch itself for 0.
pub fn micro_sec_timestamp_to_time(ts: u64) -> (r: CalendarTime)
    requires
        ts < 8_210_266_876_800_000_000,
    ensures
        valid_calendar(r),
        micro_sec_time(ts as int, r),
        ts == 0 ==> r == (CalendarTime {
            year: 1970,
            month: 1,
            day: 1,
            hour: 0,
            minute: 0,
            second: 0,
            nanosecond: 0,
        }),
{
    let secs = (ts / 1_000_000) as i64;
    let nsecs = ((ts % 1_000_000) * 1000) as u32;
    proof {
        if ts == 0 {
            reveal(civil_from_days);
            assert(civil_from_days(0) == (1970int, 1int, 1int));
        }
    }
    match unix_to_calendar(secs, nsecs) {
        Some(t) => t,
        None => {
            assert(false);
            CalendarTime {
                year: 1970,
                month: 1,
                day: 1,
                hour: 0,
                minute: 0,
                second: 0,
                nanosecond: 0,
            }
        },
    }
}

/// The date and time with the given fields, when the calendar has it.
pub fn make_calendar(
    year: i64,
    month: i64,
    day: i64,
    hour: i64,
    minute: i64,
    second: i64,
    nanosecond: i64,
) -> (r: Option<CalendarTime>)
    ensures
        r matches Some(t) ==> valid_calendar(t) && calendar_tuple(t) == (
            year as int,
            month as int,
            day as int,
            hour as int,
            minute as int,
            second as int,
            nanosecond as int,
        ),
        r is None ==> !fields_valid(
            year as int,
            month as int,
            day as int,
            hour as int,
            minute as int,
            second as int,
            nanosecond as int,
        ),
{
    if year < -262143 || year > 262142 || month < 1 || month > 12 || day < 1 || hour < 0 || hour
        >= 24 || minute < 0 || minute >= 60 || second < 0 || second >= 60 || nanosecond < 0
        || nanosecond >= 1_000_000_000 {
        return None;
    }
    let leap = (year % 4 == 0 && year % 100 != 0) || year % 400 == 0;
    let dim: i64 = if month == 2 {
        if leap {
            29
        } else {
            28
        }
    } else if month == 4 || month == 6 || month == 9 || month == 11 {
        30
    } else {
        31
    };
    assert(leap == is_leap_year(year as int));
    if day > dim {
        return None;
    }
    Some(
        CalendarTime {
            year: year as i32,
            month: month as u32,
            day: day as u32,
            hour: hour as u32,
            minute: minute as u32,
            second: second as u32,
            nanosecond: nanosecond as u32,
        },
    )
}

/// The text of a year as chrono's `%Y` writes it: four digits at least, with a sign
/// before years outside 0 to 9999.
pub open spec fn year_text(y: int) -> Seq<char> {
    if y < 0 {
        seq!['-'] + padded((-y) as nat, 4)
    } else if y > 9999 {
        seq!['+'] + dec_digits(y as nat)
    } else {
        padded(y as nat, 4)
    }
}

/// `YYYY-MM-DD HH:MM:SS.ffffff` for `t`, with six digits of fraction.
pub open spec fn calendar_text6(t: CalendarTime) -> Seq<char> {
    year_text(t.year as int) + seq!['-'] + padded(t.month as nat, 2) + seq!['-'] + padded(
        t.day as nat,
        2,
    ) + seq![' '] + padded(t.hour as nat, 2) + seq![':'] + padded(t.minute as nat, 2) + seq![':']
        + padded(t.second as nat, 2) + seq!['.'] + padded((t.nanosecond / 1000) as nat, 6)
}

/// `YYYY-MM-DD HH:MM:SS` for `t`.
pub open spec fn calendar_text0(t: CalendarTime) -> Seq<char> {
    year_text(t.year as int) + seq!['-'] + padded(t.month as nat, 2) + seq!['-'] + padded(
        t.day as nat,
        2,
    ) + seq![' '] + padded(t.hour as nat, 2) + seq![':'] + padded(t.minute as nat, 2) + seq![':']
        + padded(t.second as nat, 2)
}

/// Appends the text of year `y` as `%Y` writes it.
pub fn push_year(s: &mut String, y: i32)
    ensures
        final(s)@ == old(s)@ + year_text(y as int),
{
    if y < 0 {
        push_char(s, '-');
        let ghost mid = s@;
        push_padded(s, (-(y as i64)) as u64, 4);
        assert(s@ =~= old(s)@ + year_text(y as int));
    } else if y > 9999 {
        push_char(s, '+');
        push_uint(s, y as u64);
        assert(s@ =~= old(s)@ + year_text(y as int));
    } else {
        push_padded(s, y as u64, 4);
    }
}

/// `YYYY-MM-DD HH:MM:SS`, then `.ffffff` when `frac6` holds.
pub fn calendar_string(t: &CalendarTime, frac6: bool) -> (r: String)
    ensures
        frac6 ==> r@ == calendar_text6(*t),
        !frac6 ==> r@ == calendar_text0(*t),
{
    let mut s = String::new();
    push_year(&mut s, t.year);
    push_char(&mut s, '-');
    push_padded(&mut s, t.month as u64, 2);
    push_char(&mut s, '-');
    push_padded(&mut s, t.day as u64, 2);
    push_char(&mut s, ' ');
    push_padded(&mut s, t.hour as u64, 2);
    push_char(&mut s, ':');
    push_padded(&mut s, t.minute as u64, 2);
    push_char(&mut s, ':');
    push_padded(&mut s, t.second as u64, 2);
    if frac6 {
        push_char(&mut s, '.');
        push_padded(&mut s, (t.nanosecond / 1000) as u64, 6);
        assert(s@ =~= calendar_text6(*t));
    } else {
        assert(s@ =~= calendar_text0(*t));
    }
    s
}

} // verus!

verus! {

#[verifier::external_type_specification]
#[verifier::external_body]
pub struct ExTz(chrono_tz::Tz);

/// How Rust's `{:0w}` writes the integer `n`: zeros after the sign until the text is `w` long.
pub open spec fn rust_zero_padded(n: int, w: nat) -> Seq<char> {
    if n < 0 {
        seq!['-'] + zero_pad(dec_digits((-n) as nat), if w >= 1 { (w - 1) as nat } else { 0 })
    } else {
        padded(n as nat, w)
    }
}

/// Appends `n` as Rust's `{:0w}` writes it.
pub fn push_rust_padded(s: &mut String, n: i64, w: usize)
    ensures
        final(s)@ == old(s)@ + rust_zero_padded(n as int, w as nat),
{
    if n < 0 {
        push_char(s, '-');
        let m: u64 = if n == i64::MIN {
            0x8000_0000_0000_0000u64
        } else {
            (-n) as u64
        };
        let ghost mid = s@;
        push_padded(s, m, if w >= 1 { w - 1 } else { 0 });
        assert(s@ =~= old(s)@ + rust_zero_padded(n as int, w as nat));
    } else {
        push_padded(s, n as u64, w);
    }
}

/// The first `len - (6 - dec)` characters of `s`: a six-digit fraction cut to `dec` digits.
pub open spec fn cut_fraction(s: Seq<char>, dec: int) -> Seq<char> {
    s.subrange(0, s.len() - (6 - dec))
}

/// `0000-00-00 00:00:00`, with the fraction `frac` shown to `dec` digits when `dec > 0`.
pub open spec fn zero_time_text(frac: int, dec: int) -> Seq<char> {
    if dec == 0 {
        "0000-00-00 00:00:00"@
    } else {
        cut_fraction("0000-00-00 00:00:00."@ + rust_zero_padded(frac, 6), dec)
    }
}

/// The zero date and time, with `dec` digits of the fraction `frac`.
pub fn format_zero_time(frac: isize, dec: isize) -> (r: String)
    requires
        0 <= dec <= 6,
    ensures
        r@ == zero_time_text(frac as int, dec as int),
{
    if dec == 0 {
        return crate::text::text("0000-00-00 00:00:00");
    }
    let mut s = crate::text::text("0000-00-00 00:00:00.");
    push_rust_padded(&mut s, frac as i64, 6);
    proof {
        reveal_strlit("0000-00-00 00:00:00.");
    }
    cut_tail(&s, (6 - dec) as usize)
}

/// `s` without its last `k` characters.
pub fn cut_tail(s: &String, k: usize) -> (r: String)
    requires
        k <= s@.len(),
    ensures
        r@ == s@.subrange(0, s@.len() - k),
{
    let chars = string_chars(s);
    let mut r = String::new();
    let mut i: usize = 0;
    let stop = chars.len() - k;
    while i < stop
        invariant
            chars@ == s@,
            stop == s@.len() - k,
            i <= stop,
            r@ == s@.subrange(0, i as int),
        decreases stop - i,
    {
        push_char(&mut r, chars[i]);
        i = i + 1;
        assert(r@ =~= s@.subrange(0, i as int));
    }
    r
}

/// A date before the UNIX epoch as MySQL prints it, with `dec` digits of `frac`.
pub open spec fn before_epoch_text(
    year: int,
    month: int,
    day: int,
    hour: int,
    minute: int,
    second: int,
    frac: int,
    dec: int,
) -> Seq<char> {
    let base = rust_zero_padded(year, 4) + seq!['-'] + rust_zero_padded(month, 2) + seq!['-']
        + rust_zero_padded(day, 2) + seq![' '] + rust_zero_padded(hour, 2) + seq![':']
        + rust_zero_padded(minute, 2) + seq![':'] + rust_zero_padded(second, 2);
    if dec == 0 {
        base
    } else {
        cut_fraction(base + seq!['.'] + rust_zero_padded(frac, 6), dec)
    }
}

pub fn format_before_unix_zero_time(
    year: isize,
    month: isize,
    day: isize,
    hour: isize,
    minute: isize,
    second: isize,
    frac: isize,
    dec: isize,
) -> (r: String)
    requires
        0 <= dec <= 6,
    ensures
        r@ == before_epoch_text(
            year as int,
            month as int,
            day as int,
            hour as int,
            minute as int,
            second as int,
            frac as int,
            dec as int,
        ),
{
    let mut s = String::new();
    push_rust_padded(&mut s, year as i64, 4);
    push_char(&mut s, '-');
    push_rust_padded(&mut s, month as i64, 2);
    push_char(&mut s, '-');
    push_rust_padded(&mut s, day as i64, 2);
    push_char(&mut s, ' ');
    push_rust_padded(&mut s, hour as i64, 2);
    push_char(&mut s, ':');
    push_rust_padded(&mut s, minute as i64, 2);
    push_char(&mut s, ':');
    push_rust_padded(&mut s, second as i64, 2);
    let ghost base = s@;
    assert(base =~= rust_zero_padded(year as int, 4) + seq!['-'] + rust_zero_padded(month as int, 2)
        + seq!['-'] + rust_zero_padded(day as int, 2) + seq![' '] + rust_zero_padded(hour as int, 2)
        + seq![':'] + rust_zero_padded(minute as int, 2) + seq![':'] + rust_zero_padded(
        second as int,
        2,
    ));
    if dec == 0 {
        return s;
    }
    push_char(&mut s, '.');
    push_rust_padded(&mut s, frac as i64, 6);
    proof {
        lemma_rust_padded_len(frac as int, 6);
    }
    cut_tail(&s, (6 - dec) as usize)
}

pub proof fn lemma_zero_pad_len(s: Seq<char>, w: nat)
    ensures
        zero_pad(s, w).len() >= w,
        zero_pad(s, w).len() >= s.len(),
{
}

pub proof fn lemma_rust_padded_len(n: int, w: nat)
    ensures
        rust_zero_padded(n, w).len() >= w,
{
    if n < 0 {
        lemma_zero_pad_len(dec_digits((-n) as nat), if w >= 1 { (w - 1) as nat } else { 0 });
    } else {
        lemma_zero_pad_len(dec_digits(n as nat), w);
    }
}

/// A date and time with a number of fraction digits to show, and the zone it is shown in.
#[derive(Debug, Clone, PartialEq)]
pub struct FracTime {
    pub f_time: CalendarTime,
    /// How many digits of the fraction to show, from 0 to 6.
    pub dec: isize,
    pub timestamp_string_location: Option<chrono_tz::Tz>,
}

/// How a `FracTime` is printed: six fraction digits cut to `dec`, and no fraction at 0.
pub open spec fn frac_time_text(t: CalendarTime, dec: int) -> Seq<char> {
    if dec == 0 {
        calendar_text0(t)
    } else if dec <= 5 {
        cut_fraction(calendar_text6(t), dec)
    } else {
        calendar_text6(t)
    }
}

impl FracTime {
    /// The text of this time: the wall-clock time, cut to `dec` fraction digits.
    pub fn to_text(&self) -> (r: String)
        requires
            0 <= self.dec,
        ensures
            r@ == frac_time_text(self.f_time, self.dec as int),
    {
        if self.dec == 0 {
            calendar_string(&self.f_time, false)
        } else {
            let s = calendar_string(&self.f_time, true);
            if self.dec <= 5 {
                proof {
                    lemma_text6_len(self.f_time);
                }
                cut_tail(&s, (6 - self.dec) as usize)
            } else {
                s
            }
        }
    }
}

proof fn lemma_text6_len(t: CalendarTime)
    ensures
        calendar_text6(t).len() >= 6,
{
    lemma_zero_pad_len(dec_digits((t.nanosecond / 1000) as nat), 6);
}

} // verus!
