//! Calendar times: the current time in a fixed offset or a named zone, its
//! text as recorded for the last update, and the days left in its month.

use vstd::prelude::*;
use crate::codec::{decimal, encode_decimal, push_char};

verus! {

/// A time of day on a proleptic Gregorian date.
#[derive(Debug, Clone, Copy, PartialEq, Eq, Structural)]
pub struct CivilTime {
    pub year: i32,
    pub month: u32,
    pub day: u32,
    pub hour: u32,
    pub minute: u32,
    pub second: u32,
}

pub open spec fn is_leap_year(y: int) -> bool {
    (y % 4 == 0 && y % 100 != 0) || y % 400 == 0
}

pub open spec fn month_length(y: int, m: int) -> int {
    if m == 2 {
        if is_leap_year(y) { 29 } else { 28 }
    } else if m == 4 || m == 6 || m == 9 || m == 11 {
        30
    } else {
        31
    }
}

impl CivilTime {
    /// A real date and time of day, in the range of years that the calendar
    /// library covers, widened by one year each way for a local time near its ends.
    pub open spec fn wf(&self) -> bool {
        &&& -262144 <= self.year <= 262143
        &&& 1 <= self.month <= 12
        &&& 1 <= self.day <= month_length(self.year as int, self.month as int)
        &&& self.hour < 24
        &&& self.minute < 60
        &&& self.second < 60
    }
}

/// Number of days in a month of a year.
pub fn days_in_month(year: i32, month: u32) -> (r: u32)
    requires
        1 <= month <= 12,
    ensures
        r == month_length(year as int, month as int),
{
    if month == 2 {
        if (year % 4 == 0 && year % 100 != 0) || year % 400 == 0 {
            29
        } else {
            28
        }
    } else if month == 4 || month == 6 || month == 9 || month == 11 {
        30
    } else {
        31
    }
}

/// Whole days from the date of `t` to the last day of its month.
pub fn days_until_month_end(t: &CivilTime) -> (r: u32)
    requires
        t.wf(),
    ensures
        r == month_length(t.year as int, t.month as int) - t.day,
{
    days_in_month(t.year, t.month) - t.day
}

/// Whole days to wait before the next monthly snapshot: until the last day
/// of the month; but right after a snapshot taken on that last day, until the
/// last day of the next month, so that each month has one snapshot.
pub open spec fn snapshot_wait(t: CivilTime, just_saved: bool) -> int {
    let left = month_length(t.year as int, t.month as int) - t.day;
    if just_saved && left == 0 {
        if t.month == 12 {
            month_length(t.year + 1, 1)
        } else {
            month_length(t.year as int, t.month + 1)
        }
    } else {
        left
    }
}

pub fn days_until_snapshot(t: &CivilTime, just_saved: bool) -> (r: u32)
    requires
        t.wf(),
    ensures
        r == snapshot_wait(*t, just_saved),
{
    let left = days_until_month_end(t);
    if just_saved && left == 0 {
        if t.month == 12 {
            days_in_month(t.year + 1, 1)
        } else {
            days_in_month(t.year, t.month + 1)
        }
    } else {
        left
    }
}

/// `n` in decimal, with zeros in front up to `w` digits.
pub open spec fn padded(n: nat, w: nat) -> Seq<char> {
    if decimal(n).len() < w {
        Seq::new((w - decimal(n).len()) as nat, |i: int| '0') + decimal(n)
    } else {
        decimal(n)
    }
}

/// A year as four digits from 0 to 9999, and otherwise with a sign.
pub open spec fn year_text(y: int) -> Seq<char> {
    if 0 <= y <= 9999 {
        padded(y as nat, 4)
    } else if y > 9999 {
        seq!['+'] + padded(y as nat, 4)
    } else {
        seq!['-'] + padded((-y) as nat, 4)
    }
}

/// A time as `YYYY-MM-DD HH:MM:SS`.
pub open spec fn civil_text(t: CivilTime) -> Seq<char> {
    year_text(t.year as int) + seq!['-'] + padded(t.month as nat, 2) + seq!['-'] + padded(t.day as nat, 2)
        + seq![' '] + padded(t.hour as nat, 2) + seq![':'] + padded(t.minute as nat, 2) + seq![':']
        + padded(t.second as nat, 2)
}

fn write_padded(out: &mut String, n: u64, w: usize)
    ensures
        final(out)@ == old(out)@ + padded(n as nat, w as nat),
{
    let digits = encode_decimal(n);
    let len = digits.as_str().unicode_len();
    let ghost start = out@;
    if len < w {
        let mut k: usize = 0;
        while k < w - len
            invariant
                len < w,
                k <= w - len,
                out@ == start + Seq::new(k as nat, |i: int| '0'),
            decreases w - len - k,
        {
            push_char(out, '0');
            proof {
                assert(start + Seq::new((k + 1) as nat, |i: int| '0') =~= (start + Seq::new(k as nat, |i: int| '0')).push('0'));
            }
            k = k + 1;
        }
    }
    out.append(digits.as_str());
    proof {
        if len < w {
            assert(out@ =~= start + padded(n as nat, w as nat));
        } else {
            assert(out@ =~= start + padded(n as nat, w as nat));
        }
    }
}

/// Writes a time as `YYYY-MM-DD HH:MM:SS`.
pub fn format_civil(t: &CivilTime) -> (r: String)
    requires
        t.wf(),
    ensures
        r@ == civil_text(*t),
{
    let mut s = String::new();
    if 0 <= t.year && t.year <= 9999 {
        write_padded(&mut s, t.year as u64, 4);
    } else if t.year > 9999 {
        push_char(&mut s, '+');
        write_padded(&mut s, t.year as u64, 4);
    } else {
        push_char(&mut s, '-');
        write_padded(&mut s, (-(t.year as i64)) as u64, 4);
    }
    proof {
        assert(s@ =~= year_text(t.year as int));
    }
    push_char(&mut s, '-');
    write_padded(&mut s, t.month as u64, 2);
    push_char(&mut s, '-');
    write_padded(&mut s, t.day as u64, 2);
    push_char(&mut s, ' ');
    write_padded(&mut s, t.hour as u64, 2);
    push_char(&mut s, ':');
    write_padded(&mut s, t.minute as u64, 2);
    push_char(&mut s, ':');
    write_padded(&mut s, t.second as u64, 2);
    proof {
        assert(s@ =~= civil_text(*t));
    }
    s
}

#[verifier::external_type_specification]
#[verifier::external_body]
pub struct ExTz(chrono_tz::Tz);

/// Why a time could not be had.
#[derive(Debug, Clone, Copy, PartialEq, Eq, Structural)]
pub enum TimeError {
    /// The zone name is not in the zone table.
    UnknownZone,
    /// The system clock reads before 1970 or beyond the calendar's range.
    ClockUnreadable,
}

/// Whether the zone table knows a zone name.
pub uninterp spec fn zone_known(name: Seq<char>) -> bool;

/// Relies on `chrono_tz::Tz::from_str`, which looks the name up in a fixed table.
#[verifier::external_body]
fn zone_named(name: &str) -> (r: Result<chrono_tz::Tz, String>)
    ensures
        r is Ok <==> zone_known(name@),
{
    name.parse::<chrono_tz::Tz>()
}

/// Relies on `SystemTime::duration_since(UNIX_EPOCH)` and
/// `chrono::DateTime::from_timestamp`, which give `None` for a clock before
/// 1970 or out of range, and on `DateTime::with_timezone`: when the clock can
/// be read, the current time in the zone, whose fields form a real date and
/// time of day (within a day of the calendar's range of years).
#[verifier::external_body]
fn now_in_zone(tz: &chrono_tz::Tz) -> (r: Option<CivilTime>)
    ensures
        r is Some ==> r->Some_0.wf(),
{
    let since = std::time::SystemTime::now().duration_since(std::time::UNIX_EPOCH).ok()?;
    let secs = i64::try_from(since.as_secs()).ok()?;
    let t = chrono::DateTime::from_timestamp(secs, since.subsec_nanos())?.with_timezone(tz);
    Some(CivilTime {
        year: chrono::Datelike::year(&t),
        month: chrono::Datelike::month(&t),
        day: chrono::Datelike::day(&t),
        hour: chrono::Timelike::hour(&t),
        minute: chrono::Timelike::minute(&t),
        second: chrono::Timelike::second(&t),
    })
}

/// The current time in the named zone as `YYYY-MM-DD HH:MM:SS`, as recorded
/// for the last update.
pub fn get_current_datetime(zone: &str) -> (r: Result<String, TimeError>)
    ensures
        r == Err::<String, TimeError>(TimeError::UnknownZone) <==> !zone_known(zone@),
        r is Err ==> r == Err::<String, TimeError>(TimeError::UnknownZone)
            || r == Err::<String, TimeError>(TimeError::ClockUnreadable),
        r is Ok ==> exists|t: CivilTime| t.wf() && r->Ok_0@ == civil_text(t),
{
    match zone_named(zone) {
        Ok(tz) => match now_in_zone(&tz) {
            Some(t) => Ok(format_civil(&t)),
            None => Err(TimeError::ClockUnreadable),
        },
        Err(_) => Err(TimeError::UnknownZone),
    }
}

/// Whole days to wait, from today in the named zone, before the next monthly snapshot.
pub fn days_until_snapshot_in(zone: &str, just_saved: bool) -> (r: Result<u32, TimeError>)
    ensures
        r == Err::<u32, TimeError>(TimeError::UnknownZone) <==> !zone_known(zone@),
        r is Err ==> r == Err::<u32, TimeError>(TimeError::UnknownZone)
            || r == Err::<u32, TimeError>(TimeError::ClockUnreadable),
        r is Ok ==> exists|t: CivilTime| t.wf() && r->Ok_0 == snapshot_wait(t, just_saved),
{
    match zone_named(zone) {
        Ok(tz) => match now_in_zone(&tz) {
            Some(today) => Ok(days_until_snapshot(&today, just_saved)),
            None => Err(TimeError::ClockUnreadable),
        },
        Err(_) => Err(TimeError::UnknownZone),
    }
}

} // verus!
