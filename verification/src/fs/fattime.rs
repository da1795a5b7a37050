//! Unix time to the calendar fields a FAT directory entry stores, in UTC (the kernel writes what the
//! clock says and hands it back raw, so read and write agree). A time FAT cannot hold is clamped whole
//! to the nearest end of its range, 1980-01-01 00:00:00 to 2107-12-31 23:59:58.

use chrono::{Datelike, Timelike};
use vstd::prelude::*;

use super::files::Stamp;

verus! {

/// The calendar fields of one FAT timestamp.
#[derive(Clone, Copy, Debug, PartialEq, Eq, Structural)]
pub struct Fields {
    /// 1980 to 2107, the range FAT can store.
    pub year: u16,
    pub month: u8,
    pub day: u8,
    pub hour: u8,
    pub minute: u8,
    /// 0 to 59. FAT stores 2-second steps, so an odd second is rounded down on disk.
    pub second: u8,
}

/// 1980-01-01 00:00:00, the FAT epoch and the earliest time FAT can hold.
pub open spec fn spec_fat_epoch() -> Fields {
    Fields { year: 1980, month: 1, day: 1, hour: 0, minute: 0, second: 0 }
}

/// 2107-12-31 23:59:58, the last time FAT can hold.
pub open spec fn spec_fat_last() -> Fields {
    Fields { year: 2107, month: 12, day: 31, hour: 23, minute: 59, second: 58 }
}

/// The FAT epoch.
pub fn fat_epoch() -> (f: Fields)
    ensures
        f == spec_fat_epoch(),
{
    Fields { year: 1980, month: 1, day: 1, hour: 0, minute: 0, second: 0 }
}

/// The last time FAT can hold.
pub fn fat_last() -> (f: Fields)
    ensures
        f == spec_fat_last(),
{
    Fields { year: 2107, month: 12, day: 31, hour: 23, minute: 59, second: 58 }
}

/// The day number of the proleptic Gregorian date `y`-`m`-`d`, counted from 1970-01-01 (day 0).
pub open spec fn days_from_civil(y: int, m: int, d: int) -> int {
    let yy = if m <= 2 { y - 1 } else { y };
    let era = yy / 400;
    let yoe = yy - era * 400;
    let doy = (153 * (if m > 2 { m - 3 } else { m + 9 }) + 2) / 5 + d - 1;
    let doe = yoe * 365 + yoe / 4 - yoe / 100 + doy;
    era * 146097 + doe - 719468
}

/// Whether `y` is a leap year of the proleptic Gregorian calendar.
pub open spec fn is_leap_year(y: int) -> bool {
    (y % 4 == 0 && y % 100 != 0) || y % 400 == 0
}

/// How many days month `m` of year `y` has.
pub open spec fn days_in_month(y: int, m: int) -> int {
    if m == 2 {
        if is_leap_year(y) { 29 } else { 28 }
    } else if m == 4 || m == 6 || m == 9 || m == 11 {
        30
    } else {
        31
    }
}

/// The first second chrono can represent: -262143-01-01 00:00:00 UTC.
pub open spec fn first_representable() -> int {
    -8_334_601_228_800
}

/// The last second chrono can represent: 262142-12-31 23:59:59 UTC.
pub open spec fn last_representable() -> int {
    8_210_266_876_799
}

/// The UTC calendar breakdown of `unix` seconds since 1970 -- (year, month, day, hour, minute,
/// second) -- or `None` if it lies outside what `chrono` can represent.
pub uninterp spec fn utc_breakdown(unix: i64) -> Option<(i32, u32, u32, u32, u32, u32)>;

/// `chrono::DateTime::<Utc>::from_timestamp(unix, 0)`, broken down by its `year`, `month`, `day`,
/// `hour`, `minute` and `second` getters: the proleptic Gregorian date whose day number is `unix`
/// divided by 86400 (rounded down), and the time of day the remainder gives. `None` exactly when the
/// date falls outside chrono's range, the years -262143 to 262142.
#[verifier::external_body]
fn utc_fields(unix: i64) -> (r: Option<(i32, u32, u32, u32, u32, u32)>)
    ensures
        r == utc_breakdown(unix),
        r is Some <==> first_representable() <= unix <= last_representable(),
        r matches Some((y, mo, d, h, mi, s)) ==> {
            &&& 1 <= mo <= 12
            &&& 1 <= d <= days_in_month(y as int, mo as int)
            &&& days_from_civil(y as int, mo as int, d as int) == unix / 86400
            &&& h == (unix % 86400) / 3600
            &&& mi == (unix % 3600) / 60
            &&& s == unix % 60
        },
{
    match chrono::DateTime::<chrono::Utc>::from_timestamp(unix, 0) {
        Some(t) => Some((t.year(), t.month(), t.day(), t.hour(), t.minute(), t.second())),
        None => None,
    }
}

/// The fields for `unix`, given its breakdown `t`: a time before 1980 is the FAT epoch, one after
/// 2107 the last FAT moment; one chrono cannot represent is either, by its sign.
pub open spec fn spec_fields(unix: i64, t: Option<(i32, u32, u32, u32, u32, u32)>) -> Fields {
    match t {
        None => if unix < 0 { spec_fat_epoch() } else { spec_fat_last() },
        Some((y, mo, d, h, mi, s)) => if y < 1980 {
            spec_fat_epoch()
        } else if y > 2107 {
            spec_fat_last()
        } else {
            Fields { year: y as u16, month: mo as u8, day: d as u8, hour: h as u8, minute: mi as u8, second: s as u8 }
        },
    }
}

/// The fields for `unix` seconds since 1970, given chrono's breakdown `t` of it.
pub fn fields_from(unix: i64, t: Option<(i32, u32, u32, u32, u32, u32)>) -> (f: Fields)
    ensures
        f == spec_fields(unix, t),
{
    match t {
        None => if unix < 0 { fat_epoch() } else { fat_last() },
        Some((y, mo, d, h, mi, s)) => if y < 1980 {
            fat_epoch()
        } else if y > 2107 {
            fat_last()
        } else {
            Fields { year: y as u16, month: mo as u8, day: d as u8, hour: h as u8, minute: mi as u8, second: s as u8 }
        },
    }
}

/// The FAT fields for `unix` seconds since 1970: always a time FAT can hold.
pub fn fields(unix: i64) -> (f: Fields)
    ensures
        f == spec_fields(unix, utc_breakdown(unix)),
        1980 <= f.year <= 2107,
        1 <= f.month <= 12,
        1 <= f.day <= 31,
        f.hour <= 23,
        f.minute <= 59,
        f.second <= 59,
{
    let t = utc_fields(unix);
    fields_from(unix, t)
}

/// The creation time's 10 ms field: it carries the odd second FAT's 2-second steps drop.
pub fn time_tenth(f: &Fields) -> (t: u8)
    ensures
        t == (f.second % 2) * 100,
{
    (f.second % 2) * 100
}

/// The FAT date of `f`: `(year - 1980) << 9 | month << 5 | day`, the year offset clamped to the 0 to
/// 127 FAT can hold and each other field masked to its width.
pub open spec fn packed_date(f: Fields) -> u16 {
    let offset: u16 = if f.year < 1980 { 0 } else if f.year - 1980 > 127 { 127 } else { (f.year - 1980) as u16 };
    (offset << 9u16) | (((f.month as u16) & 0x0Fu16) << 5u16) | ((f.day as u16) & 0x1Fu16)
}

/// The FAT time of `f`: `hour << 11 | minute << 5 | second / 2`, each field masked to its width.
pub open spec fn packed_time(f: Fields) -> u16 {
    (((f.hour as u16) & 0x1Fu16) << 11u16) | (((f.minute as u16) & 0x3Fu16) << 5u16) | (((f.second as u16) / 2) & 0x1Fu16)
}

/// `hadris_fat`'s `FatDateTime::new`: the packed date and time of `f`, with no sub-second part.
#[verifier::external_body]
fn fat_date_time(f: &Fields) -> (s: Stamp)
    ensures
        s == (Stamp { date: packed_date(*f), time: packed_time(*f), time_tenth: 0 }),
{
    let d = hadris_fat::FatDateTime::new(f.year, f.month, f.day, f.hour, f.minute, f.second);
    Stamp { date: d.date, time: d.time, time_tenth: d.time_tenth }
}

/// The timestamp a file written at Unix time `unix` gets: its calendar fields packed as FAT stores
/// them, with the odd second FAT's 2-second steps drop kept in the creation time's sub-second part.
pub fn stamp_at(unix: i64) -> (s: Stamp)
    ensures
        ({
            let f = spec_fields(unix, utc_breakdown(unix));
            s == (Stamp { date: packed_date(f), time: packed_time(f), time_tenth: ((f.second % 2) * 100) as u8 })
        }),
{
    let f = fields(unix);
    let mut s = fat_date_time(&f);
    s.time_tenth = time_tenth(&f);
    s
}

} // verus!
