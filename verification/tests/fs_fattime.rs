use chrono::{DateTime, Datelike, Utc};
use kernel_core::fs::fattime::{fat_epoch, fat_last, fields, Fields};

fn at(year: u16, month: u8, day: u8, hour: u8, minute: u8, second: u8) -> Fields {
    Fields { year, month, day, hour, minute, second }
}

#[test]
fn a_time_in_range_is_broken_down_as_utc() {
    assert_eq!(fields(1_000_000_000), at(2001, 9, 9, 1, 46, 40));
    assert_eq!(fields(1_709_164_800), at(2024, 2, 29, 0, 0, 0)); // a leap day
    assert_eq!(fields(4_107_542_400), at(2100, 3, 1, 0, 0, 0)); // 2100 is not a leap year
}

#[test]
fn the_first_and_last_moments_fat_can_hold() {
    assert_eq!(fields(315_532_800), fat_epoch()); // 1980-01-01 00:00:00 exactly
    assert_eq!(fields(315_532_799), fat_epoch()); // one second earlier clamps up to it
    assert_eq!(fields(4_354_819_199), at(2107, 12, 31, 23, 59, 59)); // still in range: FAT drops the odd second
    assert_eq!(fields(4_354_819_200), fat_last()); // 2108-01-01 clamps down
}

#[test]
fn an_unset_clock_is_the_fat_epoch_whole() {
    assert_eq!(fields(0), fat_epoch());
    assert_eq!(fields(15_000_000), fat_epoch()); // 1970-06-25: the whole date clamps, not just the year
    assert_eq!(fields(-1), fat_epoch());
    assert_eq!(fields(i64::MIN), fat_epoch());
}

#[test]
fn a_time_too_large_to_represent_is_the_last_fat_moment() {
    assert_eq!(fields(i64::MAX), fat_last());
}

#[test]
fn the_rtcs_whole_range_maps_without_a_panic() {
    // Every 100000th second across the PL031's 32-bit range.
    for unix in (0..=u32::MAX as i64).step_by(100_000) {
        let f = fields(unix);
        assert!((1980..=2107).contains(&f.year), "{unix}");
        assert!((1..=12).contains(&f.month) && (1..=31).contains(&f.day), "{unix}");
    }
}

use kernel_core::fs::fattime::stamp_at;
use kernel_core::fs::files::Stamp;

#[test]
fn a_stamp_packs_the_fields_as_fat_stores_them() {
    // 2024-05-17 13:45:31 UTC.
    let s = stamp_at(1_715_953_531);
    assert_eq!(s.date, (44 << 9) | (5 << 5) | 17);
    assert_eq!(s.time, (13 << 11) | (45 << 5) | 15);
    assert_eq!(s.time_tenth, 100);
    assert_eq!(stamp_at(0), Stamp { date: 0x21, time: 0, time_tenth: 0 });
}

#[test]
fn chrono_represents_exactly_the_years_it_documents() {
    let first = DateTime::<Utc>::from_timestamp(-8_334_601_228_800, 0).unwrap();
    assert_eq!((first.year(), first.month(), first.day()), (-262_143, 1, 1));
    assert!(DateTime::<Utc>::from_timestamp(-8_334_601_228_801, 0).is_none());
    let last = DateTime::<Utc>::from_timestamp(8_210_266_876_799, 0).unwrap();
    assert_eq!((last.year(), last.month(), last.day()), (262_142, 12, 31));
    assert!(DateTime::<Utc>::from_timestamp(8_210_266_876_800, 0).is_none());
}
