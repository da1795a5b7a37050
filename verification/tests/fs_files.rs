use kernel_core::fs::files::OpenCounts;
use kernel_core::abi::{EACCES, EEXIST, EINVAL, EISDIR, EMFILE, ENOTDIR};
use kernel_core::fs::files::{
    listed, open_allowed, root_error, root_stat, unlink_check, write_open_check, PathOp, MAX_OPEN_FILES,
};

use kernel_core::abi::{DIRENT_SIZE, EIO, ENOSPC, ENOTEMPTY, NAME_MAX};
use kernel_core::fs::files::{fat_errno, FatFailure};
use kernel_core::fs::files::{stat_record, DirCursor, DirRec, Stamp, StatInfo};

fn rec(name: &str, size: u32, attrs: u8) -> DirRec {
    DirRec { name: name.to_string(), size, attrs }
}

fn expected(name: &str, size: u32, attrs: u8) -> Vec<u8> {
    let mut v = size.to_le_bytes().to_vec();
    v.push(attrs);
    v.push(name.len() as u8);
    v.extend_from_slice(name.as_bytes());
    v.resize(DIRENT_SIZE, 0);
    v
}

#[test]
fn a_record_is_size_attributes_length_and_the_padded_name() {
    assert_eq!(DIRENT_SIZE, 6 + NAME_MAX);
    let mut c = DirCursor { recs: vec![rec("HELLO.TXT", 0x0102_0304, 0x20)], next: 0 };
    let mut buf = vec![0xaau8; DIRENT_SIZE];
    assert_eq!(c.getdents(&mut buf), DIRENT_SIZE);
    assert_eq!(buf, expected("HELLO.TXT", 0x0102_0304, 0x20));
    assert_eq!(c.getdents(&mut buf), 0);
}

#[test]
fn getdents_hands_out_whole_records_only() {
    let mut c = DirCursor { recs: vec![rec("A", 1, 0), rec("B", 2, 0x10), rec("C", 3, 0)], next: 0 };
    let mut buf = vec![0xffu8; 2 * DIRENT_SIZE + 100];
    assert_eq!(c.getdents(&mut buf), 2 * DIRENT_SIZE);
    assert_eq!(&buf[..DIRENT_SIZE], &expected("A", 1, 0)[..]);
    assert_eq!(&buf[DIRENT_SIZE..2 * DIRENT_SIZE], &expected("B", 2, 0x10)[..]);
    assert!(buf[2 * DIRENT_SIZE..].iter().all(|&b| b == 0xff));
    assert_eq!(c.getdents(&mut buf), DIRENT_SIZE);
    assert_eq!(&buf[..DIRENT_SIZE], &expected("C", 3, 0)[..]);
    assert_eq!(c.getdents(&mut buf), 0);
}

#[test]
fn a_buffer_smaller_than_a_record_gets_nothing() {
    let mut c = DirCursor { recs: vec![rec("A", 1, 0)], next: 0 };
    let mut buf = vec![7u8; DIRENT_SIZE - 1];
    assert_eq!(c.getdents(&mut buf), 0);
    assert!(buf.iter().all(|&b| b == 7));
    assert_eq!(c.next, 0);
}

#[test]
fn a_long_name_is_cut_at_name_max() {
    let long = "n".repeat(NAME_MAX + 10);
    let mut c = DirCursor { recs: vec![rec(&long, 0, 0)], next: 0 };
    let mut buf = vec![0u8; DIRENT_SIZE];
    assert_eq!(c.getdents(&mut buf), DIRENT_SIZE);
    assert_eq!(buf[5] as usize, NAME_MAX);
    assert!(buf[6..].iter().all(|&b| b == b'n'));
}

#[test]
fn the_stat_record_is_little_endian() {
    let info = StatInfo {
        size: 0x1122_3344,
        attrs: 0x21,
        created: Stamp { date: 0x5a21, time: 0x6b3c, time_tenth: 150 },
        modified: Stamp { date: 0x5a22, time: 0x0001, time_tenth: 0 },
        accessed_date: 0x5a23,
    };
    assert_eq!(
        stat_record(&info),
        [0x44, 0x33, 0x22, 0x11, 0x21, 0x21, 0x5a, 0x3c, 0x6b, 150, 0x22, 0x5a, 0x01, 0x00, 0x23, 0x5a]
    );
}

#[test]
fn listings_skip_dot_entries_and_the_volume_label() {
    assert!(listed("HELLO.TXT", 0x20));
    assert!(listed("bin", 0x10));
    assert!(listed("...", 0));
    assert!(!listed(".", 0x10));
    assert!(!listed("..", 0x10));
    assert!(!listed("DISK", 0x08));
}

#[test]
fn writing_needs_a_writable_file() {
    assert_eq!(write_open_check(true, 0), Err(EISDIR));
    assert_eq!(write_open_check(false, 0x01), Err(EACCES));
    assert_eq!(write_open_check(false, 0x20), Ok(()));
}

#[test]
fn unlink_removes_directories_only_when_asked() {
    assert_eq!(unlink_check(true, false), Err(EISDIR));
    assert_eq!(unlink_check(false, true), Err(ENOTDIR));
    assert_eq!(unlink_check(true, true), Ok(()));
    assert_eq!(unlink_check(false, false), Ok(()));
}

#[test]
fn the_root_has_no_entry_of_its_own() {
    assert_eq!(root_error(PathOp::Mkdir), EEXIST);
    assert_eq!(root_error(PathOp::Chmod), EINVAL);
    assert_eq!(root_error(PathOp::Unlink), EINVAL);
    assert_eq!(root_error(PathOp::OpenWrite), EISDIR);
    assert_eq!(root_error(PathOp::Lookup), EISDIR);
    assert_eq!(root_error(PathOp::RenameTarget), EISDIR);
    let s = root_stat();
    assert_eq!(stat_record(&s), [0, 0, 0, 0, 0x10, 0x21, 0, 0, 0, 0, 0x21, 0, 0, 0, 0x21, 0]);
}

#[test]
fn only_so_many_files_are_open_at_once() {
    assert_eq!(open_allowed(0), Ok(()));
    assert_eq!(open_allowed(MAX_OPEN_FILES - 1), Ok(()));
    assert_eq!(open_allowed(MAX_OPEN_FILES), Err(EMFILE));
}

#[test]
fn a_refused_volume_write_reports_its_errno() {
    assert_eq!(fat_errno(FatFailure::AlreadyExists), EEXIST);
    assert_eq!(fat_errno(FatFailure::DirectoryNotEmpty), ENOTEMPTY);
    assert_eq!(fat_errno(FatFailure::InvalidPath), EINVAL);
    assert_eq!(fat_errno(FatFailure::InvalidFilename), EINVAL);
    assert_eq!(fat_errno(FatFailure::NoFreeSpace), ENOSPC);
    assert_eq!(fat_errno(FatFailure::DirectoryFull), ENOSPC);
    assert_eq!(fat_errno(FatFailure::Other), EIO);
    assert_eq!(EEXIST, -17);
    assert_eq!(ENOSPC, -28);
}

#[test]
fn listing_in_batches_matches_listing_at_once() {
    let recs = || vec![rec("A", 1, 0x20), rec("BB", 2, 0x10), rec("CCC", 3, 0x01)];
    let mut whole = DirCursor { recs: recs(), next: 0 };
    let mut all = vec![0u8; 3 * DIRENT_SIZE];
    assert_eq!(whole.getdents(&mut all), 3 * DIRENT_SIZE);

    let mut batched = DirCursor { recs: recs(), next: 0 };
    let mut got = Vec::new();
    loop {
        let mut buf = vec![0u8; 2 * DIRENT_SIZE - 1];
        let n = batched.getdents(&mut buf);
        if n == 0 {
            break;
        }
        assert_eq!(n, DIRENT_SIZE);
        got.extend_from_slice(&buf[..n]);
    }
    assert_eq!(got, all);
    assert_eq!(batched.next, 3);
}

#[test]
fn open_files_take_the_lowest_free_handle_and_close_on_the_last_release() {
    let mut t = OpenCounts::new();
    assert_eq!(t.claim(), 0);
    assert_eq!(t.claim(), 1);
    assert_eq!(t.live(), 2);
    t.retain(0);
    assert_eq!(t.refs(0), 2);
    assert_eq!(t.release(0), Some(false));
    assert_eq!(t.release(0), Some(true));
    assert_eq!(t.release(0), None);
    assert_eq!(t.release(7), None);
    assert_eq!(t.live(), 1);
    assert_eq!(t.claim(), 0);
    assert_eq!(t.claim(), 2);
    t.retain(5);
    assert_eq!(t.refs(5), 0);
}
