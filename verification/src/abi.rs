//! The numbers the kernel and its programs agree on: error codes (Linux's, negated, as the syscalls
//! return them) and the file-system limits.

use vstd::prelude::*;

verus! {

pub const ENOENT: isize = -2;
pub const EIO: isize = -5;
pub const E2BIG: isize = -7;
pub const ENOEXEC: isize = -8;
pub const EBADF: isize = -9;
pub const EACCES: isize = -13;
pub const EFAULT: isize = -14;
pub const EEXIST: isize = -17;
pub const ENOTDIR: isize = -20;
pub const EISDIR: isize = -21;
pub const EINVAL: isize = -22;
pub const EMFILE: isize = -24;
pub const ENOTTY: isize = -25;
pub const ENOSPC: isize = -28;
pub const ERANGE: isize = -34;
pub const ENAMETOOLONG: isize = -36;
pub const ENOSYS: isize = -38;
pub const ENOTEMPTY: isize = -39;

/// `write(fd, buf, len)`.
pub const SYS_WRITE: usize = 64;
/// `read(fd, buf, len)`.
pub const SYS_READ: usize = 63;
/// `open(path, path_len, flags)`.
pub const SYS_OPEN: usize = 56;
/// `close(fd)`.
pub const SYS_CLOSE: usize = 57;
/// `getdents(fd, buf, len)`.
pub const SYS_GETDENTS: usize = 61;
/// `chmod(path, path_len, set, clear)`.
pub const SYS_CHMOD: usize = 53;
/// `exit(status)`.
pub const SYS_EXIT: usize = 93;

/// `open` flags: read only.
pub const O_RDONLY: usize = 0;
/// `open` flags: write only.
pub const O_WRONLY: usize = 1;
/// `open` flags: append to the end instead of starting the file empty.
pub const O_APPEND: usize = 0x400;

/// FAT attribute bits: read only.
pub const ATTR_READ_ONLY: u8 = 0x01;
/// FAT attribute bits: a volume label, not a file.
pub const ATTR_VOLUME_LABEL: u8 = 0x08;
/// FAT attribute bits: a directory.
pub const ATTR_DIRECTORY: u8 = 0x10;
/// FAT attribute bits: executable (the archive bit, which this system reads as "may run").
pub const ATTR_EXEC: u8 = 0x20;

/// The longest file name, in bytes.
pub const NAME_MAX: usize = 255;

/// The longest path, in bytes.
pub const PATH_MAX: usize = 4096;

/// One `getdents` record: size (4 bytes, little-endian), attributes (1), name length (1), and the
/// name, zero-padded to `NAME_MAX` bytes.
pub const DIRENT_SIZE: usize = 261;

/// The text an error code is reported with, as the C library words it.
pub open spec fn spec_errmsg(e: isize) -> Seq<char> {
    if e == ENOENT {
        "No such file or directory"@
    } else if e == EIO {
        "Input/output error"@
    } else if e == E2BIG {
        "Argument list too long"@
    } else if e == ENOEXEC {
        "Exec format error"@
    } else if e == EBADF {
        "Bad file descriptor"@
    } else if e == EACCES {
        "Permission denied"@
    } else if e == EFAULT {
        "Bad address"@
    } else if e == EEXIST {
        "File exists"@
    } else if e == ENOTDIR {
        "Not a directory"@
    } else if e == EISDIR {
        "Is a directory"@
    } else if e == EINVAL {
        "Invalid argument"@
    } else if e == EMFILE {
        "Too many open files"@
    } else if e == ENOTTY {
        "Inappropriate ioctl for device"@
    } else if e == ENOSPC {
        "No space left on device"@
    } else if e == ERANGE {
        "Numerical result out of range"@
    } else if e == ENAMETOOLONG {
        "File name too long"@
    } else if e == ENOSYS {
        "Function not implemented"@
    } else if e == ENOTEMPTY {
        "Directory not empty"@
    } else {
        "Unknown error"@
    }
}

/// The text `e` is reported with (`Unknown error` for a code this system never returns).
pub fn errmsg(e: isize) -> (m: &'static str)
    ensures
        m@ == spec_errmsg(e),
{
    if e == ENOENT {
        "No such file or directory"
    } else if e == EIO {
        "Input/output error"
    } else if e == E2BIG {
        "Argument list too long"
    } else if e == ENOEXEC {
        "Exec format error"
    } else if e == EBADF {
        "Bad file descriptor"
    } else if e == EACCES {
        "Permission denied"
    } else if e == EFAULT {
        "Bad address"
    } else if e == EEXIST {
        "File exists"
    } else if e == ENOTDIR {
        "Not a directory"
    } else if e == EISDIR {
        "Is a directory"
    } else if e == EINVAL {
        "Invalid argument"
    } else if e == EMFILE {
        "Too many open files"
    } else if e == ENOTTY {
        "Inappropriate ioctl for device"
    } else if e == ENOSPC {
        "No space left on device"
    } else if e == ERANGE {
        "Numerical result out of range"
    } else if e == ENAMETOOLONG {
        "File name too long"
    } else if e == ENOSYS {
        "Function not implemented"
    } else if e == ENOTEMPTY {
        "Directory not empty"
    } else {
        "Unknown error"
    }
}

} // verus!
