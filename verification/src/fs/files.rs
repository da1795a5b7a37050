//! The byte layouts the file system hands programs: `getdents` records, each a fixed `DIRENT_SIZE`
//! bytes (size, attributes, name length, name zero-padded to `NAME_MAX`), filled into the caller's
//! buffer as many whole records at a time as fit; and the `stat` record.

use vstd::prelude::*;

use crate::abi::{
    ATTR_DIRECTORY, ATTR_READ_ONLY, ATTR_VOLUME_LABEL, DIRENT_SIZE, EACCES, EEXIST, EINVAL, EIO, EISDIR, EMFILE, ENOSPC, ENOTDIR,
    ENOTEMPTY, NAME_MAX,
};
use crate::text::str_eq;

verus! {

/// One directory entry as `getdents` reports it.
pub struct DirRec {
    pub name: String,
    pub size: u32,
    pub attrs: u8,
}

/// `v` as four little-endian bytes.
pub open spec fn le32(v: u32) -> Seq<u8> {
    seq![(v % 256) as u8, ((v / 256) % 256) as u8, ((v / 65536) % 256) as u8, (v / 16777216) as u8]
}

/// `v` as two little-endian bytes.
pub open spec fn le16(v: u16) -> Seq<u8> {
    seq![(v % 256) as u8, (v / 256) as u8]
}

/// How many bytes of `name` a record holds: all of them, up to `NAME_MAX`.
pub open spec fn name_len(name: Seq<char>) -> nat {
    let n = vstd::utf8::encode_utf8(name).len();
    if n < NAME_MAX { n } else { NAME_MAX as nat }
}

/// The record of `rec`: its size, its attributes, how many bytes of its name follow, and those bytes
/// zero-padded to `NAME_MAX`.
pub open spec fn dirent(name: Seq<char>, size: u32, attrs: u8) -> Seq<u8> {
    let n = name_len(name);
    le32(size) + seq![attrs, n as u8] + vstd::utf8::encode_utf8(name).take(n as int)
        + Seq::new((NAME_MAX - n) as nat, |i: int| 0u8)
}

/// A directory opened for listing: its entries, captured when it was opened, and how many have been
/// handed out.
pub struct DirCursor {
    pub recs: Vec<DirRec>,
    pub next: usize,
}

fn put_le32(buf: &mut [u8], at: usize, v: u32)
    requires
        at + 4 <= old(buf)@.len(),
    ensures
        final(buf)@ == old(buf)@.take(at as int) + le32(v) + old(buf)@.skip(at + 4),
{
    buf[at] = (v % 256) as u8;
    buf[at + 1] = ((v / 256) % 256) as u8;
    buf[at + 2] = ((v / 65536) % 256) as u8;
    buf[at + 3] = (v / 16777216) as u8;
    assert(buf@ =~= old(buf)@.take(at as int) + le32(v) + old(buf)@.skip(at + 4));
}

fn put_le16(buf: &mut [u8], at: usize, v: u16)
    requires
        at + 2 <= old(buf)@.len(),
    ensures
        final(buf)@ == old(buf)@.take(at as int) + le16(v) + old(buf)@.skip(at + 2),
{
    buf[at] = (v % 256) as u8;
    buf[at + 1] = (v / 256) as u8;
    assert(buf@ =~= old(buf)@.take(at as int) + le16(v) + old(buf)@.skip(at + 2));
}

/// Writes the record of (`name`, `size`, `attrs`) at `at`.
fn put_dirent(buf: &mut [u8], at: usize, name: &str, size: u32, attrs: u8)
    requires
        at + DIRENT_SIZE <= old(buf)@.len(),
    ensures
        final(buf)@ == old(buf)@.take(at as int) + dirent(name@, size, attrs) + old(buf)@.skip(at + DIRENT_SIZE),
{
    let blen = buf.len();
    let bytes = name.as_bytes();
    let n = if bytes.len() < NAME_MAX { bytes.len() } else { NAME_MAX };
    let ghost start = old(buf)@;
    put_le32(buf, at, size);
    buf[at + 4] = attrs;
    buf[at + 5] = n as u8;
    let mut i: usize = 0;
    while i < NAME_MAX
        invariant
            at + DIRENT_SIZE <= buf@.len(),
            buf@.len() == start.len(),
            blen == start.len(),
            n == name_len(name@),
            bytes@ == vstd::utf8::encode_utf8(name@),
            i <= NAME_MAX,
            buf@.take(at as int) == start.take(at as int),
            buf@.skip(at + DIRENT_SIZE) == start.skip(at + DIRENT_SIZE),
            buf@.subrange(at as int, at + 6) == le32(size) + seq![attrs, n as u8],
            forall|k: int| 0 <= k < i ==> #[trigger] buf@[at + 6 + k] == if k < n { bytes@[k] } else { 0u8 },
        decreases NAME_MAX - i,
    {
        let b = if i < n { bytes[i] } else { 0u8 };
        let ghost before = buf@;
        buf[at + 6 + i] = b;
        proof {
            assert(buf@.take(at as int) =~= before.take(at as int));
            assert(buf@.skip(at + DIRENT_SIZE) =~= before.skip(at + DIRENT_SIZE));
            assert(buf@.subrange(at as int, at + 6) =~= before.subrange(at as int, at + 6));
        }
        i += 1;
    }
    proof {
        let d = dirent(name@, size, attrs);
        assert(buf@.subrange(at as int, at + DIRENT_SIZE) =~= d) by {
            assert forall|k: int| 0 <= k < DIRENT_SIZE implies #[trigger] buf@.subrange(at as int, at + DIRENT_SIZE)[k] == d[k] by {
                if k < 6 {
                    assert(buf@.subrange(at as int, at + 6)[k] == buf@[at + k]);
                } else {
                    assert(buf@[at + 6 + (k - 6)] == buf@[at + k]);
                }
            }
        }
        assert(buf@ =~= buf@.take(at as int) + buf@.subrange(at as int, at + DIRENT_SIZE) + buf@.skip(at + DIRENT_SIZE));
    }
}

/// The records `getdents` hands out from `recs`, starting at `next`.
pub open spec fn dirents_from(recs: Seq<DirRec>, next: int, count: int) -> Seq<u8>
    decreases count,
{
    if count <= 0 {
        Seq::empty()
    } else {
        dirents_from(recs, next, count - 1) + dirent(recs[next + count - 1].name@, recs[next + count - 1].size, recs[next + count - 1].attrs)
    }
}

/// Reading a directory in batches loses and repeats nothing: the records of `a` entries and then
/// of the next `b` are the records of all `a + b` together.
pub proof fn lemma_batches_concatenate(recs: Seq<DirRec>, next: int, a: int, b: int)
    requires
        0 <= a,
        0 <= b,
    ensures
        dirents_from(recs, next, a + b) == dirents_from(recs, next, a) + dirents_from(recs, next + a, b),
    decreases b,
{
    if b == 0 {
        assert(dirents_from(recs, next, a) + dirents_from(recs, next + a, 0) =~= dirents_from(recs, next, a));
    } else {
        lemma_batches_concatenate(recs, next, a, b - 1);
        let last = recs[next + a + b - 1];
        assert(dirents_from(recs, next, a + b) == dirents_from(recs, next, a + b - 1) + dirent(last.name@, last.size, last.attrs));
        assert(dirents_from(recs, next + a, b) == dirents_from(recs, next + a, b - 1) + dirent(last.name@, last.size, last.attrs));
        assert(dirents_from(recs, next, a + b) =~= dirents_from(recs, next, a) + dirents_from(recs, next + a, b));
    }
}

impl DirCursor {
    /// Fills `buf` with as many whole records as fit, from the next entry on, and returns how many
    /// bytes it wrote; the rest of `buf` is left as it was, and the cursor moves past what was handed
    /// out. `0` once every entry has been.
    pub fn getdents(&mut self, buf: &mut [u8]) -> (written: usize)
        requires
            old(self).next <= old(self).recs@.len(),
        ensures
            ({
                let count = vstd::math::min(old(self).recs@.len() - old(self).next, (old(buf)@.len() as int) / (DIRENT_SIZE as int));
                &&& written == count * DIRENT_SIZE
                &&& final(self).next == old(self).next + count
                &&& final(buf)@ == dirents_from(old(self).recs@, old(self).next as int, count) + old(buf)@.skip(written as int)
            }),
            final(self).recs@ == old(self).recs@,
    {
        let mut off: usize = 0;
        let ghost first = self.next as int;
        let ghost start = buf@;
        let ghost count = vstd::math::min(self.recs@.len() - first, (start.len() as int) / (DIRENT_SIZE as int));
        proof {
            assert(count * DIRENT_SIZE <= start.len()) by (nonlinear_arith)
                requires count <= (start.len() as int) / 261, count >= 0, DIRENT_SIZE == 261;
        }
        let blen = buf.len();
        while self.next < self.recs.len() && blen - off >= DIRENT_SIZE
            invariant
                blen == start.len(),
                off <= blen,
                first <= self.next <= self.recs@.len(),
                self.recs@ == old(self).recs@,
                buf@.len() == start.len(),
                off == (self.next - first) * DIRENT_SIZE,
                self.next - first <= count,
                count * DIRENT_SIZE <= start.len(),
                count == vstd::math::min(self.recs@.len() - first, (start.len() as int) / (DIRENT_SIZE as int)),
                buf@ == dirents_from(self.recs@, first, self.next - first) + start.skip(off as int),
            decreases self.recs@.len() - self.next,
        {
            proof {
                if self.next - first == count {
                    assert((self.next - first) * DIRENT_SIZE + DIRENT_SIZE > start.len()) by (nonlinear_arith)
                        requires self.next - first == count, count == vstd::math::min(self.recs@.len() - first, (start.len() as int) / 261),
                            self.next < self.recs@.len(), DIRENT_SIZE == 261;
                }
            }
            let rec = &self.recs[self.next];
            let ghost before = buf@;
            put_dirent(buf, off, rec.name.as_str(), rec.size, rec.attrs);
            proof {
                let done = self.next - first;
                assert(dirents_from(self.recs@, first, done + 1)
                    == dirents_from(self.recs@, first, done) + dirent(rec.name@, rec.size, rec.attrs));
                assert(before.take(off as int) =~= dirents_from(self.recs@, first, done));
                assert(before.skip(off + DIRENT_SIZE) =~= start.skip(off + DIRENT_SIZE));
                assert(buf@ =~= dirents_from(self.recs@, first, done + 1) + start.skip(off + DIRENT_SIZE));
                assert((done + 1) * DIRENT_SIZE == done * DIRENT_SIZE + DIRENT_SIZE) by (nonlinear_arith);
            }
            off = off + DIRENT_SIZE;
            self.next = self.next + 1;
        }
        proof {
            if self.next - first < count {
                assert(off + DIRENT_SIZE <= start.len()) by (nonlinear_arith)
                    requires off == (self.next - first) * 261, self.next - first < count, count * 261 <= start.len(), DIRENT_SIZE == 261;
            }
        }
        off
    }
}

/// One FAT timestamp as `stat` reports it.
#[derive(Clone, Copy, Debug, PartialEq, Eq, Structural)]
pub struct Stamp {
    pub date: u16,
    pub time: u16,
    pub time_tenth: u8,
}

/// What `stat` reports of a file.
#[derive(Clone, Copy, Debug, PartialEq, Eq, Structural)]
pub struct StatInfo {
    pub size: u32,
    pub attrs: u8,
    pub created: Stamp,
    pub modified: Stamp,
    pub accessed_date: u16,
}

/// The `stat` record: size (4 bytes), attributes, creation date, time (2 bytes each) and tenths,
/// modification date and time, access date; little-endian.
pub open spec fn spec_stat_record(info: StatInfo) -> Seq<u8> {
    le32(info.size) + seq![info.attrs] + le16(info.created.date) + le16(info.created.time)
        + seq![info.created.time_tenth] + le16(info.modified.date) + le16(info.modified.time)
        + le16(info.accessed_date)
}

/// The `stat` record of `info`.
pub fn stat_record(info: &StatInfo) -> (r: [u8; 16])
    ensures
        r@ == spec_stat_record(*info),
{
    let mut r = [0u8; 16];
    put_le32(&mut r, 0, info.size);
    r[4] = info.attrs;
    put_le16(&mut r, 5, info.created.date);
    put_le16(&mut r, 7, info.created.time);
    r[9] = info.created.time_tenth;
    put_le16(&mut r, 10, info.modified.date);
    put_le16(&mut r, 12, info.modified.time);
    put_le16(&mut r, 14, info.accessed_date);
    assert(r@ =~= spec_stat_record(*info));
    r
}

/// How many files and directories may be open at once, counting each once however many fds and
/// stream bindings refer to it, the shell's redirect files included.
pub const MAX_OPEN_FILES: usize = 13;

/// Whether another file may be opened while `live` are: `EMFILE` once `MAX_OPEN_FILES` are.
pub fn open_allowed(live: usize) -> (r: Result<(), isize>)
    ensures
        live >= MAX_OPEN_FILES ==> r == Err::<(), isize>(EMFILE),
        live < MAX_OPEN_FILES ==> r == Ok::<(), isize>(()),
{
    if live >= MAX_OPEN_FILES { Err(EMFILE) } else { Ok(()) }
}

/// How many of `counts` are not zero: the open files of a reference-count table.
pub open spec fn live_count(counts: Seq<usize>) -> nat
    decreases counts.len(),
{
    if counts.len() == 0 {
        0
    } else {
        live_count(counts.drop_last()) + if counts.last() != 0 { 1nat } else { 0nat }
    }
}

proof fn lemma_all_live(counts: Seq<usize>)
    requires
        forall|k: int| 0 <= k < counts.len() ==> #[trigger] counts[k] != 0,
    ensures
        live_count(counts) == counts.len(),
    decreases counts.len(),
{
    if counts.len() > 0 {
        let init = counts.drop_last();
        assert forall|k: int| 0 <= k < init.len() implies #[trigger] init[k] != 0 by {
            assert(init[k] == counts[k]);
        }
        lemma_all_live(init);
        assert(counts.last() == counts[counts.len() - 1]);
    }
}

/// The open files, by handle: how many fd slots and stream bindings refer to each. A file is open
/// while anything refers to it; a handle whose count is zero is free for the next file opened.
pub struct OpenCounts {
    counts: Vec<usize>,
}

impl OpenCounts {
    /// The reference count of each handle; zero for a free one.
    pub closed spec fn view(&self) -> Seq<usize> {
        self.counts@
    }

    /// No file open.
    pub fn new() -> (t: Self)
        ensures
            t@ == Seq::<usize>::empty(),
    {
        Self { counts: Vec::new() }
    }

    /// How many files are open.
    pub fn live(&self) -> (n: usize)
        ensures
            n == live_count(self@),
    {
        let mut n: usize = 0;
        let mut i: usize = 0;
        while i < self.counts.len()
            invariant
                i <= self.counts@.len(),
                n == live_count(self.counts@.take(i as int)),
                n <= i,
            decreases self.counts@.len() - i,
        {
            proof {
                assert(self.counts@.take(i + 1).drop_last() =~= self.counts@.take(i as int));
            }
            if self.counts[i] != 0 {
                n += 1;
            }
            i += 1;
        }
        assert(self.counts@.take(i as int) =~= self.counts@);
        n
    }

    /// How many references handle `h` has: zero if it is free or out of range.
    pub fn refs(&self, h: usize) -> (r: usize)
        ensures
            r == if h < self@.len() { self@[h as int] } else { 0 },
    {
        if h < self.counts.len() { self.counts[h] } else { 0 }
    }

    /// Takes the lowest free handle -- or a new one past the others if none is free -- for a newly
    /// opened file with one reference, and returns it. Fewer than `MAX_OPEN_FILES` may be open.
    pub fn claim(&mut self) -> (h: usize)
        requires
            live_count(old(self)@) < MAX_OPEN_FILES,
        ensures
            h <= old(self)@.len(),
            forall|k: int| 0 <= k < h ==> #[trigger] old(self)@[k] != 0,
            h < old(self)@.len() ==> old(self)@[h as int] == 0 && final(self)@ == old(self)@.update(h as int, 1),
            h == old(self)@.len() ==> final(self)@ == old(self)@.push(1),
    {
        let mut i: usize = 0;
        while i < self.counts.len()
            invariant
                i <= self.counts@.len(),
                self.counts@ == old(self)@,
                forall|k: int| 0 <= k < i ==> #[trigger] self.counts@[k] != 0,
            decreases self.counts@.len() - i,
        {
            if self.counts[i] == 0 {
                self.counts.set(i, 1);
                return i;
            }
            i += 1;
        }
        proof {
            lemma_all_live(self.counts@);
        }
        self.counts.push(1);
        i
    }

    /// Adds a reference to the open file `h`; a free or unknown handle is left as it is.
    pub fn retain(&mut self, h: usize)
        requires
            h < old(self)@.len() ==> old(self)@[h as int] < usize::MAX,
        ensures
            final(self)@ == if h < old(self)@.len() && old(self)@[h as int] > 0 {
                old(self)@.update(h as int, (old(self)@[h as int] + 1) as usize)
            } else {
                old(self)@
            },
    {
        if h < self.counts.len() && self.counts[h] > 0 {
            let c = self.counts[h];
            self.counts.set(h, c + 1);
        }
    }

    /// Drops a reference to `h`: `None` if it is not an open file, else whether that was the last
    /// reference -- the file is then closed and its handle free again.
    pub fn release(&mut self, h: usize) -> (r: Option<bool>)
        ensures
            h >= old(self)@.len() || old(self)@[h as int] == 0 ==> r is None && final(self)@ == old(self)@,
            h < old(self)@.len() && old(self)@[h as int] > 0 ==> r == Some(old(self)@[h as int] == 1)
                && final(self)@ == old(self)@.update(h as int, (old(self)@[h as int] - 1) as usize),
    {
        if h >= self.counts.len() || self.counts[h] == 0 {
            return None;
        }
        let c = self.counts[h];
        self.counts.set(h, c - 1);
        Some(c == 1)
    }
}

/// Whether a directory entry is listed by `getdents`: `.`, `..` and the volume label are not.
pub open spec fn spec_listed(name: Seq<char>, attrs: u8) -> bool {
    !(name == "."@ || name == ".."@ || attrs & ATTR_VOLUME_LABEL != 0)
}

/// Whether the entry `name` with attributes `attrs` is listed.
pub fn listed(name: &str, attrs: u8) -> (b: bool)
    ensures
        b == spec_listed(name@, attrs),
{
    !(str_eq(name, ".") || str_eq(name, "..") || attrs & ATTR_VOLUME_LABEL != 0)
}

/// Whether an existing entry may be opened for writing: not a directory (`EISDIR`), not read-only
/// (`EACCES`).
pub fn write_open_check(is_directory: bool, attrs: u8) -> (r: Result<(), isize>)
    ensures
        is_directory ==> r == Err::<(), isize>(EISDIR),
        !is_directory && attrs & ATTR_READ_ONLY != 0 ==> r == Err::<(), isize>(EACCES),
        !is_directory && attrs & ATTR_READ_ONLY == 0 ==> r == Ok::<(), isize>(()),
{
    if is_directory {
        Err(EISDIR)
    } else if attrs & ATTR_READ_ONLY != 0 {
        Err(EACCES)
    } else {
        Ok(())
    }
}

/// Whether `unlink` may remove an entry: a directory only with `remove_dir` (else `EISDIR`), a file
/// only without it (else `ENOTDIR`). No read-only check: removing is governed by the directory alone.
pub fn unlink_check(is_directory: bool, remove_dir: bool) -> (r: Result<(), isize>)
    ensures
        is_directory && !remove_dir ==> r == Err::<(), isize>(EISDIR),
        !is_directory && remove_dir ==> r == Err::<(), isize>(ENOTDIR),
        is_directory == remove_dir ==> r == Ok::<(), isize>(()),
{
    if is_directory && !remove_dir {
        Err(EISDIR)
    } else if !is_directory && remove_dir {
        Err(ENOTDIR)
    } else {
        Ok(())
    }
}

/// A file-system operation that names a path.
#[derive(Clone, Copy, Debug, PartialEq, Eq, Structural)]
pub enum PathOp {
    /// Finding an entry (to run it, or to rename it).
    Lookup,
    /// Opening for writing.
    OpenWrite,
    /// Changing permission bits.
    Chmod,
    /// Creating a directory.
    Mkdir,
    /// Removing an entry.
    Unlink,
    /// The new name of a rename.
    RenameTarget,
}

/// What `op` answers when its path is the root, which has no directory entry of its own: it exists
/// (`EEXIST` to `mkdir`), is a directory (`EISDIR` to a lookup, a write or a rename onto it), and
/// has no attribute byte to change nor can be removed (`EINVAL`).
pub open spec fn spec_root_error(op: PathOp) -> isize {
    match op {
        PathOp::Lookup => EISDIR,
        PathOp::OpenWrite => EISDIR,
        PathOp::Chmod => EINVAL,
        PathOp::Mkdir => EEXIST,
        PathOp::Unlink => EINVAL,
        PathOp::RenameTarget => EISDIR,
    }
}

/// The error `op` reports for the root.
pub fn root_error(op: PathOp) -> (e: isize)
    ensures
        e == spec_root_error(op),
{
    match op {
        PathOp::Lookup => EISDIR,
        PathOp::OpenWrite => EISDIR,
        PathOp::Chmod => EINVAL,
        PathOp::Mkdir => EEXIST,
        PathOp::Unlink => EINVAL,
        PathOp::RenameTarget => EISDIR,
    }
}

/// How a write to the FAT volume (creating, removing or renaming an entry) failed, as far as the
/// errno it reports tells failures apart.
#[derive(Clone, Copy, Debug, PartialEq, Eq, Structural)]
pub enum FatFailure {
    /// The new name is already taken.
    AlreadyExists,
    /// The directory to remove still has entries.
    DirectoryNotEmpty,
    /// The path is malformed, or a directory would move into itself.
    InvalidPath,
    /// The name cannot be stored.
    InvalidFilename,
    /// No cluster is free.
    NoFreeSpace,
    /// The directory has no free entry slot.
    DirectoryFull,
    /// Anything else: a device error, a corrupt volume, a stale entry.
    Other,
}

/// The errno of a failed volume write: `EEXIST`, `ENOTEMPTY`, `EINVAL` for a bad path or name,
/// `ENOSPC` when space or directory slots ran out, `EIO` for the rest.
pub open spec fn spec_fat_errno(f: FatFailure) -> isize {
    match f {
        FatFailure::AlreadyExists => EEXIST,
        FatFailure::DirectoryNotEmpty => ENOTEMPTY,
        FatFailure::InvalidPath => EINVAL,
        FatFailure::InvalidFilename => EINVAL,
        FatFailure::NoFreeSpace => ENOSPC,
        FatFailure::DirectoryFull => ENOSPC,
        FatFailure::Other => EIO,
    }
}

/// The errno `mkdir`, `unlink` and `rename` report when the volume refuses the write.
pub fn fat_errno(f: FatFailure) -> (e: isize)
    ensures
        e == spec_fat_errno(f),
{
    match f {
        FatFailure::AlreadyExists => EEXIST,
        FatFailure::DirectoryNotEmpty => ENOTEMPTY,
        FatFailure::InvalidPath | FatFailure::InvalidFilename => EINVAL,
        FatFailure::NoFreeSpace | FatFailure::DirectoryFull => ENOSPC,
        FatFailure::Other => EIO,
    }
}

/// The FAT epoch, 1980-01-01 00:00:00, as a `stat` timestamp: `hadris_fat`'s `FatDateTime::EPOCH`.
#[verifier::external_body]
fn epoch_stamp() -> (s: Stamp)
    ensures
        s == (Stamp { date: 0x21, time: 0, time_tenth: 0 }),
{
    let e = hadris_fat::FatDateTime::EPOCH;
    Stamp { date: e.date, time: e.time, time_tenth: e.time_tenth }
}

/// What `stat` reports of the root, which has no entry of its own: size 0, a directory, and the FAT
/// epoch for every timestamp.
pub fn root_stat() -> (info: StatInfo)
    ensures
        info == (StatInfo {
            size: 0,
            attrs: ATTR_DIRECTORY,
            created: Stamp { date: 0x21, time: 0, time_tenth: 0 },
            modified: Stamp { date: 0x21, time: 0, time_tenth: 0 },
            accessed_date: 0x21,
        }),
{
    let epoch = epoch_stamp();
    StatInfo { size: 0, attrs: ATTR_DIRECTORY, created: epoch, modified: epoch, accessed_date: epoch.date }
}

} // verus!
