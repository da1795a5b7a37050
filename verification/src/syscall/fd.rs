//! File descriptors. There is one fd table, not one per program: at most one program is ever
//! resident, so `reset_for_launch` refills it before each launch with the three standard entries --
//! each whatever the shell's current frame binds that stream to, by default the keyboard for `0` and
//! the console for `1` and `2` -- and everything above them is handed out by `open` and returned by
//! `close`, lowest free number first.
//!
//! Also the argument checks of the calls that take flags, and the flush counter the test harness reads.

use vstd::prelude::*;

use crate::abi::{EBADF, EFAULT, EINVAL, EMFILE, ENOTTY, ERANGE, O_APPEND, O_RDONLY, O_WRONLY};
use crate::fs::path::{abspath, spec_abspath};
use crate::console::utf8::{lossy, Utf8Decoder};
use crate::console::{written, written_all, Console, BG, FG, TAB_WIDTH};
use crate::exec::frame_stack::StdioBinding;
use crate::exec::usermem::{spec_allows, UserMemory};
use crate::fs::files::MAX_OPEN_FILES;
use crate::platform::base_addresses::{USER_BASE, USER_SIZE};
use crate::platform::uart::{crlf, UartTranscript};
use crate::text::{digits, push_digits, push_str, str_from_utf8};

verus! {

/// How many fds a program may have open at once: the three standard ones and one per open file, so
/// `open` runs out of both at the same moment.
pub const MAX_FDS: usize = 3 + MAX_OPEN_FILES;

/// `unlink` flags: remove an empty directory rather than a file.
pub const AT_REMOVEDIR: usize = 0x200;

/// The `ioctl` request that clears the console (and the terminal on the serial line with it).
pub const CONSOLE_CLEAR: usize = 1;

/// The only attribute bits `chmod` may change: the two this system exposes as permissions.
pub const CHMOD_BITS: u8 = 0x21;

/// What an fd refers to.
#[derive(Clone, Copy, Debug, PartialEq, Eq, Structural)]
pub enum FileDescriptor {
    Console,
    Keyboard,
    /// An open file, by its handle in the open-file table.
    File(usize),
}

/// What standard stream `n` is for a program, given the shell's binding for it: the file it is
/// bound to, else the keyboard for stdin and the console for the others.
pub open spec fn standard(binding: StdioBinding, n: int) -> FileDescriptor {
    match binding {
        StdioBinding::File(h) => FileDescriptor::File(h),
        StdioBinding::Default => if n == 0 { FileDescriptor::Keyboard } else { FileDescriptor::Console },
    }
}

/// The fd table: one slot per fd number.
pub struct FdTable {
    slots: Vec<Option<FileDescriptor>>,
}

impl FdTable {
    pub closed spec fn view(&self) -> Seq<Option<FileDescriptor>> {
        self.slots@
    }

    pub closed spec fn wf(&self) -> bool {
        self.slots@.len() == MAX_FDS
    }

    /// A table with every fd free.
    pub fn new() -> (t: Self)
        ensures
            t.wf(),
            t@ == Seq::new(MAX_FDS as nat, |i: int| None::<FileDescriptor>),
    {
        let mut slots: Vec<Option<FileDescriptor>> = Vec::new();
        while slots.len() < MAX_FDS
            invariant
                slots@.len() <= MAX_FDS,
                forall|i: int| 0 <= i < slots@.len() ==> #[trigger] slots@[i] is None,
            decreases MAX_FDS - slots@.len(),
        {
            slots.push(None);
        }
        let t = Self { slots };
        assert(t@ =~= Seq::new(MAX_FDS as nat, |i: int| None::<FileDescriptor>));
        t
    }

    /// Prepares the table for a new program: the three standard entries as the shell's `stdio`
    /// bindings say, every other fd free.
    pub fn reset_for_launch(&mut self, stdio: [StdioBinding; 3])
        ensures
            final(self).wf(),
            final(self)@.len() == MAX_FDS,
            forall|n: int| 0 <= n < 3 ==> #[trigger] final(self)@[n] == Some(standard(stdio[n], n)),
            forall|n: int| 3 <= n < MAX_FDS ==> #[trigger] final(self)@[n] is None,
    {
        let fresh = Self::new();
        self.slots = fresh.slots;
        let mut n: usize = 0;
        while n < 3
            invariant
                self.slots@.len() == MAX_FDS,
                n <= 3,
                forall|k: int| 0 <= k < n ==> #[trigger] self.slots@[k] == Some(standard(stdio[k], k)),
                forall|k: int| n <= k < MAX_FDS ==> #[trigger] self.slots@[k] is None,
            decreases 3 - n,
        {
            let d = match stdio[n] {
                StdioBinding::File(h) => FileDescriptor::File(h),
                StdioBinding::Default => if n == 0 { FileDescriptor::Keyboard } else { FileDescriptor::Console },
            };
            self.slots.set(n, Some(d));
            n += 1;
        }
    }

    /// Frees every fd, when a program has ended (on every path: exit or fault).
    pub fn end_launch(&mut self)
        ensures
            final(self).wf(),
            final(self)@ == Seq::new(MAX_FDS as nat, |i: int| None::<FileDescriptor>),
    {
        let fresh = Self::new();
        self.slots = fresh.slots;
    }

    /// What `fd` refers to, if it is open.
    pub fn for_fd(&self, fd: usize) -> (d: Option<FileDescriptor>)
        requires
            self.wf(),
        ensures
            d == if fd < MAX_FDS { self@[fd as int] } else { None },
    {
        if fd < self.slots.len() { self.slots[fd] } else { None }
    }

    /// The lowest free fd above the standard three, if there is one.
    pub fn free_fd(&self) -> (r: Option<usize>)
        requires
            self.wf(),
        ensures
            r matches Some(fd) ==> 3 <= fd < MAX_FDS && self@[fd as int] is None
                && forall|k: int| 3 <= k < fd ==> #[trigger] self@[k] is Some,
            r is None ==> forall|k: int| 3 <= k < MAX_FDS ==> #[trigger] self@[k] is Some,
    {
        let mut i: usize = 3;
        while i < self.slots.len()
            invariant
                self.wf(),
                3 <= i <= MAX_FDS,
                forall|k: int| 3 <= k < i ==> #[trigger] self@[k] is Some,
            decreases MAX_FDS - i,
        {
            if self.slots[i].is_none() {
                return Some(i);
            }
            i += 1;
        }
        None
    }

    /// Makes `fd` refer to `d`.
    pub fn install(&mut self, fd: usize, d: FileDescriptor)
        requires
            old(self).wf(),
            fd < MAX_FDS,
        ensures
            final(self).wf(),
            final(self)@ == old(self)@.update(fd as int, Some(d)),
    {
        self.slots.set(fd, Some(d));
    }

    /// Closes `fd`: frees the slot and returns what it referred to, or `EBADF` if it was not open.
    pub fn close(&mut self, fd: usize) -> (r: Result<FileDescriptor, isize>)
        requires
            old(self).wf(),
        ensures
            final(self).wf(),
            fd < MAX_FDS && old(self)@[fd as int] is Some ==> r == Ok::<FileDescriptor, isize>(old(self)@[fd as int]->0)
                && final(self)@ == old(self)@.update(fd as int, None),
            !(fd < MAX_FDS && old(self)@[fd as int] is Some) ==> r == Err::<FileDescriptor, isize>(EBADF)
                && final(self)@ == old(self)@,
    {
        if fd >= self.slots.len() {
            return Err(EBADF);
        }
        match self.slots[fd] {
            None => Err(EBADF),
            Some(d) => {
                self.slots.set(fd, None);
                Ok(d)
            },
        }
    }
}

/// Whether a system call may read (or, with `write`, write) the `len` bytes at `ptr` of the running
/// program's memory `mem`: `ptr` lies in the user window, and every byte is mapped with the needed
/// permission -- not the guard below the stack, not the gap after the program, and not the
/// program's own read-only pages when the kernel is about to write.
pub open spec fn spec_validate(mem: Seq<(usize, usize, bool)>, ptr: usize, len: usize, write: bool) -> bool {
    USER_BASE <= ptr <= USER_BASE + USER_SIZE && spec_allows(mem, ptr, len, write)
}

/// Checks a user pointer before the kernel touches it; see `spec_validate`.
pub fn validate(mem: &UserMemory, ptr: usize, len: usize, write: bool) -> (b: bool)
    ensures
        b == spec_validate(mem@, ptr, len, write),
{
    USER_BASE <= ptr && ptr <= USER_BASE + USER_SIZE && mem.allows(ptr, len, write)
}

/// What `read` (with `reading`) or `write` on `d` goes to, once the buffer has been checked
/// (`valid`): an fd that is not open is `EBADF`, a bad buffer `EFAULT`; the console cannot be read
/// nor the keyboard written (`EBADF`).
pub open spec fn spec_rw_target(d: Option<FileDescriptor>, valid: bool, reading: bool) -> Result<FileDescriptor, isize> {
    match d {
        None => Err(EBADF),
        Some(f) => if !valid {
            Err(EFAULT)
        } else if reading && f == FileDescriptor::Console || !reading && f == FileDescriptor::Keyboard {
            Err(EBADF)
        } else {
            Ok(f)
        },
    }
}

/// Decides where a `read` or `write` goes; see `spec_rw_target`.
pub fn rw_target(d: Option<FileDescriptor>, valid: bool, reading: bool) -> (r: Result<FileDescriptor, isize>)
    ensures
        r == spec_rw_target(d, valid, reading),
{
    match d {
        None => Err(EBADF),
        Some(f) => if !valid {
            Err(EFAULT)
        } else if reading && f == FileDescriptor::Console || !reading && f == FileDescriptor::Keyboard {
            Err(EBADF)
        } else {
            Ok(f)
        },
    }
}

/// What `read` and `write` accept: an open file, with a valid buffer, is both read and written; the
/// keyboard is read and the console written. A call that goes ahead goes to the fd it names, and
/// `EBADF` comes only from an fd that is not open, a read of the console or a write to the keyboard.
pub proof fn lemma_rw_targets(d: Option<FileDescriptor>, valid: bool, reading: bool)
    ensures
        forall|h: usize, rd: bool| #[trigger] spec_rw_target(Some(FileDescriptor::File(h)), true, rd)
            == Ok::<FileDescriptor, isize>(FileDescriptor::File(h)),
        spec_rw_target(Some(FileDescriptor::Keyboard), true, true) == Ok::<FileDescriptor, isize>(FileDescriptor::Keyboard),
        spec_rw_target(Some(FileDescriptor::Console), true, false) == Ok::<FileDescriptor, isize>(FileDescriptor::Console),
        spec_rw_target(d, valid, reading) matches Ok(f) ==> d == Some(f) && valid,
        spec_rw_target(d, valid, reading) == Err::<FileDescriptor, isize>(EBADF) ==> d is None
            || (reading && d == Some(FileDescriptor::Console)) || (!reading && d == Some(FileDescriptor::Keyboard)),
        d is Some && !valid ==> spec_rw_target(d, valid, reading) == Err::<FileDescriptor, isize>(EFAULT),
{
}

/// The open file `getdents` reads: the fd must be open on a file (`EBADF`), the buffer writable
/// user memory (`EFAULT`).
pub fn dir_target(d: Option<FileDescriptor>, valid: bool) -> (r: Result<usize, isize>)
    ensures
        r == (match d {
            Some(FileDescriptor::File(h)) => if valid { Ok::<usize, isize>(h) } else { Err(EFAULT) },
            _ => Err(EBADF),
        }),
{
    match d {
        Some(FileDescriptor::File(h)) => if valid { Ok(h) } else { Err(EFAULT) },
        _ => Err(EBADF),
    }
}

/// What `getcwd` returns for a working directory of `cwd_len` bytes and a buffer of `len`: `ERANGE`
/// if it does not fit, else `EFAULT` if the buffer is not writable user memory, else the length
/// copied (no terminating NUL).
pub fn getcwd_check(cwd_len: usize, len: usize, valid: bool) -> (r: Result<usize, isize>)
    ensures
        cwd_len > len ==> r == Err::<usize, isize>(ERANGE),
        cwd_len <= len && !valid ==> r == Err::<usize, isize>(EFAULT),
        cwd_len <= len && valid ==> r == Ok::<usize, isize>(cwd_len),
{
    if cwd_len > len {
        Err(ERANGE)
    } else if !valid {
        Err(EFAULT)
    } else {
        Ok(cwd_len)
    }
}

/// The absolute path a system call's path argument names, from its bytes (already checked to be
/// user memory) and the working directory: bytes that are not UTF-8 are `EINVAL`; then as `abspath`
/// resolves it.
pub open spec fn spec_user_path(bytes: Seq<u8>, cwd: Seq<char>) -> Result<Seq<char>, isize> {
    if !vstd::utf8::valid_utf8(bytes) {
        Err(EINVAL)
    } else {
        spec_abspath(cwd, vstd::utf8::decode_utf8(bytes))
    }
}

/// Resolves a system call's path argument; see `spec_user_path`.
pub fn user_path(bytes: &[u8], cwd: &str) -> (r: Result<String, isize>)
    ensures
        match spec_user_path(bytes@, cwd@) {
            Ok(p) => r matches Ok(s) && s@ == p,
            Err(e) => r == Err::<String, isize>(e),
        },
{
    match str_from_utf8(bytes) {
        None => Err(EINVAL),
        Some(text) => abspath(cwd, text),
    }
}

/// How `open`'s `flags` open a file, as (write, append): read only or write only, optionally with
/// `O_APPEND`; anything else is `EINVAL`.
pub open spec fn spec_open_mode(flags: usize) -> Result<(bool, bool), isize> {
    let append = flags & O_APPEND != 0;
    let rest = flags & !O_APPEND;
    if rest == O_RDONLY {
        Ok((false, append))
    } else if rest == O_WRONLY {
        Ok((true, append))
    } else {
        Err(EINVAL)
    }
}

/// Decodes `open`'s `flags`.
pub fn open_mode(flags: usize) -> (r: Result<(bool, bool), isize>)
    ensures
        r == spec_open_mode(flags),
{
    let append = flags & O_APPEND != 0;
    let rest = flags & !O_APPEND;
    if rest == O_RDONLY {
        Ok((false, append))
    } else if rest == O_WRONLY {
        Ok((true, append))
    } else {
        Err(EINVAL)
    }
}

/// `open`'s fd: the lowest free one above the standard three, or `EMFILE` when none is.
pub fn open_slot(table: &FdTable) -> (r: Result<usize, isize>)
    requires
        table.wf(),
    ensures
        r matches Ok(fd) ==> 3 <= fd < MAX_FDS && table@[fd as int] is None
            && forall|k: int| 3 <= k < fd ==> #[trigger] table@[k] is Some,
        r matches Err(e) ==> e == EMFILE && forall|k: int| 3 <= k < MAX_FDS ==> #[trigger] table@[k] is Some,
{
    match table.free_fd() {
        Some(fd) => Ok(fd),
        None => Err(EMFILE),
    }
}

/// `chmod`'s masks: each must fit in the attribute byte (else `EINVAL`).
pub fn chmod_masks(set: usize, clear: usize) -> (r: Result<(u8, u8), isize>)
    ensures
        set <= 0xff && clear <= 0xff ==> r == Ok::<(u8, u8), isize>((set as u8, clear as u8)),
        !(set <= 0xff && clear <= 0xff) ==> r == Err::<(u8, u8), isize>(EINVAL),
{
    if set <= 0xff && clear <= 0xff {
        Ok((set as u8, clear as u8))
    } else {
        Err(EINVAL)
    }
}

/// The attribute byte after `chmod` sets `set` and clears `clear`: only the read-only and executable
/// bits may be named (else `EINVAL`); what an entry is (a directory, a volume label) is no permission.
pub fn chmod_attrs(attrs: u8, set: u8, clear: u8) -> (r: Result<u8, isize>)
    ensures
        (set | clear) & !CHMOD_BITS != 0 ==> r == Err::<u8, isize>(EINVAL),
        (set | clear) & !CHMOD_BITS == 0 ==> r == Ok::<u8, isize>((attrs | set) & !clear),
{
    if (set | clear) & !CHMOD_BITS != 0 {
        return Err(EINVAL);
    }
    Ok((attrs | set) & !clear)
}

/// `unlink`'s `flags`: whether it removes a directory; any flag but `AT_REMOVEDIR` is `EINVAL`.
pub fn unlink_mode(flags: usize) -> (r: Result<bool, isize>)
    ensures
        flags & !AT_REMOVEDIR != 0 ==> r == Err::<bool, isize>(EINVAL),
        flags & !AT_REMOVEDIR == 0 ==> r == Ok::<bool, isize>(flags & AT_REMOVEDIR != 0),
{
    if flags & !AT_REMOVEDIR != 0 {
        return Err(EINVAL);
    }
    Ok(flags & AT_REMOVEDIR != 0)
}

/// What `ioctl(fd, request)` does: `Ok` for `CONSOLE_CLEAR` on the console (the caller clears it);
/// `EBADF` for an fd that is not open; `ENOTTY` for anything else.
pub fn ioctl_check(d: Option<FileDescriptor>, request: usize) -> (r: Result<(), isize>)
    ensures
        d is None ==> r == Err::<(), isize>(EBADF),
        d == Some(FileDescriptor::Console) && request == CONSOLE_CLEAR ==> r == Ok::<(), isize>(()),
        d is Some && !(d == Some(FileDescriptor::Console) && request == CONSOLE_CLEAR) ==> r == Err::<(), isize>(ENOTTY),
{
    match d {
        None => Err(EBADF),
        Some(FileDescriptor::Console) => if request == CONSOLE_CLEAR { Ok(()) } else { Err(ENOTTY) },
        Some(_) => Err(ENOTTY),
    }
}

/// How many times console writes have flushed the display since the last report -- for the test
/// harness, which reads the count off the serial line when a program ends.
pub struct FlushCounter {
    flushes: u64,
}

/// The line reporting `n` flushes.
pub open spec fn flush_report(n: nat) -> Seq<char> {
    "[testhooks] console_flushes="@ + digits(n, 10) + "\n"@
}

impl FlushCounter {
    pub closed spec fn count(&self) -> nat {
        self.flushes as nat
    }

    pub fn new() -> (c: Self)
        ensures
            c.count() == 0,
    {
        Self { flushes: 0 }
    }

    /// Counts one flush.
    pub fn count_flush(&mut self)
        requires
            old(self).count() < u64::MAX,
        ensures
            final(self).count() == old(self).count() + 1,
    {
        self.flushes = self.flushes + 1;
    }

    /// Writes the count to the serial transcript and starts again from zero. The transcript's
    /// line-start state is left as it was, since the harness strips this line from what it compares.
    pub fn report_and_reset(&mut self, uart: &mut UartTranscript)
        ensures
            final(self).count() == 0,
            final(uart).spec_at_line_start() == old(uart).spec_at_line_start(),
            final(uart).pending() == old(uart).pending() + crlf(vstd::utf8::encode_utf8(flush_report(old(self).count()))),
    {
        let n = self.flushes;
        self.flushes = 0;
        let was_at_line_start = uart.uart_at_line_start();
        let mut line = String::new();
        push_str(&mut line, "[testhooks] console_flushes=");
        push_digits(&mut line, n, 10);
        push_str(&mut line, "\n");
        let bytes = line.as_str().as_bytes();
        uart.uart_write(bytes);
        uart.set_uart_at_line_start(was_at_line_start);
    }
}

/// A program's console output: its bytes decoded after what the last write left unfinished (see
/// `lossy`) and drawn at the cursor, mirrored raw on the serial transcript -- so a character split
/// across two writes is intact there -- and the one display flush the caller then does counted.
pub fn console_write(
    console: &mut Console,
    uart: &mut UartTranscript,
    decoder: &mut Utf8Decoder,
    flushes: &mut FlushCounter,
    bytes: &[u8],
)
    requires
        old(console).wf(),
        old(console).spec_rows() >= 1,
        old(console).spec_cols() >= 2,
        old(console).spec_cols() + TAB_WIDTH <= usize::MAX,
        old(flushes).count() < u64::MAX,
    ensures
        final(console).wf(),
        final(console).spec_cols() == old(console).spec_cols(),
        final(console).spec_rows() == old(console).spec_rows(),
        final(console).spec_fb() == old(console).spec_fb(),
        final(console)@ == written_all(old(console)@, old(console).spec_cols(), old(console).spec_rows(),
            lossy(old(decoder).pending() + bytes@).0, FG, BG),
        final(decoder).pending() == lossy(old(decoder).pending() + bytes@).1,
        final(uart).pending() == old(uart).pending() + crlf(bytes@),
        final(uart).spec_at_line_start() == if bytes@.len() == 0 { old(uart).spec_at_line_start() } else { bytes@.last() == 10 },
        final(flushes).count() == old(flushes).count() + 1,
{
    let cs = decoder.push(bytes);
    console.write_chars(&cs, FG, BG);
    uart.uart_write(bytes);
    flushes.count_flush();
}

/// Ends a character a program left unfinished: it is drawn as one U+FFFD.
pub fn console_finish_stream(console: &mut Console, decoder: &mut Utf8Decoder)
    requires
        old(console).wf(),
        old(console).spec_rows() >= 1,
        old(console).spec_cols() >= 2,
        old(console).spec_cols() + TAB_WIDTH <= usize::MAX,
    ensures
        final(console).wf(),
        final(console).spec_cols() == old(console).spec_cols(),
        final(console).spec_rows() == old(console).spec_rows(),
        final(console).spec_fb() == old(console).spec_fb(),
        final(console)@ == if old(decoder).pending().len() > 0 {
            written(old(console)@, old(console).spec_cols(), old(console).spec_rows(), crate::console::font::REPLACEMENT, FG, BG)
        } else {
            old(console)@
        },
        final(decoder).pending() == Seq::<u8>::empty(),
{
    let cs = decoder.finish();
    console.write_chars(&cs, FG, BG);
    proof {
        reveal_with_fuel(written_all, 2);
        if cs@.len() > 0 {
            assert(cs@.drop_last() =~= Seq::<char>::empty());
        }
    }
}

/// Prepares the console for a message the kernel itself writes: a character left unfinished ends as
/// U+FFFD, and a fresh row starts if the cursor is mid-row.
pub fn console_start_line(console: &mut Console, decoder: &mut Utf8Decoder)
    requires
        old(console).wf(),
        old(console).spec_rows() >= 1,
        old(console).spec_cols() >= 2,
        old(console).spec_cols() + TAB_WIDTH <= usize::MAX,
    ensures
        final(console).wf(),
        final(console).spec_cols() == old(console).spec_cols(),
        final(console).spec_rows() == old(console).spec_rows(),
        final(console).spec_fb() == old(console).spec_fb(),
        ({
            let cols = old(console).spec_cols();
            let rows = old(console).spec_rows();
            let finished = if old(decoder).pending().len() > 0 {
                written(old(console)@, cols, rows, crate::console::font::REPLACEMENT, FG, BG)
            } else {
                old(console)@
            };
            final(console)@ == if finished.cursor.col != 0 { written(finished, cols, rows, '\n', FG, BG) } else { finished }
        }),
        final(decoder).pending() == Seq::<u8>::empty(),
{
    console_finish_stream(console, decoder);
    proof { console.lemma_wf(); }
    if console.cursor().1 != 0 {
        console.write_char('\n', FG, BG);
    }
}

} // verus!
