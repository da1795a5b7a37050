//! The pure half of the ELF loader: validates a simple, statically-linked AArch64 executable and says
//! which segments to load where, without touching memory or the page table. Everything about the file
//! is checked before anything is copied or mapped, so a malformed binary is refused cleanly.

use vstd::prelude::*;

verus! {

/// The page size the loader maps in. Permissions are per page, so segments may not share one.
pub const PAGE_SIZE: usize = 4096;

/// `p_flags` bit meaning the segment should be mapped executable.
pub const PF_X: u32 = 1;

/// `p_flags` bit meaning the segment should be mapped writable.
pub const PF_W: u32 = 2;

/// Size of the ELF64 file header.
const EHDR_SIZE: usize = 64;

/// Size of the program header fields this loader reads.
const PHDR_SIZE: usize = 56;

/// Why a file was refused.
#[derive(Debug, Clone, Copy, PartialEq, Eq, Structural)]
pub enum ElfError {
    /// Shorter than an ELF header.
    TooSmall,
    /// Doesn't start with `\x7fELF`.
    NotElf,
    /// Not 64-bit.
    Not64Bit,
    /// Not little-endian.
    NotLittleEndian,
    /// Not `ET_EXEC` (a statically-linked executable).
    NotExecutable,
    /// Not AArch64.
    WrongMachine,
    /// The program header table doesn't fit in the file, or its entries are too small.
    BadProgramHeaders,
    /// No non-empty `PT_LOAD` segment at all.
    NoLoadSegment,
    /// A `PT_LOAD` segment reaches outside the user window (or wraps around the address space).
    SegmentOutsideWindow,
    /// A `PT_LOAD` segment's file bytes lie (partly) beyond the end of the file.
    SegmentTruncated,
    /// A `PT_LOAD` segment's `p_memsz` is smaller than its `p_filesz`.
    BadSegmentSize,
    /// Two `PT_LOAD` segments occupy (part of) the same page.
    SegmentsShareAPage,
    /// The entry point isn't inside any loaded segment.
    BadEntry,
    /// The page table refused a mapping.
    MapFailed,
}

/// One `PT_LOAD` segment, already checked: its file bytes are `offset..offset+filesz` of the file and
/// it occupies `vaddr..vaddr+memsz` of the user window.
#[derive(Debug, Clone, Copy, PartialEq, Eq, Structural)]
pub struct Segment {
    pub vaddr: usize,
    pub offset: usize,
    pub filesz: usize,
    pub memsz: usize,
    pub flags: u32,
}

/// A validated executable: where to start, and what to load.
#[derive(Debug, PartialEq, Eq)]
pub struct Parsed {
    pub entry: usize,
    pub segments: Vec<Segment>,
}

/// The little-endian value of `s`.
pub open spec fn le(s: Seq<u8>) -> nat
    decreases s.len(),
{
    if s.len() == 0 {
        0
    } else {
        s[0] as nat + 256 * le(s.drop_first())
    }
}

pub open spec fn pow256(n: nat) -> nat
    decreases n,
{
    if n == 0 { 1 } else { 256 * pow256((n - 1) as nat) }
}

/// The little-endian field `width` bytes wide at `off` in `elf`.
pub open spec fn field(elf: Seq<u8>, off: int, width: int) -> nat {
    le(elf.subrange(off, off + width))
}

pub open spec fn usize_max() -> nat {
    usize::MAX as nat
}

/// Whether the header starts with the ELF magic number.
pub open spec fn has_magic(elf: Seq<u8>) -> bool {
    elf[0] == 0x7f && elf[1] == 0x45 && elf[2] == 0x4c && elf[3] == 0x46
}

/// What is wrong with the file header, if anything (`e_ident`, `e_type`, `e_machine`).
pub open spec fn header_error(elf: Seq<u8>) -> Option<ElfError> {
    if elf.len() < 64 {
        Some(ElfError::TooSmall)
    } else if !has_magic(elf) {
        Some(ElfError::NotElf)
    } else if elf[4] != 2 {
        Some(ElfError::Not64Bit)
    } else if elf[5] != 1 {
        Some(ElfError::NotLittleEndian)
    } else if field(elf, 16, 2) != 2 {
        Some(ElfError::NotExecutable)
    } else if field(elf, 18, 2) != 183 {
        Some(ElfError::WrongMachine)
    } else {
        None
    }
}

pub open spec fn e_entry(elf: Seq<u8>) -> nat { field(elf, 24, 8) }
pub open spec fn e_phoff(elf: Seq<u8>) -> nat { field(elf, 32, 8) }
pub open spec fn e_phentsize(elf: Seq<u8>) -> nat { field(elf, 54, 2) }
pub open spec fn e_phnum(elf: Seq<u8>) -> nat { field(elf, 56, 2) }

/// Whether the program header table lies inside the file with entries big enough to hold the fields
/// read from them (checked without wrapping around).
pub open spec fn table_ok(elf: Seq<u8>) -> bool {
    &&& e_phentsize(elf) >= 56
    &&& e_phoff(elf) <= usize_max()
    &&& e_phnum(elf) * e_phentsize(elf) <= usize_max()
    &&& e_phoff(elf) + e_phnum(elf) * e_phentsize(elf) <= usize_max()
    &&& e_phoff(elf) + e_phnum(elf) * e_phentsize(elf) <= elf.len()
}

/// What the program header at byte offset `at` contributes: nothing (not `PT_LOAD`, or empty), a
/// segment, or the reason it is refused.
pub open spec fn segment_at(elf: Seq<u8>, at: int, ws: int, we: int) -> Result<Option<Segment>, ElfError> {
    let p_type = field(elf, at, 4);
    let flags = field(elf, at + 4, 4);
    let offset = field(elf, at + 8, 8);
    let vaddr = field(elf, at + 16, 8);
    let filesz = field(elf, at + 32, 8);
    let memsz = field(elf, at + 40, 8);
    if p_type != 1 {
        Ok(None)
    } else if vaddr > usize_max() || memsz > usize_max() {
        Err(ElfError::SegmentOutsideWindow)
    } else if filesz > usize_max() || offset > usize_max() {
        Err(ElfError::SegmentTruncated)
    } else if memsz < filesz {
        Err(ElfError::BadSegmentSize)
    } else if memsz == 0 {
        Ok(None)
    } else if vaddr + memsz > usize_max() || vaddr < ws || vaddr + memsz > we {
        Err(ElfError::SegmentOutsideWindow)
    } else if offset + filesz > usize_max() || offset + filesz > elf.len() {
        Err(ElfError::SegmentTruncated)
    } else {
        Ok(Some(Segment {
            vaddr: vaddr as usize,
            offset: offset as usize,
            filesz: filesz as usize,
            memsz: memsz as usize,
            flags: flags as u32,
        }))
    }
}

/// The loadable segments of the first `n` program headers, in table order, or the first refusal.
pub open spec fn scan(elf: Seq<u8>, n: nat, ws: int, we: int) -> Result<Seq<Segment>, ElfError>
    decreases n,
{
    if n == 0 {
        Ok(Seq::empty())
    } else {
        match scan(elf, (n - 1) as nat, ws, we) {
            Err(e) => Err(e),
            Ok(segs) => match segment_at(elf, e_phoff(elf) + (n - 1) * e_phentsize(elf), ws, we) {
                Err(e) => Err(e),
                Ok(None) => Ok(segs),
                Ok(Some(s)) => Ok(segs.push(s)),
            },
        }
    }
}

pub open spec fn page_down(x: int) -> int {
    x - x % (PAGE_SIZE as int)
}

pub open spec fn page_up(x: int) -> int {
    page_down(x + PAGE_SIZE - 1)
}

/// Whether two segments touch a common page.
pub open spec fn share_a_page(a: Segment, b: Segment) -> bool {
    page_down(a.vaddr as int) < page_up(b.vaddr + b.memsz) && page_down(b.vaddr as int) < page_up(a.vaddr + a.memsz)
}

pub open spec fn any_share_a_page(segs: Seq<Segment>) -> bool {
    exists|i: int, j: int| 0 <= i < j < segs.len() && share_a_page(#[trigger] segs[i], #[trigger] segs[j])
}

pub open spec fn contains_addr(s: Segment, addr: int) -> bool {
    s.vaddr <= addr < s.vaddr + s.memsz
}

pub open spec fn entry_loaded(segs: Seq<Segment>, entry: int) -> bool {
    exists|k: int| 0 <= k < segs.len() && contains_addr(#[trigger] segs[k], entry)
}

/// What `parse` makes of `elf` with the user window `ws..we`: the entry point and the segments, or
/// the first reason the file is refused.
pub open spec fn spec_parse(elf: Seq<u8>, ws: int, we: int) -> Result<(usize, Seq<Segment>), ElfError> {
    match header_error(elf) {
        Some(e) => Err(e),
        None => if !table_ok(elf) {
            Err(ElfError::BadProgramHeaders)
        } else {
            match scan(elf, e_phnum(elf), ws, we) {
                Err(e) => Err(e),
                Ok(segs) => if segs.len() == 0 {
                    Err(ElfError::NoLoadSegment)
                } else if any_share_a_page(segs) {
                    Err(ElfError::SegmentsShareAPage)
                } else if e_entry(elf) > usize_max() || !entry_loaded(segs, e_entry(elf) as int) {
                    Err(ElfError::BadEntry)
                } else {
                    Ok((e_entry(elf) as usize, segs))
                },
            }
        },
    }
}

proof fn lemma_le_step(s: Seq<u8>, a: int, b: int)
    requires
        0 <= a < b <= s.len(),
    ensures
        le(s.subrange(a, b)) == s[a] as nat + 256 * le(s.subrange(a + 1, b)),
{
    assert(s.subrange(a, b).drop_first() =~= s.subrange(a + 1, b));
}

proof fn lemma_pow256_8()
    ensures
        pow256(2) == 0x1_0000,
        pow256(4) == 0x1_0000_0000,
        pow256(8) == 0x1_0000_0000_0000_0000,
{
    reveal_with_fuel(pow256, 9);
}

/// Reads the `n`-byte little-endian field at `off`.
fn read_le(data: &[u8], off: usize, n: usize) -> (v: u64)
    requires
        off + n <= data@.len(),
        off + n <= usize::MAX,
        n <= 8,
    ensures
        v as nat == field(data@, off as int, n as int),
        (v as nat) < pow256(n as nat),
{
    let mut v: u64 = 0;
    let mut i: usize = n;
    proof {
        assert(data@.subrange(off + n, off + n).len() == 0);
        lemma_pow256_8();
    }
    while i > 0
        invariant
            i <= n <= 8,
            off + n <= data@.len(),
            off + n <= usize::MAX,
            v as nat == le(data@.subrange(off + i, off + n)),
            (v as nat) < pow256((n - i) as nat),
            pow256(8) == 0x1_0000_0000_0000_0000,
        decreases i,
    {
        i -= 1;
        proof {
            lemma_le_step(data@, (off + i) as int, (off + n) as int);
            lemma_pow256_monotone((n - i - 1) as nat, 7);
        }
        v = v * 256 + data[off + i] as u64;
    }
    v
}

proof fn lemma_pow256_monotone(a: nat, b: nat)
    requires
        a <= b,
    ensures
        pow256(a) <= pow256(b),
    decreases b,
{
    if a < b {
        lemma_pow256_monotone(a, (b - 1) as nat);
    }
}

proof fn lemma_entry_in_table(i: nat, n: nat, pe: nat)
    requires
        i < n,
    ensures
        i * pe + pe <= n * pe,
{
    assert(i * pe + pe == (i + 1) * pe) by (nonlinear_arith);
    assert((i + 1) * pe <= n * pe) by (nonlinear_arith)
        requires i + 1 <= n;
}

proof fn lemma_scan_err_persists(elf: Seq<u8>, i: nat, n: nat, ws: int, we: int)
    requires
        i <= n,
        scan(elf, i, ws, we) is Err,
    ensures
        scan(elf, n, ws, we) == scan(elf, i, ws, we),
    decreases n - i,
{
    if i < n {
        lemma_scan_err_persists(elf, i, (n - 1) as nat, ws, we);
    }
}

/// The program header with these fields, checked as `segment_at` says.
fn segment_from(
    p_type: u64,
    flags: u64,
    offset_raw: u64,
    vaddr_raw: u64,
    filesz_raw: u64,
    memsz_raw: u64,
    len: usize,
    window_start: usize,
    window_end: usize,
) -> (r: Result<Option<Segment>, ElfError>)
    requires
        (flags as nat) < pow256(4),
        pow256(4) == 0x1_0000_0000,
    ensures
        r == ({
            let (vaddr, memsz, filesz, offset) = (vaddr_raw as nat, memsz_raw as nat, filesz_raw as nat, offset_raw as nat);
            if p_type != 1 {
                Ok(None)
            } else if vaddr > usize_max() || memsz > usize_max() {
                Err(ElfError::SegmentOutsideWindow)
            } else if filesz > usize_max() || offset > usize_max() {
                Err(ElfError::SegmentTruncated)
            } else if memsz < filesz {
                Err(ElfError::BadSegmentSize)
            } else if memsz == 0 {
                Ok(None)
            } else if vaddr + memsz > usize_max() || vaddr < window_start || vaddr + memsz > window_end {
                Err(ElfError::SegmentOutsideWindow)
            } else if offset + filesz > usize_max() || offset + filesz > len {
                Err(ElfError::SegmentTruncated)
            } else {
                Ok(Some(Segment {
                    vaddr: vaddr as usize,
                    offset: offset as usize,
                    filesz: filesz as usize,
                    memsz: memsz as usize,
                    flags: flags as u32,
                }))
            }
        }),
{
    if p_type != 1 {
        return Ok(None);
    }
    if vaddr_raw > usize::MAX as u64 || memsz_raw > usize::MAX as u64 {
        return Err(ElfError::SegmentOutsideWindow);
    }
    if filesz_raw > usize::MAX as u64 || offset_raw > usize::MAX as u64 {
        return Err(ElfError::SegmentTruncated);
    }
    let vaddr = vaddr_raw as usize;
    let memsz = memsz_raw as usize;
    let filesz = filesz_raw as usize;
    let offset = offset_raw as usize;
    if memsz < filesz {
        return Err(ElfError::BadSegmentSize);
    }
    if memsz == 0 {
        return Ok(None);
    }
    let end = match vaddr.checked_add(memsz) {
        Some(e) => e,
        None => return Err(ElfError::SegmentOutsideWindow),
    };
    if vaddr < window_start || end > window_end {
        return Err(ElfError::SegmentOutsideWindow);
    }
    match offset.checked_add(filesz) {
        None => return Err(ElfError::SegmentTruncated),
        Some(file_end) => if file_end > len {
            return Err(ElfError::SegmentTruncated);
        },
    }
    Ok(Some(Segment { vaddr, offset, filesz, memsz, flags: flags as u32 }))
}

fn page_down_exec(x: usize) -> (r: usize)
    ensures
        r == page_down(x as int),
{
    x - x % PAGE_SIZE
}

/// The page-aligned extent of `s`'s memory.
fn pages(s: &Segment) -> (r: (usize, usize))
    requires
        s.vaddr + s.memsz + PAGE_SIZE - 1 <= usize::MAX,
    ensures
        r.0 == page_down(s.vaddr as int),
        r.1 == page_up(s.vaddr + s.memsz),
{
    (page_down_exec(s.vaddr), page_down_exec(s.vaddr + s.memsz + (PAGE_SIZE - 1)))
}

/// Validates `elf` as a simple, statically-linked AArch64 executable whose loadable segments fit in
/// `window_start..window_end`, and returns what to load. Touches nothing.
pub fn parse(elf: &[u8], window_start: usize, window_end: usize) -> (r: Result<Parsed, ElfError>)
    requires
        window_end + PAGE_SIZE - 1 <= usize::MAX,
    ensures
        match spec_parse(elf@, window_start as int, window_end as int) {
            Ok((entry, segs)) => r matches Ok(p) && p.entry == entry && p.segments@ == segs,
            Err(e) => r == Err::<Parsed, ElfError>(e),
        },
{
    let ghost ws = window_start as int;
    let ghost we = window_end as int;
    let len = elf.len();
    if len < EHDR_SIZE {
        return Err(ElfError::TooSmall);
    }
    if !(elf[0] == 0x7f && elf[1] == 0x45 && elf[2] == 0x4c && elf[3] == 0x46) {
        return Err(ElfError::NotElf);
    }
    if elf[4] != 2 {
        return Err(ElfError::Not64Bit);
    }
    if elf[5] != 1 {
        return Err(ElfError::NotLittleEndian);
    }
    if read_le(elf, 16, 2) != 2 {
        return Err(ElfError::NotExecutable);
    }
    if read_le(elf, 18, 2) != 183 {
        return Err(ElfError::WrongMachine);
    }
    assert(header_error(elf@) is None);
    proof { lemma_pow256_8(); }

    // The whole program header table must be inside the file, with entries at least as big as the
    // fields read (a larger `e_phentsize` is legal and just means extra fields).
    let phentsize = read_le(elf, 54, 2) as usize;
    if phentsize < PHDR_SIZE {
        return Err(ElfError::BadProgramHeaders);
    }
    let phoff_raw = read_le(elf, 32, 8);
    if phoff_raw > usize::MAX as u64 {
        return Err(ElfError::BadProgramHeaders);
    }
    let phoff = phoff_raw as usize;
    let phnum = read_le(elf, 56, 2) as usize;
    let table_len = match phnum.checked_mul(phentsize) {
        Some(t) => t,
        None => return Err(ElfError::BadProgramHeaders),
    };
    let table_end = match phoff.checked_add(table_len) {
        Some(t) => t,
        None => return Err(ElfError::BadProgramHeaders),
    };
    if table_end > len {
        return Err(ElfError::BadProgramHeaders);
    }
    assert(table_ok(elf@));

    let mut segments: Vec<Segment> = Vec::new();
    let mut i: usize = 0;
    while i < phnum
        invariant
            table_ok(elf@),
            header_error(elf@) is None,
            len == elf@.len(),
            phnum == e_phnum(elf@),
            phentsize == e_phentsize(elf@),
            phoff == e_phoff(elf@),
            phoff + phnum * phentsize <= len,
            ws == window_start,
            we == window_end,
            window_end + PAGE_SIZE - 1 <= usize::MAX,
            i <= phnum,
            scan(elf@, i as nat, ws, we) == Ok::<Seq<Segment>, ElfError>(segments@),
            forall|k: int| 0 <= k < segments@.len() ==> #[trigger] segments@[k].vaddr + segments@[k].memsz <= window_end,
        decreases phnum - i,
    {
        proof {
            lemma_entry_in_table(i as nat, phnum as nat, phentsize as nat);
        }
        let at = phoff + i * phentsize;
        let p_type = read_le(elf, at, 4);
        let flags = read_le(elf, at + 4, 4);
        let offset_raw = read_le(elf, at + 8, 8);
        let vaddr_raw = read_le(elf, at + 16, 8);
        let filesz_raw = read_le(elf, at + 32, 8);
        let memsz_raw = read_le(elf, at + 40, 8);
        let ghost step = segment_at(elf@, at as int, ws, we);
        assert(scan(elf@, (i + 1) as nat, ws, we) == match step {
            Err(e) => Err(e),
            Ok(None) => Ok(segments@),
            Ok(Some(s)) => Ok(segments@.push(s)),
        });
        proof { lemma_pow256_8(); }
        let step = segment_from(p_type, flags, offset_raw, vaddr_raw, filesz_raw, memsz_raw, len, window_start, window_end);
        assert(step == segment_at(elf@, at as int, ws, we));
        match step {
            Err(e) => {
                proof { lemma_scan_err_persists(elf@, (i + 1) as nat, phnum as nat, ws, we); }
                return Err(e);
            },
            Ok(None) => {},
            Ok(Some(seg)) => {
                segments.push(seg);
            },
        }
        i += 1;
    }

    let ghost facts = header_error(elf@) is None && table_ok(elf@)
        && scan(elf@, e_phnum(elf@), ws, we) == Ok::<Seq<Segment>, ElfError>(segments@);
    assert(facts);
    if segments.len() == 0 {
        return Err(ElfError::NoLoadSegment);
    }
    // Permissions are per page, so each segment needs pages of its own.
    let n = segments.len();
    let mut a: usize = 0;
    while a < n
        invariant
            n == segments@.len(),
            a <= n,
            forall|k: int| 0 <= k < segments@.len() ==> #[trigger] segments@[k].vaddr + segments@[k].memsz <= window_end,
            window_end + PAGE_SIZE - 1 <= usize::MAX,
            facts == (header_error(elf@) is None && table_ok(elf@)
                && scan(elf@, e_phnum(elf@), ws, we) == Ok::<Seq<Segment>, ElfError>(segments@)),
            facts,
            n > 0,
            ws == window_start,
            we == window_end,
            forall|x: int, y: int| 0 <= x < a && x < y < n ==> !share_a_page(#[trigger] segments@[x], #[trigger] segments@[y]),
        decreases n - a,
    {
        let (a_start, a_end) = pages(&segments[a]);
        let mut b: usize = a + 1;
        while b < n
            invariant
                n == segments@.len(),
                a < n,
                a + 1 <= b <= n,
                a_start == page_down(segments@[a as int].vaddr as int),
                a_end == page_up(segments@[a as int].vaddr + segments@[a as int].memsz),
                forall|k: int| 0 <= k < segments@.len() ==> #[trigger] segments@[k].vaddr + segments@[k].memsz <= window_end,
                window_end + PAGE_SIZE - 1 <= usize::MAX,
                facts == (header_error(elf@) is None && table_ok(elf@)
                    && scan(elf@, e_phnum(elf@), ws, we) == Ok::<Seq<Segment>, ElfError>(segments@)),
                facts,
                n > 0,
                ws == window_start,
                we == window_end,
                forall|x: int, y: int| 0 <= x < a && x < y < n ==> !share_a_page(#[trigger] segments@[x], #[trigger] segments@[y]),
                forall|y: int| a < y < b ==> !share_a_page(segments@[a as int], #[trigger] segments@[y]),
            decreases n - b,
        {
            let (b_start, b_end) = pages(&segments[b]);
            if a_start < b_end && b_start < a_end {
                proof {
                    assert(share_a_page(segments@[a as int], segments@[b as int]));
                    assert(any_share_a_page(segments@));
                    assert(segments@.len() != 0);
                    assert(scan(elf@, e_phnum(elf@), ws, we) == Ok::<Seq<Segment>, ElfError>(segments@));
                    assert(spec_parse(elf@, ws, we) == Err::<(usize, Seq<Segment>), ElfError>(ElfError::SegmentsShareAPage));
                }
                return Err(ElfError::SegmentsShareAPage);
            }
            b += 1;
        }
        a += 1;
    }
    assert(!any_share_a_page(segments@));

    let entry_raw = read_le(elf, 24, 8);
    if entry_raw > usize::MAX as u64 {
        return Err(ElfError::BadEntry);
    }
    let entry = entry_raw as usize;
    let mut k: usize = 0;
    let mut found = false;
    while k < n
        invariant
            n == segments@.len(),
            k <= n,
            found ==> entry_loaded(segments@, entry as int),
            !found ==> forall|j: int| 0 <= j < k ==> !contains_addr(#[trigger] segments@[j], entry as int),
            forall|j: int| 0 <= j < segments@.len() ==> #[trigger] segments@[j].vaddr + segments@[j].memsz <= window_end,
        decreases n - k,
    {
        let s = segments[k];
        if entry >= s.vaddr && entry < s.vaddr + s.memsz {
            proof {
                assert(contains_addr(segments@[k as int], entry as int));
            }
            found = true;
        }
        k += 1;
    }
    if !found {
        return Err(ElfError::BadEntry);
    }
    Ok(Parsed { entry, segments })
}

/// A segment `parse` may accept: non-empty, its memory inside the window `ws..we`, its file bytes
/// inside the file, and at least as much memory as file bytes.
pub open spec fn loadable(s: Segment, file_len: int, ws: int, we: int) -> bool {
    &&& 0 < s.memsz
    &&& s.filesz <= s.memsz
    &&& ws <= s.vaddr
    &&& s.vaddr + s.memsz <= we
    &&& s.offset + s.filesz <= file_len
}

proof fn lemma_scan_loadable(elf: Seq<u8>, n: nat, ws: int, we: int)
    requires
        scan(elf, n, ws, we) is Ok,
    ensures
        forall|i: int| 0 <= i < scan(elf, n, ws, we)->Ok_0.len()
            ==> loadable(#[trigger] scan(elf, n, ws, we)->Ok_0[i], elf.len() as int, ws, we),
    decreases n,
{
    if n > 0 {
        lemma_scan_loadable(elf, (n - 1) as nat, ws, we);
    }
}

/// What `parse` accepts can be loaded as it is: every segment is non-empty, lies inside the window
/// and takes its file bytes from inside the file; no two segments share a page; and the entry point
/// lies inside a segment.
pub proof fn lemma_parse_accepts_only_loadable(elf: Seq<u8>, ws: int, we: int)
    requires
        spec_parse(elf, ws, we) is Ok,
    ensures
        ({
            let (entry, segs) = spec_parse(elf, ws, we)->Ok_0;
            &&& segs.len() > 0
            &&& forall|i: int| 0 <= i < segs.len() ==> loadable(#[trigger] segs[i], elf.len() as int, ws, we)
            &&& !any_share_a_page(segs)
            &&& entry_loaded(segs, entry as int)
        }),
{
    lemma_scan_loadable(elf, e_phnum(elf), ws, we);
}

} // verus!
