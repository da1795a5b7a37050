//! What loading an executable into the user window takes, as a plan the page-table code carries out
//! in order: unmap every page range the previous program was given (last mapped first); for each
//! segment, map its pages writable, zero them whole and copy its file bytes in; map and zero the
//! stack; then lock each segment's pages down to the segment's own permissions -- code read and
//! execute, read-only data read-only, the rest read and write, never executable. Everything about
//! the file is validated first (`elfparse`), so a malformed file is an `Err` and nothing is planned.

use vstd::prelude::*;

use super::elfparse::{
    lemma_parse_accepts_only_loadable, loadable, page_down, page_up, parse, share_a_page, spec_parse, ElfError, Segment,
    PAGE_SIZE, PF_W, PF_X,
};
use super::usermem::{covered, spec_allows, UserMemory};
use crate::platform::base_addresses::{USER_BASE, USER_IMAGE_END, USER_STACK_BOTTOM, USER_STACK_TOP};

verus! {

/// One segment's filling: its pages `start..end` mapped writable and zeroed, then the file's bytes
/// `offset..offset + filesz` copied to `vaddr`.
#[derive(Clone, Copy, Debug, PartialEq, Eq, Structural)]
pub struct Fill {
    pub start: usize,
    pub end: usize,
    pub vaddr: usize,
    pub offset: usize,
    pub filesz: usize,
}

/// One segment's final permissions, over its pages `start..end`. An executable segment's pages are
/// also made visible to instruction fetch.
#[derive(Clone, Copy, Debug, PartialEq, Eq, Structural)]
pub struct Lock {
    pub start: usize,
    pub end: usize,
    pub writable: bool,
    pub executable: bool,
}

/// Everything a load does, in order: `unmap`, then `fills`, then the stack
/// (`USER_STACK_BOTTOM..USER_STACK_TOP`, mapped writable and zeroed), then `locks`. `mapped` is what
/// the load leaves mapped, in the order it maps it: what the next load unmaps.
pub struct LoadPlan {
    pub entry: usize,
    pub unmap: Vec<(usize, usize)>,
    pub fills: Vec<Fill>,
    pub locks: Vec<Lock>,
    pub mapped: Vec<(usize, usize)>,
}

/// How segment `s` is filled.
pub open spec fn fill_of(s: Segment) -> Fill {
    Fill {
        start: page_down(s.vaddr as int) as usize,
        end: page_up(s.vaddr + s.memsz) as usize,
        vaddr: s.vaddr,
        offset: s.offset,
        filesz: s.filesz,
    }
}

/// How segment `s` is locked down: writable if its flags say `PF_W`, executable if `PF_X`.
pub open spec fn lock_of(s: Segment) -> Lock {
    Lock {
        start: page_down(s.vaddr as int) as usize,
        end: page_up(s.vaddr + s.memsz) as usize,
        writable: s.flags & PF_W != 0,
        executable: s.flags & PF_X != 0,
    }
}

/// `p` loads `segs` with entry point `entry` after a program that left `mapped` mapped.
pub open spec fn planned(p: LoadPlan, entry: usize, segs: Seq<Segment>, mapped: Seq<(usize, usize)>) -> bool {
    &&& p.entry == entry
    &&& p.unmap@ == mapped.reverse()
    &&& p.fills@ == segs.map_values(|s: Segment| fill_of(s))
    &&& p.locks@ == segs.map_values(|s: Segment| lock_of(s))
    &&& p.mapped@ == segs.map_values(|s: Segment| (fill_of(s).start, fill_of(s).end))
        .push((USER_STACK_BOTTOM, USER_STACK_TOP))
}

/// The page-aligned extent of `s`'s memory.
pub fn pages_of(s: &Segment) -> (r: (usize, usize))
    requires
        s.vaddr + s.memsz + PAGE_SIZE - 1 <= usize::MAX,
    ensures
        r.0 == page_down(s.vaddr as int),
        r.1 == page_up(s.vaddr + s.memsz),
{
    let end = s.vaddr + s.memsz + (PAGE_SIZE - 1);
    (s.vaddr - s.vaddr % PAGE_SIZE, end - end % PAGE_SIZE)
}

/// Plans loading `elf` into the user window (its image part, `USER_BASE..USER_IMAGE_END`), after a
/// program that left `mapped` mapped; refuses a file `parse` refuses, for the same reason.
pub fn plan_load(elf: &[u8], mapped: &[(usize, usize)]) -> (r: Result<LoadPlan, ElfError>)
    ensures
        match spec_parse(elf@, USER_BASE as int, USER_IMAGE_END as int) {
            Err(e) => r == Err::<LoadPlan, ElfError>(e),
            Ok((entry, segs)) => r matches Ok(p) && planned(p, entry, segs, mapped@),
        },
{
    let parsed = match parse(elf, USER_BASE, USER_IMAGE_END) {
        Ok(p) => p,
        Err(e) => return Err(e),
    };
    let ghost segs = parsed.segments@;
    proof { lemma_parse_accepts_only_loadable(elf@, USER_BASE as int, USER_IMAGE_END as int); }
    let mut unmap: Vec<(usize, usize)> = Vec::new();
    let mut k = mapped.len();
    while k > 0
        invariant
            k <= mapped@.len(),
            unmap@ == mapped@.subrange(k as int, mapped@.len() as int).reverse(),
        decreases k,
    {
        k -= 1;
        unmap.push(mapped[k]);
        assert(unmap@ =~= mapped@.subrange(k as int, mapped@.len() as int).reverse());
    }
    assert(mapped@.subrange(0, mapped@.len() as int) =~= mapped@);
    let mut fills: Vec<Fill> = Vec::new();
    let mut locks: Vec<Lock> = Vec::new();
    let mut ranges: Vec<(usize, usize)> = Vec::new();
    let mut i: usize = 0;
    while i < parsed.segments.len()
        invariant
            segs == parsed.segments@,
            forall|j: int| 0 <= j < segs.len() ==> loadable(#[trigger] segs[j], elf@.len() as int, USER_BASE as int, USER_IMAGE_END as int),
            i <= segs.len(),
            fills@ == segs.take(i as int).map_values(|s: Segment| fill_of(s)),
            locks@ == segs.take(i as int).map_values(|s: Segment| lock_of(s)),
            ranges@ == segs.take(i as int).map_values(|s: Segment| (fill_of(s).start, fill_of(s).end)),
        decreases segs.len() - i,
    {
        let s = parsed.segments[i];
        assert(loadable(segs[i as int], elf@.len() as int, USER_BASE as int, USER_IMAGE_END as int));
        let (start, end) = pages_of(&s);
        fills.push(Fill { start, end, vaddr: s.vaddr, offset: s.offset, filesz: s.filesz });
        locks.push(Lock { start, end, writable: s.flags & PF_W != 0, executable: s.flags & PF_X != 0 });
        ranges.push((start, end));
        proof {
            assert(segs.take(i + 1) =~= segs.take(i as int).push(s));
            assert(fills@ =~= segs.take(i + 1).map_values(|s: Segment| fill_of(s)));
            assert(locks@ =~= segs.take(i + 1).map_values(|s: Segment| lock_of(s)));
            assert(ranges@ =~= segs.take(i + 1).map_values(|s: Segment| (fill_of(s).start, fill_of(s).end)));
        }
        i += 1;
    }
    assert(segs.take(segs.len() as int) =~= segs);
    ranges.push((USER_STACK_BOTTOM, USER_STACK_TOP));
    Ok(LoadPlan { entry: parsed.entry, unmap, fills, locks, mapped: ranges })
}

/// A load locks each segment down to exactly the permissions its ELF flags grant: a segment's pages
/// end up writable exactly when its `p_flags` has `PF_W` -- read-only data stays read-only -- and
/// executable exactly when it has `PF_X`, over the pages the segment occupies; one lock per segment,
/// in order.
pub proof fn lemma_locks_follow_segment_flags(elf: Seq<u8>, mapped: Seq<(usize, usize)>, p: LoadPlan)
    requires
        spec_parse(elf, USER_BASE as int, USER_IMAGE_END as int) is Ok,
        ({
            let (entry, segs) = spec_parse(elf, USER_BASE as int, USER_IMAGE_END as int)->Ok_0;
            planned(p, entry, segs, mapped)
        }),
    ensures
        ({
            let segs = spec_parse(elf, USER_BASE as int, USER_IMAGE_END as int)->Ok_0.1;
            &&& p.locks@.len() == segs.len()
            &&& forall|i: int| 0 <= i < segs.len() ==> {
                &&& (#[trigger] p.locks@[i]).writable == (segs[i].flags & PF_W != 0)
                &&& p.locks@[i].executable == (segs[i].flags & PF_X != 0)
                &&& p.locks@[i].start <= segs[i].vaddr
                &&& segs[i].vaddr + segs[i].memsz <= p.locks@[i].end
            }
        }),
{
    let segs = spec_parse(elf, USER_BASE as int, USER_IMAGE_END as int)->Ok_0.1;
    lemma_parse_accepts_only_loadable(elf, USER_BASE as int, USER_IMAGE_END as int);
    assert forall|i: int| 0 <= i < segs.len() implies {
        &&& (#[trigger] p.locks@[i]).writable == (segs[i].flags & PF_W != 0)
        &&& p.locks@[i].executable == (segs[i].flags & PF_X != 0)
        &&& p.locks@[i].start <= segs[i].vaddr
        &&& segs[i].vaddr + segs[i].memsz <= p.locks@[i].end
    } by {
        assert(p.locks@[i] == lock_of(segs[i]));
        assert(loadable(segs[i], elf.len() as int, USER_BASE as int, USER_IMAGE_END as int));
    }
}

/// What a completed load leaves mapped, as the system calls check it: the stack, writable, then each
/// segment's pages with the segment's own write permission.
pub open spec fn mapped_memory(locks: Seq<Lock>) -> Seq<(usize, usize, bool)> {
    seq![(USER_STACK_BOTTOM, USER_STACK_TOP, true)] + locks.map_values(|l: Lock| (l.start, l.end, l.writable))
}

/// The user memory a completed `plan` leaves mapped.
pub fn memory_of(plan: &LoadPlan) -> (m: UserMemory)
    ensures
        m@ == mapped_memory(plan.locks@),
{
    let mut m = UserMemory::new();
    m.add(USER_STACK_BOTTOM, USER_STACK_TOP, true);
    let mut i: usize = 0;
    while i < plan.locks.len()
        invariant
            i <= plan.locks@.len(),
            m@ == mapped_memory(plan.locks@.take(i as int)),
        decreases plan.locks@.len() - i,
    {
        let l = plan.locks[i];
        m.add(l.start, l.end, l.writable);
        proof {
            assert(plan.locks@.take(i + 1) =~= plan.locks@.take(i as int).push(l));
            assert(mapped_memory(plan.locks@.take(i + 1)) =~= mapped_memory(plan.locks@.take(i as int)).push((l.start, l.end, l.writable)));
        }
        i += 1;
    }
    assert(plan.locks@.take(plan.locks@.len() as int) =~= plan.locks@);
    m
}

proof fn lemma_pages_in_image(s: Segment, file_len: int)
    requires
        loadable(s, file_len, USER_BASE as int, USER_IMAGE_END as int),
    ensures
        USER_BASE <= page_down(s.vaddr as int),
        page_down(s.vaddr as int) <= s.vaddr,
        s.vaddr + s.memsz <= page_up(s.vaddr + s.memsz) <= USER_IMAGE_END,
{
    assert(USER_BASE as int % 4096 == 0);
    assert(USER_IMAGE_END as int % 4096 == 0);
}

/// Of a completed load: which region of its memory is which -- the stack first, then segment `k`'s
/// pages at index `k + 1`, all inside the image part of the window.
proof fn lemma_mapped_regions(elf: Seq<u8>, p: LoadPlan, mapped: Seq<(usize, usize)>)
    requires
        spec_parse(elf, USER_BASE as int, USER_IMAGE_END as int) is Ok,
        planned(
            p,
            spec_parse(elf, USER_BASE as int, USER_IMAGE_END as int)->Ok_0.0,
            spec_parse(elf, USER_BASE as int, USER_IMAGE_END as int)->Ok_0.1,
            mapped,
        ),
    ensures
        ({
            let segs = spec_parse(elf, USER_BASE as int, USER_IMAGE_END as int)->Ok_0.1;
            let m = mapped_memory(p.locks@);
            &&& m.len() == segs.len() + 1
            &&& m[0] == (USER_STACK_BOTTOM, USER_STACK_TOP, true)
            &&& forall|k: int| 0 <= k < segs.len() ==> {
                &&& #[trigger] m[k + 1] == (lock_of(segs[k]).start, lock_of(segs[k]).end, lock_of(segs[k]).writable)
                &&& USER_BASE <= m[k + 1].0
                &&& m[k + 1].1 <= USER_IMAGE_END
                &&& m[k + 1].0 == page_down(segs[k].vaddr as int)
                &&& m[k + 1].1 == page_up(segs[k].vaddr + segs[k].memsz)
            }
        }),
{
    let segs = spec_parse(elf, USER_BASE as int, USER_IMAGE_END as int)->Ok_0.1;
    lemma_parse_accepts_only_loadable(elf, USER_BASE as int, USER_IMAGE_END as int);
    let m = mapped_memory(p.locks@);
    assert forall|k: int| 0 <= k < segs.len() implies {
        &&& #[trigger] m[k + 1] == (lock_of(segs[k]).start, lock_of(segs[k]).end, lock_of(segs[k]).writable)
        &&& USER_BASE <= m[k + 1].0
        &&& m[k + 1].1 <= USER_IMAGE_END
        &&& m[k + 1].0 == page_down(segs[k].vaddr as int)
        &&& m[k + 1].1 == page_up(segs[k].vaddr + segs[k].memsz)
    } by {
        assert(loadable(segs[k], elf.len() as int, USER_BASE as int, USER_IMAGE_END as int));
        lemma_pages_in_image(segs[k], elf.len() as int);
        assert(p.locks@[k] == lock_of(segs[k]));
    }
}

/// Whether `a` lies in the user window outside the guard: in the program image or the stack.
pub open spec fn outside_guard(a: int) -> bool {
    USER_BASE <= a < USER_STACK_TOP && !(USER_IMAGE_END <= a < USER_STACK_BOTTOM)
}

/// A pointer range that validates against what a load left mapped lies inside the user window and
/// never reaches into the unmapped guard between the program image and the stack.
pub proof fn lemma_valid_ranges_avoid_the_guard(
    elf: Seq<u8>,
    p: LoadPlan,
    mapped: Seq<(usize, usize)>,
    ptr: usize,
    len: usize,
    write: bool,
)
    requires
        spec_parse(elf, USER_BASE as int, USER_IMAGE_END as int) is Ok,
        planned(
            p,
            spec_parse(elf, USER_BASE as int, USER_IMAGE_END as int)->Ok_0.0,
            spec_parse(elf, USER_BASE as int, USER_IMAGE_END as int)->Ok_0.1,
            mapped,
        ),
        spec_allows(mapped_memory(p.locks@), ptr, len, write),
    ensures
        forall|a: int| ptr <= a < ptr + len ==> #[trigger] outside_guard(a),
{
    lemma_mapped_regions(elf, p, mapped);
    let segs = spec_parse(elf, USER_BASE as int, USER_IMAGE_END as int)->Ok_0.1;
    let m = mapped_memory(p.locks@);
    assert forall|a: int| ptr <= a < ptr + len implies #[trigger] outside_guard(a) by {
        assert(covered(m, a, write));
        let i = choose|i: int| 0 <= i < m.len() && #[trigger] m[i].0 <= a && a < m[i].1 && (m[i].2 || !write);
        if i > 0 {
            assert(m[(i - 1) + 1].0 <= a);
        }
    }
}

/// Whether byte `a` lies in the pages `l` locks down.
pub open spec fn in_lock(l: Lock, a: int) -> bool {
    l.start <= a < l.end
}

/// A write that validates against what a load left mapped never touches the pages of a segment
/// loaded without write permission: the loader's segments share no page, and the stack lies above
/// them all.
pub proof fn lemma_valid_writes_avoid_read_only_segments(
    elf: Seq<u8>,
    p: LoadPlan,
    mapped: Seq<(usize, usize)>,
    ptr: usize,
    len: usize,
)
    requires
        spec_parse(elf, USER_BASE as int, USER_IMAGE_END as int) is Ok,
        planned(
            p,
            spec_parse(elf, USER_BASE as int, USER_IMAGE_END as int)->Ok_0.0,
            spec_parse(elf, USER_BASE as int, USER_IMAGE_END as int)->Ok_0.1,
            mapped,
        ),
        spec_allows(mapped_memory(p.locks@), ptr, len, true),
    ensures
        forall|k: int, a: int|
            0 <= k < p.locks@.len() && !p.locks@[k].writable && ptr <= a < ptr + len
                ==> !#[trigger] in_lock(p.locks@[k], a),
{
    lemma_mapped_regions(elf, p, mapped);
    lemma_parse_accepts_only_loadable(elf, USER_BASE as int, USER_IMAGE_END as int);
    let segs = spec_parse(elf, USER_BASE as int, USER_IMAGE_END as int)->Ok_0.1;
    let m = mapped_memory(p.locks@);
    assert forall|k: int, a: int|
        0 <= k < p.locks@.len() && !p.locks@[k].writable && ptr <= a < ptr + len
            implies !#[trigger] in_lock(p.locks@[k], a) by {
        if in_lock(p.locks@[k], a) {
            assert(m[k + 1].0 <= a);
            assert(covered(m, a, true));
            let i = choose|i: int| 0 <= i < m.len() && #[trigger] m[i].0 <= a && a < m[i].1 && (m[i].2 || !true);
            if i == 0 {
                assert(m[k + 1].1 <= USER_IMAGE_END);
            } else {
                let j = i - 1;
                assert(m[j + 1].0 <= a);
                assert(j != k);
                if j < k {
                    assert(share_a_page(segs[j], segs[k]));
                } else {
                    assert(share_a_page(segs[k], segs[j]));
                }
            }
        }
    }
}

} // verus!
