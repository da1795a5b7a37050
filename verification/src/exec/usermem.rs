//! What the running program has mapped in the user window, and with which permission: the loader
//! records each range as it locks it down, and a system call asks here before the kernel touches a
//! user pointer -- the kernel faults on an unmapped or read-only page just as a program does, and a
//! kernel fault is a panic, so a bad pointer has to be refused up front.

use vstd::prelude::*;

verus! {

/// Whether byte `a` lies in one of `regions` (each `(start, end, writable)`) that allows the access:
/// any mapped byte may be read, only a writable one written.
pub open spec fn covered(regions: Seq<(usize, usize, bool)>, a: int, write: bool) -> bool {
    exists|i: int| 0 <= i < regions.len() && #[trigger] regions[i].0 <= a && a < regions[i].1 && (regions[i].2 || !write)
}

/// Whether the `len` bytes at `ptr` may be accessed: the range does not wrap around the address
/// space, and every byte of it is covered.
pub open spec fn spec_allows(regions: Seq<(usize, usize, bool)>, ptr: usize, len: usize, write: bool) -> bool {
    &&& ptr + len <= usize::MAX
    &&& forall|a: int| ptr <= a < ptr + len ==> covered(regions, a, write)
}

/// The mapped ranges of the user window, in the order they were recorded.
pub struct UserMemory {
    regions: Vec<(usize, usize, bool)>,
}

impl View for UserMemory {
    type V = Seq<(usize, usize, bool)>;

    closed spec fn view(&self) -> Seq<(usize, usize, bool)> {
        self.regions@
    }
}

impl UserMemory {
    /// Nothing mapped.
    pub fn new() -> (m: Self)
        ensures
            m@ == Seq::<(usize, usize, bool)>::empty(),
    {
        Self { regions: Vec::new() }
    }

    /// Forgets everything, before a new program is loaded.
    pub fn clear(&mut self)
        ensures
            final(self)@ == Seq::<(usize, usize, bool)>::empty(),
    {
        self.regions = Vec::new();
    }

    /// Records `start..end` as mapped, writable or read-only.
    pub fn add(&mut self, start: usize, end: usize, writable: bool)
        ensures
            final(self)@ == old(self)@.push((start, end, writable)),
    {
        self.regions.push((start, end, writable));
    }

    /// Whether the kernel may read (or, with `write`, write) the `len` bytes at `ptr`. The end is
    /// computed with `checked_add`: a `ptr` near the top of the address space must not wrap around
    /// to a small sum and pass.
    pub fn allows(&self, ptr: usize, len: usize, write: bool) -> (b: bool)
        ensures
            b == spec_allows(self@, ptr, len, write),
    {
        let end = match ptr.checked_add(len) {
            Some(e) => e,
            None => return false,
        };
        let ghost regions = self@;
        let mut cur = ptr;
        while cur < end
            invariant
                regions == self@,
                ptr <= cur <= end,
                end == ptr + len,
                forall|a: int| ptr <= a < cur && a < end ==> covered(regions, a, write),
            decreases end - cur,
        {
            let mut i: usize = 0;
            let mut next: Option<usize> = None;
            while i < self.regions.len()
                invariant_except_break
                    next is None,
                    forall|j: int| 0 <= j < i ==> !(#[trigger] regions[j].0 <= cur && cur < regions[j].1 && (regions[j].2 || !write)),
                invariant
                    regions == self@,
                    i <= regions.len(),
                ensures
                    next matches Some(e) ==> e > cur && forall|a: int| cur <= a < e ==> covered(regions, a, write),
                    next is None ==> !covered(regions, cur as int, write),
                decreases regions.len() - i,
            {
                let (s, e, w) = self.regions[i];
                if s <= cur && cur < e && (w || !write) {
                    assert forall|a: int| cur <= a < e implies covered(regions, a, write) by {
                        assert(regions[i as int].0 <= a && a < regions[i as int].1 && (regions[i as int].2 || !write));
                    }
                    next = Some(e);
                    break;
                }
                i += 1;
            }
            match next {
                None => {
                    assert(!spec_allows(regions, ptr, len, write));
                    return false;
                },
                Some(e) => {
                    cur = if e < end { e } else { end };
                },
            }
        }
        true
    }
}

} // verus!
