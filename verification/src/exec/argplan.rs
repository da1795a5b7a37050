//! Plans where a new program's argument strings and pointer array go on its initial stack, working
//! downward from the stack pointer: each string with its NUL terminator, then the pointer array (one
//! pointer per string plus a terminating null), 16-byte aligned. Pure layout: nothing is written.

use vstd::prelude::*;

verus! {

/// The addresses to write arguments and their pointer array at.
#[derive(Debug, PartialEq, Eq)]
pub struct ArgsPlan {
    /// The address of each string, in argument order (the first is the highest).
    pub strings: Vec<usize>,
    /// The address of the pointer array.
    pub array: usize,
}

/// The bytes the first `i` strings take, NUL terminators included.
pub open spec fn strings_size(lens: Seq<usize>, i: int) -> int
    decreases i,
{
    if i <= 0 { 0 } else { strings_size(lens, i - 1) + lens[i - 1] + 1 }
}

/// The size of one pointer of the target.
pub open spec fn ptr_size() -> int {
    vstd::layout::size_of::<usize>() as int
}

/// Whether the plan fits: no length is so large that its NUL terminator wraps, the strings fit below
/// `sp`, the pointer array fits below them, and its 16-byte-aligned base is at or above `floor`.
pub open spec fn plan_fits(sp: int, floor: int, lens: Seq<usize>) -> bool {
    let below = sp - strings_size(lens, lens.len() as int);
    let pointers = (lens.len() + 1) * ptr_size();
    &&& forall|k: int| 0 <= k < lens.len() ==> #[trigger] lens[k] < usize::MAX
    &&& below >= 0
    &&& pointers <= usize::MAX
    &&& pointers <= below
    &&& (below - pointers) - (below - pointers) % 16 >= floor
}

/// `p` is the layout for strings of lengths `lens` below `sp`: each string right below the one
/// before it, the first right below `sp`; the pointer array below the last string, its base rounded
/// down to 16 bytes.
pub open spec fn laid_out(p: ArgsPlan, sp: int, lens: Seq<usize>) -> bool {
    let below = sp - strings_size(lens, lens.len() as int);
    let pointers = (lens.len() + 1) * ptr_size();
    &&& p.strings@.len() == lens.len()
    &&& forall|i: int| 0 <= i < lens.len() ==> #[trigger] p.strings@[i] == sp - strings_size(lens, i + 1)
    &&& p.array == (below - pointers) - (below - pointers) % 16
}

proof fn lemma_strings_size_monotone(lens: Seq<usize>, i: int, j: int)
    requires
        0 <= i <= j <= lens.len(),
    ensures
        strings_size(lens, i) <= strings_size(lens, j),
    decreases j - i,
{
    if i < j {
        lemma_strings_size_monotone(lens, i, j - 1);
    }
}

/// Plans the memory layout for argument strings of lengths `lens` and their pointer array, from `sp`
/// downward. `None` if the layout would fall below `floor` or wrap around.
pub fn plan(sp: usize, floor: usize, lens: &[usize]) -> (r: Option<ArgsPlan>)
    ensures
        r is Some <==> plan_fits(sp as int, floor as int, lens@),
        r matches Some(p) ==> laid_out(p, sp as int, lens@),
{
    let mut cursor = sp;
    let mut strings: Vec<usize> = Vec::new();
    let mut i: usize = 0;
    while i < lens.len()
        invariant
            i <= lens@.len(),
            strings@.len() == i,
            cursor == sp - strings_size(lens@, i as int),
            forall|k: int| 0 <= k < i ==> #[trigger] lens@[k] < usize::MAX,
            forall|k: int| 0 <= k < i ==> #[trigger] strings@[k] == sp - strings_size(lens@, k + 1),
        decreases lens@.len() - i,
    {
        let len = lens[i];
        let step = match len.checked_add(1) {
            Some(s) => s,
            None => {
                assert(!plan_fits(sp as int, floor as int, lens@));
                return None;
            },
        };
        if cursor < step {
            proof {
                lemma_strings_size_monotone(lens@, i + 1, lens@.len() as int);
            }
            return None;
        }
        cursor = cursor - step;
        strings.push(cursor);
        i += 1;
    }
    proof {
        broadcast use vstd::layout::layout_of_primitives;
        assert(vstd::layout::size_of::<usize>() * 8 == usize::BITS);
        assert(usize::BITS == 32 || usize::BITS == 64);
    }
    let count = match lens.len().checked_add(1) {
        Some(c) => c,
        None => {
            assert((lens@.len() + 1) * ptr_size() > usize::MAX) by (nonlinear_arith)
                requires lens@.len() + 1 > usize::MAX, ptr_size() >= 1;
            return None;
        },
    };
    let pointers = match count.checked_mul(core::mem::size_of::<usize>()) {
        Some(p) => p,
        None => return None,
    };
    if cursor < pointers {
        return None;
    }
    let below = cursor - pointers;
    let array = below - below % 16;
    if array >= floor {
        Some(ArgsPlan { strings, array })
    } else {
        None
    }
}

/// What a layout guarantees: the pointer array's base is 16-byte aligned and its pointers (one per
/// string, plus the terminating null) end at or below the last string; the strings lie below `sp`,
/// in order, each with room for its terminator before the next.
pub proof fn lemma_layout_sound(p: ArgsPlan, sp: int, floor: int, lens: Seq<usize>)
    requires
        plan_fits(sp, floor, lens),
        laid_out(p, sp, lens),
    ensures
        p.array % 16 == 0,
        floor <= p.array,
        p.array + (lens.len() + 1) * ptr_size() <= sp - strings_size(lens, lens.len() as int),
        forall|i: int| 0 <= i < lens.len() ==> #[trigger] p.strings@[i] + lens[i] + 1 <= sp
            && (i > 0 ==> p.strings@[i] + lens[i] + 1 == p.strings@[i - 1]),
{
    let below = sp - strings_size(lens, lens.len() as int);
    let pointers = (lens.len() + 1) * ptr_size();
    assert((below - pointers) % 16 >= 0);
    assert(((below - pointers) - (below - pointers) % 16) % 16 == 0) by (nonlinear_arith)
        requires below - pointers >= 0;
    assert forall|i: int| 0 <= i < lens.len() implies #[trigger] p.strings@[i] + lens[i] + 1 <= sp
        && (i > 0 ==> p.strings@[i] + lens[i] + 1 == p.strings@[i - 1]) by {
        lemma_strings_size_monotone(lens, 0, i);
        assert(strings_size(lens, i + 1) == strings_size(lens, i) + lens[i] + 1);
    }
}

/// What `plan` needs below `sp`: every string with its NUL terminator, then one pointer per string
/// and a terminating null.
pub open spec fn needed(lens: Seq<usize>) -> int {
    strings_size(lens, lens.len() as int) + (lens.len() + 1) * ptr_size()
}

proof fn lemma_strings_size_covers(lens: Seq<usize>, k: int)
    requires
        0 <= k < lens.len(),
    ensures
        lens[k] + 1 <= strings_size(lens, lens.len() as int),
{
    lemma_strings_size_monotone(lens, k + 1, lens.len() as int);
    lemma_strings_size_monotone(lens, 0, k);
}

/// Rounding down to a multiple of 16 is clearing the low four bits.
pub proof fn lemma_round_down_16(x: usize)
    ensures
        x & !0xfusize == x - x % 16,
{
    assert(x & !0xfusize == x - x % 16) by (bit_vector);
}

/// When `plan` succeeds, in plain arithmetic: what it needs -- every string with its NUL, then a
/// pointer per string and a null, 8 bytes each on a 64-bit target -- fits below `sp`, and the pointer array's base, what is left
/// below rounded down to 16 bytes, is at or above `floor`.
pub proof fn lemma_plan_fits_iff(sp: usize, floor: usize, lens: Seq<usize>)
    ensures
        usize::BITS == 64 ==> needed(lens) == strings_size(lens, lens.len() as int) + 8 * (lens.len() + 1),
        plan_fits(sp as int, floor as int, lens) <==> (needed(lens) <= sp
            && (sp - needed(lens)) - (sp - needed(lens)) % 16 >= floor),
{
    broadcast use vstd::layout::layout_of_primitives;
    assert(vstd::layout::size_of::<usize>() * 8 == usize::BITS);
    assert(ptr_size() >= 1);
    assert((lens.len() + 1) * ptr_size() >= 0) by (nonlinear_arith)
        requires ptr_size() >= 1;
    lemma_strings_size_monotone(lens, 0, lens.len() as int);
    if needed(lens) <= sp {
        assert forall|k: int| 0 <= k < lens.len() implies #[trigger] lens[k] < usize::MAX by {
            lemma_strings_size_covers(lens, k);
        }
    }
}

/// On a 64-bit target the layout, spelled out: the first string right below `sp`, each next one
/// right below the one before, and below the last a 16-byte-aligned array of 8-byte pointers, one per
/// string and a null, at or above `floor`.
pub proof fn lemma_layout_64(p: ArgsPlan, sp: int, floor: int, lens: Seq<usize>)
    requires
        usize::BITS == 64,
        plan_fits(sp, floor, lens),
        laid_out(p, sp, lens),
    ensures
        p.strings@.len() == lens.len(),
        lens.len() > 0 ==> p.strings@[0] == sp - (lens[0] + 1),
        forall|i: int| 0 < i < lens.len() ==> #[trigger] p.strings@[i] == p.strings@[i - 1] - (lens[i] + 1),
        p.array % 16 == 0,
        floor <= p.array,
        p.array + 8 * (lens.len() + 1) <= if lens.len() == 0 { sp } else { p.strings@[lens.len() - 1] as int },
{
    broadcast use vstd::layout::layout_of_primitives;
    assert(vstd::layout::size_of::<usize>() * 8 == usize::BITS);
    assert(ptr_size() == 8);
    lemma_layout_sound(p, sp, floor, lens);
    assert(strings_size(lens, 0) == 0);
    if lens.len() > 0 {
        assert(strings_size(lens, 1) == lens[0] + 1);
    }
    assert forall|i: int| 0 < i < lens.len() implies #[trigger] p.strings@[i] == p.strings@[i - 1] - (lens[i] + 1) by {
        assert(strings_size(lens, i + 1) == strings_size(lens, i) + lens[i] + 1);
    }
}

} // verus!
