//! The shape a flattened device tree blob must have before its nodes are walked: a header whose
//! structure and strings blocks lie inside the blob, and a structure block that is a well-nested
//! sequence of tokens -- node begin (with a NUL-terminated UTF-8 name), property (its value inside the
//! block, its name a NUL-terminated UTF-8 string of the strings block), node end, no-op -- ending in
//! the end token at nesting depth zero, nested at most 63 deep. A cell-size property
//! (`#address-cells`, `#size-cells`) holds at least one cell.

use vstd::prelude::*;
use vstd::slice::slice_subrange;
use vstd::utf8::{decode_utf8, valid_utf8};

use crate::text::{str_eq, str_from_utf8};

verus! {

/// The header's magic number.
pub const FDT_MAGIC: u32 = 0xd00d_feed;
/// The size of the header, in bytes.
pub const FDT_HEADER_SIZE: usize = 40;
/// Structure-block token: a node begins.
pub const FDT_BEGIN_NODE: u32 = 1;
/// Structure-block token: a node ends.
pub const FDT_END_NODE: u32 = 2;
/// Structure-block token: a property.
pub const FDT_PROP: u32 = 3;
/// Structure-block token: nothing.
pub const FDT_NOP: u32 = 4;
/// Structure-block token: the block ends.
pub const FDT_END: u32 = 5;
/// How deep nodes may nest: the root is at depth one.
pub const MAX_NODE_DEPTH: usize = 63;

/// The big-endian 32-bit value at `i`.
pub open spec fn be32(s: Seq<u8>, i: int) -> int {
    s[i] * 0x100_0000 + s[i + 1] * 0x1_0000 + s[i + 2] * 0x100 + s[i + 3]
}

/// Where the NUL-terminated string at `i` ends: the first zero byte at or after `i`, or the end of `s`.
pub open spec fn nul_at(s: Seq<u8>, i: int) -> int
    decreases s.len() - i,
{
    if i < 0 || i >= s.len() {
        s.len() as int
    } else if s[i] == 0 {
        i
    } else {
        nul_at(s, i + 1)
    }
}

/// The string at `i` ends at or after `i`, and at most at the end of `s`.
pub proof fn lemma_nul_at_bounds(s: Seq<u8>, i: int)
    requires
        0 <= i <= s.len(),
    ensures
        i <= nul_at(s, i) <= s.len(),
    decreases s.len() - i,
{
    if i < s.len() && s[i] != 0 {
        lemma_nul_at_bounds(s, i + 1);
    }
}

/// Whether a NUL-terminated UTF-8 string starts at `i` of `s`.
pub open spec fn cstr_ok(s: Seq<u8>, i: int) -> bool {
    0 <= i <= s.len() && nul_at(s, i) < s.len() && valid_utf8(s.subrange(i, nul_at(s, i)))
}

/// `n` rounded up to a multiple of four.
pub open spec fn align4(n: int) -> int {
    (n + 3) / 4 * 4
}

/// Rounding up never goes below the number rounded.
pub proof fn lemma_align4(n: int)
    requires
        n >= 0,
    ensures
        n <= align4(n) <= n + 3,
{
    assert(n <= (n + 3) / 4 * 4 <= n + 3) by (nonlinear_arith)
        requires n >= 0;
}

/// Whether a property with a `len`-byte value may be named by offset `off` into the strings block
/// `t`: the name is a string there, and a cell-size property holds a whole cell.
pub open spec fn prop_name_ok(t: Seq<u8>, off: int, len: int) -> bool {
    &&& cstr_ok(t, off)
    &&& len < 4 ==> {
        let name = decode_utf8(t.subrange(off, nul_at(t, off)));
        name != "#address-cells"@ && name != "#size-cells"@
    }
}

/// Whether the structure block `s` read from `pos` on, `depth` nodes deep, is well formed, with
/// property names from the strings block `t`.
pub open spec fn walk_ok(s: Seq<u8>, t: Seq<u8>, pos: int, depth: int) -> bool
    decreases s.len() - pos,
{
    if pos < 0 || pos + 4 > s.len() {
        false
    } else {
        let tok = be32(s, pos);
        if tok == FDT_NOP {
            walk_ok(s, t, pos + 4, depth)
        } else if tok == FDT_END {
            depth == 0
        } else if tok == FDT_BEGIN_NODE {
            proof {
                lemma_nul_at_bounds(s, pos + 4);
                lemma_align4(nul_at(s, pos + 4) - pos - 3);
            }
            &&& depth < MAX_NODE_DEPTH
            &&& cstr_ok(s, pos + 4)
            &&& pos + 4 + align4(nul_at(s, pos + 4) - pos - 3) <= s.len()
            &&& walk_ok(s, t, pos + 4 + align4(nul_at(s, pos + 4) - pos - 3), depth + 1)
        } else if tok == FDT_END_NODE {
            depth > 0 && walk_ok(s, t, pos + 4, depth - 1)
        } else if tok == FDT_PROP {
            proof {
                lemma_align4(be32(s, pos + 4));
            }
            &&& depth > 0
            &&& pos + 12 <= s.len()
            &&& pos + 12 + be32(s, pos + 4) <= s.len()
            &&& prop_name_ok(t, be32(s, pos + 8), be32(s, pos + 4))
            &&& pos + 12 + align4(be32(s, pos + 4)) <= s.len()
            &&& walk_ok(s, t, pos + 12 + align4(be32(s, pos + 4)), depth)
        } else {
            false
        }
    }
}

/// Where the header puts the structure block: (offset, size).
pub open spec fn struct_block(blob: Seq<u8>) -> (int, int) {
    (be32(blob, 8), be32(blob, 36))
}

/// Where the header puts the strings block: (offset, size).
pub open spec fn strings_block(blob: Seq<u8>) -> (int, int) {
    (be32(blob, 12), be32(blob, 32))
}

/// Whether `blob` is a device tree whose nodes can be walked: a whole header with the right magic
/// and a total size within the blob, both blocks inside the blob, and a well-formed structure block.
pub open spec fn spec_walkable(blob: Seq<u8>) -> bool {
    &&& blob.len() >= FDT_HEADER_SIZE
    &&& be32(blob, 0) == FDT_MAGIC
    &&& be32(blob, 4) <= blob.len()
    &&& struct_block(blob).0 + struct_block(blob).1 <= blob.len()
    &&& strings_block(blob).0 + strings_block(blob).1 <= blob.len()
    &&& walk_ok(
        blob.subrange(struct_block(blob).0, struct_block(blob).0 + struct_block(blob).1),
        blob.subrange(strings_block(blob).0, strings_block(blob).0 + strings_block(blob).1),
        0,
        0,
    )
}

/// The big-endian 32-bit value at `i`.
fn read_be32(s: &[u8], i: usize) -> (v: u32)
    requires
        i + 4 <= s@.len(),
    ensures
        v == be32(s@, i as int),
{
    let v: u64 = (s[i] as u64) * 0x100_0000 + (s[i + 1] as u64) * 0x1_0000 + (s[i + 2] as u64) * 0x100
        + (s[i + 3] as u64);
    v as u32
}

/// Where the NUL-terminated string at `i` ends.
fn find_nul(s: &[u8], i: usize) -> (n: usize)
    requires
        i <= s@.len(),
    ensures
        n == nul_at(s@, i as int),
{
    let mut k = i;
    while k < s.len()
        invariant
            i <= k <= s@.len(),
            nul_at(s@, i as int) == nul_at(s@, k as int),
        decreases s@.len() - k,
    {
        if s[k] == 0 {
            return k;
        }
        k += 1;
    }
    k
}

/// The string at `i`, if a NUL-terminated UTF-8 one starts there.
fn cstr_at(s: &[u8], i: usize) -> (r: Option<&str>)
    requires
        i <= s@.len(),
    ensures
        r is Some <==> cstr_ok(s@, i as int),
        r matches Some(text) ==> text@ == decode_utf8(s@.subrange(i as int, nul_at(s@, i as int))),
{
    let n = find_nul(s, i);
    proof {
        lemma_nul_at_bounds(s@, i as int);
    }
    if n >= s.len() {
        return None;
    }
    str_from_utf8(slice_subrange(s, i, n))
}

/// Whether `blob` is a device tree whose nodes can be walked.
pub fn walkable(blob: &[u8]) -> (b: bool)
    ensures
        b == spec_walkable(blob@),
{
    if blob.len() < FDT_HEADER_SIZE || read_be32(blob, 0) != FDT_MAGIC || read_be32(blob, 4) as usize > blob.len() {
        return false;
    }
    let so = read_be32(blob, 8) as usize;
    let ss = read_be32(blob, 36) as usize;
    let to = read_be32(blob, 12) as usize;
    let ts = read_be32(blob, 32) as usize;
    if so > blob.len() || ss > blob.len() - so || to > blob.len() || ts > blob.len() - to {
        return false;
    }
    walk(slice_subrange(blob, so, so + ss), slice_subrange(blob, to, to + ts))
}

/// Whether the structure block `s` is well formed from its start, at depth zero.
fn walk(s: &[u8], t: &[u8]) -> (b: bool)
    ensures
        b == walk_ok(s@, t@, 0, 0),
{
    let mut pos: usize = 0;
    let mut depth: usize = 0;
    loop
        invariant
            pos <= s@.len(),
            depth <= MAX_NODE_DEPTH,
            walk_ok(s@, t@, 0, 0) == walk_ok(s@, t@, pos as int, depth as int),
        decreases s@.len() - pos,
    {
        if s.len() - pos < 4 {
            return false;
        }
        let tok = read_be32(s, pos);
        if tok == FDT_NOP {
            pos = pos + 4;
        } else if tok == FDT_END {
            return depth == 0;
        } else if tok == FDT_BEGIN_NODE {
            if depth >= MAX_NODE_DEPTH {
                return false;
            }
            if cstr_at(s, pos + 4).is_none() {
                return false;
            }
            let n = find_nul(s, pos + 4);
            proof {
                lemma_nul_at_bounds(s@, pos + 4);
            }
            // The name with its NUL, then padding to a four-byte boundary.
            let full = n + 1 - (pos + 4);
            let pad = (4 - full % 4) % 4;
            proof {
                assert(align4(full as int) == full + pad) by (nonlinear_arith)
                    requires
                        pad == (4 - full % 4) % 4;
            }
            if s.len() - (n + 1) < pad {
                return false;
            }
            pos = n + 1 + pad;
            depth = depth + 1;
        } else if tok == FDT_END_NODE {
            if depth == 0 {
                return false;
            }
            pos = pos + 4;
            depth = depth - 1;
        } else if tok == FDT_PROP {
            if depth == 0 || s.len() - pos < 12 {
                return false;
            }
            let len = read_be32(s, pos + 4) as usize;
            let off = read_be32(s, pos + 8) as usize;
            if len > s.len() - pos - 12 || off > t.len() {
                return false;
            }
            let name = match cstr_at(t, off) {
                Some(name) => name,
                None => return false,
            };
            if len < 4 && (str_eq(name, "#address-cells") || str_eq(name, "#size-cells")) {
                return false;
            }
            let end = pos + 12 + len;
            let pad = (4 - len % 4) % 4;
            proof {
                assert(align4(len as int) == len + pad) by (nonlinear_arith)
                    requires
                        pad == (4 - len % 4) % 4;
            }
            if s.len() - end < pad {
                return false;
            }
            pos = end + pad;
        } else {
            return false;
        }
    }
}

} // verus!
