//! Decoding a program's console output, which is UTF-8 written in pieces: a `write` can end in the
//! middle of a character, so the bytes of an unfinished one are kept for the next; an invalid
//! sequence is drawn as one U+FFFD, as `String::from_utf8_lossy` would.

use vstd::prelude::*;
use vstd::utf8::{
    decode_utf8, decode_utf8_split, is_char_boundary, is_char_boundary_iff_not_is_continuation_byte,
    is_char_boundary_start_end_of_seq, is_continuation_byte, partial_valid_partial_invalid_utf8, valid_utf8,
    valid_utf8_split,
};

use super::font::REPLACEMENT;
use crate::text::{chars_of, str_from_utf8};

verus! {

/// Where `std::str::from_utf8` stops on `bytes`: how many of them form valid UTF-8 (`valid_up_to`),
/// and, if not all do, how long the invalid sequence after them is (`error_len`) -- `None` when the
/// bytes end partway through a character.
pub uninterp spec fn utf8_stop(bytes: Seq<u8>) -> (nat, Option<nat>);

/// `std::str::from_utf8` on `bytes`, reduced to where it stops: all of them and no error if they are
/// valid, else the error's `valid_up_to` and `error_len`. As std documents them: valid bytes are
/// accepted whole; `valid_up_to` is the longest prefix that is valid UTF-8; `error_len` is the length (at least
/// one byte, within `bytes`) of an unexpected sequence, and `None` when the bytes instead end partway
/// through a character -- so certainly when the rest could still be completed into valid UTF-8.
#[verifier::external_body]
fn from_utf8_stop(bytes: &[u8]) -> (r: (usize, Option<usize>))
    ensures
        utf8_stop(bytes@) == (r.0 as nat, match r.1 { Some(k) => Some(k as nat), None => None::<nat> }),
        r.0 <= bytes@.len(),
        valid_utf8(bytes@.take(r.0 as int)),
        forall|m: int| r.0 < m <= bytes@.len() ==> !valid_utf8(#[trigger] bytes@.take(m)),
        valid_utf8(bytes@) ==> r.0 == bytes@.len(),
        r.0 == bytes@.len() ==> r.1 is None,
        r.1 matches Some(k) ==> 1 <= k && r.0 + k <= bytes@.len(),
        r.0 < bytes@.len() && (exists|ext: Seq<u8>| #[trigger] valid_utf8(bytes@.skip(r.0 as int) + ext)) ==> r.1 is None,
{
    match std::str::from_utf8(bytes) {
        Ok(text) => (text.len(), None),
        Err(e) => (e.valid_up_to(), e.error_len()),
    }
}

/// What decoding `bytes` gives: the characters, with each invalid sequence as one U+FFFD, and the
/// bytes of a last character not yet finished.
pub open spec fn lossy(bytes: Seq<u8>) -> (Seq<char>, Seq<u8>)
    decreases bytes.len(),
{
    let (n, err) = utf8_stop(bytes);
    if n >= bytes.len() {
        (decode_utf8(bytes), Seq::empty())
    } else {
        match err {
            None => (decode_utf8(bytes.take(n as int)), bytes.skip(n as int)),
            Some(k) => {
                let skip = n + if k == 0 { 1 } else { k };
                if skip <= bytes.len() {
                    let rest = lossy(bytes.skip(skip as int));
                    (decode_utf8(bytes.take(n as int)) + seq![REPLACEMENT] + rest.0, rest.1)
                } else {
                    (decode_utf8(bytes.take(n as int)) + seq![REPLACEMENT], Seq::empty())
                }
            },
        }
    }
}

/// A valid prefix of valid UTF-8 ends on a character boundary: a continuation byte right after it
/// would leave the rest invalid.
proof fn lemma_valid_prefix_is_boundary(x: Seq<u8>, m: int)
    requires
        valid_utf8(x),
        0 <= m <= x.len(),
        valid_utf8(x.take(m)),
    ensures
        is_char_boundary(x, m),
{
    if m == x.len() {
        is_char_boundary_start_end_of_seq(x);
    } else {
        is_char_boundary_iff_not_is_continuation_byte(x, m);
        if is_continuation_byte(x[m]) {
            let rest = x.subrange(m, x.len() as int);
            assert(rest[0] == x[m]);
            assert(!valid_utf8(rest));
            assert(x.take(m) =~= x.subrange(0, m));
            partial_valid_partial_invalid_utf8(x, m);
        }
    }
}

/// Splitting the valid `x = t + ext` after a valid prefix `t.take(n)` of `t`: the rest is valid, and
/// the characters are those of the two parts.
proof fn lemma_split_after_valid_prefix(t: Seq<u8>, ext: Seq<u8>, n: int)
    requires
        valid_utf8(t + ext),
        0 <= n <= t.len(),
        valid_utf8(t.take(n)),
    ensures
        valid_utf8(t.skip(n) + ext),
        decode_utf8(t + ext) == decode_utf8(t.take(n)) + decode_utf8(t.skip(n) + ext),
{
    let x = t + ext;
    assert(x.take(n) =~= t.take(n));
    lemma_valid_prefix_is_boundary(x, n);
    valid_utf8_split(x, n);
    decode_utf8_split(x, n);
    assert(x.subrange(0, n) =~= t.take(n));
    assert(x.subrange(n, x.len() as int) =~= t.skip(n) + ext);
}

/// The bytes of `v` from `from` on.
fn tail(v: &Vec<u8>, from: usize) -> (r: Vec<u8>)
    requires
        from <= v@.len(),
    ensures
        r@ == v@.skip(from as int),
{
    let mut r: Vec<u8> = Vec::new();
    let mut i = from;
    while i < v.len()
        invariant
            from <= i <= v@.len(),
            r@ == v@.subrange(from as int, i as int),
        decreases v@.len() - i,
    {
        r.push(v[i]);
        i += 1;
        assert(r@ =~= v@.subrange(from as int, i as int));
    }
    assert(r@ =~= v@.skip(from as int));
    r
}

/// Where decoding goes on after one stop of `std::str::from_utf8`.
#[derive(Clone, Copy, Debug, PartialEq, Eq, Structural)]
pub enum Resume {
    /// Every byte was decoded.
    Done,
    /// The bytes from here on are an unfinished character, kept for the next write.
    Pending(usize),
    /// An invalid sequence was replaced; decoding goes on from here.
    From(usize),
}

/// What `from_utf8` stopping at `n` with `err` (see `utf8_stop`) means for `len` bytes.
pub open spec fn spec_resume(len: nat, n: nat, err: Option<nat>) -> Resume {
    if n >= len {
        Resume::Done
    } else {
        match err {
            None => Resume::Pending(n as usize),
            Some(k) => Resume::From((n + k) as usize),
        }
    }
}

/// The characters one stop yields: those of the valid prefix, and one U+FFFD for an invalid sequence.
pub open spec fn spec_stop_chars(bytes: Seq<u8>, n: nat, err: Option<nat>) -> Seq<char> {
    decode_utf8(bytes.take(n as int)) + if n < bytes.len() && err is Some { seq![REPLACEMENT] } else { Seq::empty() }
}

/// One step of lossy decoding, given where `std::str::from_utf8` stopped on `bytes`: the valid prefix
/// of `n` bytes decoded, then -- if not all bytes were valid -- either an unfinished character to keep
/// (no `err`) or an invalid sequence of `k` bytes to replace by U+FFFD and skip.
pub fn decode_stop(bytes: &[u8], n: usize, err: Option<usize>) -> (r: (Vec<char>, Resume))
    requires
        n <= bytes@.len(),
        valid_utf8(bytes@.take(n as int)),
        err matches Some(k) ==> 1 <= k && n + k <= bytes@.len(),
    ensures
        r.0@ == spec_stop_chars(bytes@, n as nat, match err { Some(k) => Some(k as nat), None => None::<nat> }),
        r.1 == spec_resume(bytes@.len(), n as nat, match err { Some(k) => Some(k as nat), None => None::<nat> }),
{
    let mut head: Vec<u8> = Vec::new();
    let mut i: usize = 0;
    while i < n
        invariant
            i <= n <= bytes@.len(),
            head@ == bytes@.take(i as int),
        decreases n - i,
    {
        head.push(bytes[i]);
        i += 1;
        assert(head@ =~= bytes@.take(i as int));
    }
    let mut chars = match str_from_utf8(head.as_slice()) {
        Some(text) => chars_of(text),
        None => Vec::new(),
    };
    if n >= bytes.len() {
        assert(chars@ + Seq::<char>::empty() =~= chars@);
        return (chars, Resume::Done);
    }
    match err {
        None => {
            assert(chars@ + Seq::<char>::empty() =~= chars@);
            (chars, Resume::Pending(n))
        },
        Some(k) => {
            chars.push(REPLACEMENT);
            (chars, Resume::From(n + k))
        },
    }
}

/// A decoder for one stream of output: the bytes of a character the last write left unfinished.
pub struct Utf8Decoder {
    pending: Vec<u8>,
}

impl Utf8Decoder {
    /// The bytes of the unfinished character.
    pub closed spec fn pending(&self) -> Seq<u8> {
        self.pending@
    }

    /// Nothing pending.
    pub fn new() -> (d: Self)
        ensures
            d.pending() == Seq::<u8>::empty(),
    {
        Self { pending: Vec::new() }
    }

    /// Whether a character is unfinished.
    pub fn is_pending(&self) -> (b: bool)
        ensures
            b == (self.pending().len() > 0),
    {
        self.pending.len() > 0
    }

    /// Decodes `bytes`, after what was pending: see `lossy`. Output that is valid UTF-8 as a whole
    /// decodes exactly, however it is split into writes: a write made of whole characters leaves
    /// nothing pending, and after any piece of a valid stream -- even one ending inside a character --
    /// what was drawn and what the rest of the stream will draw are exactly the stream's characters.
    pub fn push(&mut self, bytes: &[u8]) -> (cs: Vec<char>)
        ensures
            cs@ == lossy(old(self).pending() + bytes@).0,
            final(self).pending() == lossy(old(self).pending() + bytes@).1,
            valid_utf8(old(self).pending() + bytes@) ==> final(self).pending() == Seq::<u8>::empty()
                && cs@ == decode_utf8(old(self).pending() + bytes@),
            forall|ext: Seq<u8>| #[trigger] valid_utf8(old(self).pending() + bytes@ + ext) ==> {
                &&& valid_utf8(final(self).pending() + ext)
                &&& cs@ + decode_utf8(final(self).pending() + ext) == decode_utf8(old(self).pending() + bytes@ + ext)
            },
    {
        let mut rest: Vec<u8> = Vec::new();
        std::mem::swap(&mut rest, &mut self.pending);
        let mut i: usize = 0;
        let ghost start = rest@;
        while i < bytes.len()
            invariant
                i <= bytes@.len(),
                rest@ == start + bytes@.take(i as int),
            decreases bytes@.len() - i,
        {
            rest.push(bytes[i]);
            i += 1;
            assert(rest@ =~= start + bytes@.take(i as int));
        }
        assert(bytes@.take(bytes@.len() as int) =~= bytes@);
        let ghost total = rest@;
        let ghost mut first = true;
        let mut out: Vec<char> = Vec::new();
        loop
            invariant_except_break
                lossy(total) == (out@ + lossy(rest@).0, lossy(rest@).1),
                first ==> out@ == Seq::<char>::empty() && rest@ == total,
                !first ==> forall|ext: Seq<u8>| !#[trigger] valid_utf8(total + ext),
            ensures
                lossy(total) == (out@, rest@),
                valid_utf8(total) ==> rest@ == Seq::<u8>::empty(),
                forall|ext: Seq<u8>| #[trigger] valid_utf8(total + ext) ==> {
                    &&& valid_utf8(rest@ + ext)
                    &&& out@ + decode_utf8(rest@ + ext) == decode_utf8(total + ext)
                },
            decreases rest@.len(),
        {
            let (n, err) = from_utf8_stop(rest.as_slice());
            let (chars, resume) = decode_stop(rest.as_slice(), n, err);
            let ghost before_out = out@;
            let ghost before_rest = rest@;
            proof {
                if !first {
                    assert(!valid_utf8(total + Seq::<u8>::empty()));
                    assert(total + Seq::<u8>::empty() =~= total);
                }
            }
            let mut j: usize = 0;
            while j < chars.len()
                invariant
                    j <= chars@.len(),
                    out@ == before_out + chars@.take(j as int),
                decreases chars@.len() - j,
            {
                out.push(chars[j]);
                j += 1;
                assert(out@ =~= before_out + chars@.take(j as int));
            }
            assert(chars@.take(chars@.len() as int) =~= chars@);
            match resume {
                Resume::Done => {
                    assert(before_rest.take(n as int) =~= before_rest);
                    assert(lossy(before_rest) == (decode_utf8(before_rest), Seq::<u8>::empty()));
                    assert(chars@ =~= decode_utf8(before_rest));
                    rest = Vec::new();
                    assert(rest@ =~= Seq::<u8>::empty());
                    proof {
                        assert forall|ext: Seq<u8>| #[trigger] valid_utf8(total + ext) implies {
                            &&& valid_utf8(rest@ + ext)
                            &&& out@ + decode_utf8(rest@ + ext) == decode_utf8(total + ext)
                        } by {
                            if first {
                                lemma_split_after_valid_prefix(total, ext, n as int);
                                assert(total.skip(n as int) =~= Seq::<u8>::empty());
                                assert(rest@ + ext =~= total.skip(n as int) + ext);
                            }
                        }
                    }
                    break;
                },
                Resume::Pending(p) => {
                    assert(chars@ =~= decode_utf8(before_rest.take(n as int)));
                    rest = tail(&rest, p);
                    proof {
                        assert forall|ext: Seq<u8>| #[trigger] valid_utf8(total + ext) implies {
                            &&& valid_utf8(rest@ + ext)
                            &&& out@ + decode_utf8(rest@ + ext) == decode_utf8(total + ext)
                        } by {
                            if first {
                                lemma_split_after_valid_prefix(total, ext, n as int);
                            }
                        }
                        if first && valid_utf8(total) {
                            assert(false);
                        }
                    }
                    break;
                },
                Resume::From(next) => {
                    proof {
                        if first {
                            assert forall|ext: Seq<u8>| !#[trigger] valid_utf8(total + ext) by {
                                if valid_utf8(total + ext) {
                                    lemma_split_after_valid_prefix(total, ext, n as int);
                                    assert(valid_utf8(before_rest.skip(n as int) + ext));
                                }
                            }
                        }
                        first = false;
                    }
                    assert(chars@ =~= decode_utf8(before_rest.take(n as int)) + seq![REPLACEMENT]);
                    assert(lossy(before_rest) == (
                        decode_utf8(before_rest.take(n as int)) + seq![REPLACEMENT] + lossy(before_rest.skip(next as int)).0,
                        lossy(before_rest.skip(next as int)).1,
                    ));
                    rest = tail(&rest, next);
                    assert(before_out + lossy(before_rest).0 =~= out@ + lossy(rest@).0);
                },
            }
        }
        proof {
            if valid_utf8(total) {
                assert(total + Seq::<u8>::empty() =~= total);
                assert(rest@ + Seq::<u8>::empty() =~= rest@);
                assert(valid_utf8(total + Seq::<u8>::empty()));
                assert(decode_utf8(Seq::<u8>::empty()) =~= Seq::<char>::empty());
                assert(out@ + Seq::<char>::empty() =~= out@);
            }
        }
        self.pending = rest;
        out
    }

    /// Ends the stream: an unfinished character becomes one U+FFFD.
    pub fn finish(&mut self) -> (cs: Vec<char>)
        ensures
            cs@ == (if old(self).pending().len() > 0 { seq![REPLACEMENT] } else { Seq::<char>::empty() }),
            final(self).pending() == Seq::<u8>::empty(),
    {
        let mut cs: Vec<char> = Vec::new();
        if self.pending.len() > 0 {
            cs.push(REPLACEMENT);
        }
        self.pending = Vec::new();
        cs
    }
}

} // verus!
