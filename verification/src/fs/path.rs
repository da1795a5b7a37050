//! Path arithmetic: turning a path a user typed, which may be relative to the working directory and may
//! contain `.` and `..`, into the absolute path the file-system walk resolves. Purely lexical: nothing
//! is checked to exist, and `..` simply removes the component before it.

use vstd::prelude::*;

use crate::abi::{ENAMETOOLONG, ENOENT, NAME_MAX, PATH_MAX};
use crate::text::{chars_of, string_of, utf8_len, utf8_len_within};

verus! {

/// The non-empty pieces between the `/`s of `s[i..]`, after those already in `parts` and the piece
/// `cur` being read.
pub open spec fn pieces(s: Seq<char>, i: int, parts: Seq<Seq<char>>, cur: Seq<char>) -> Seq<Seq<char>>
    decreases s.len() - i,
{
    if i < 0 || i >= s.len() {
        if cur.len() == 0 { parts } else { parts.push(cur) }
    } else if s[i] == '/' {
        pieces(s, i + 1, if cur.len() == 0 { parts } else { parts.push(cur) }, Seq::empty())
    } else {
        pieces(s, i + 1, parts, cur.push(s[i]))
    }
}

/// The components of a path: its non-empty pieces between `/`s.
pub open spec fn spec_components(s: Seq<char>) -> Seq<Seq<char>> {
    pieces(s, 0, Seq::empty(), Seq::empty())
}

/// What one component of a typed path does to the components so far: an empty one or `.` nothing,
/// `..` removes the last (none at the root), a name is appended -- unless it is longer than
/// `NAME_MAX` bytes.
pub open spec fn apply_component(parts: Seq<Seq<char>>, cur: Seq<char>) -> Result<Seq<Seq<char>>, isize> {
    if cur.len() == 0 || cur == seq!['.'] {
        Ok(parts)
    } else if cur == seq!['.', '.'] {
        Ok(if parts.len() > 0 { parts.drop_last() } else { parts })
    } else if utf8_len(cur) > NAME_MAX {
        Err(ENAMETOOLONG)
    } else {
        Ok(parts.push(cur))
    }
}

/// The components after applying those of `s[i..]` (with `cur` the one being read) to `parts`.
pub open spec fn walk(s: Seq<char>, i: int, parts: Seq<Seq<char>>, cur: Seq<char>) -> Result<Seq<Seq<char>>, isize>
    decreases s.len() - i,
{
    if i < 0 || i >= s.len() {
        apply_component(parts, cur)
    } else if s[i] == '/' {
        match apply_component(parts, cur) {
            Err(e) => Err(e),
            Ok(p) => walk(s, i + 1, p, Seq::empty()),
        }
    } else {
        walk(s, i + 1, parts, cur.push(s[i]))
    }
}

/// `/` followed by the components separated by single `/`s (empty for no components).
pub open spec fn joined(parts: Seq<Seq<char>>) -> Seq<char>
    decreases parts.len(),
{
    if parts.len() == 0 { Seq::empty() } else { joined(parts.drop_last()) + seq!['/'] + parts.last() }
}

/// `path` made absolute against `cwd` and normalized, or why it cannot be: `ENOENT` for an empty path,
/// `ENAMETOOLONG` for a component longer than `NAME_MAX` bytes or a path (given or resulting) longer
/// than `PATH_MAX` bytes.
pub open spec fn spec_abspath(cwd: Seq<char>, path: Seq<char>) -> Result<Seq<char>, isize> {
    if path.len() == 0 {
        Err(ENOENT)
    } else if utf8_len(path) > PATH_MAX {
        Err(ENAMETOOLONG)
    } else {
        let base = if path[0] == '/' { Seq::empty() } else { spec_components(cwd) };
        match walk(path, 0, base, Seq::empty()) {
            Err(e) => Err(e),
            Ok(parts) => if parts.len() == 0 {
                Ok(seq!['/'])
            } else if utf8_len(joined(parts)) > PATH_MAX {
                Err(ENAMETOOLONG)
            } else {
                Ok(joined(parts))
            },
        }
    }
}

pub open spec fn views(v: Seq<Vec<char>>) -> Seq<Seq<char>> {
    v.map_values(|c: Vec<char>| c@)
}

/// The components of `path`, as character vectors.
fn component_chars(path: &str) -> (r: Vec<Vec<char>>)
    ensures
        views(r@) == spec_components(path@),
{
    let s = chars_of(path);
    let mut parts: Vec<Vec<char>> = Vec::new();
    let mut cur: Vec<char> = Vec::new();
    let mut i: usize = 0;
    assert(views(parts@) =~= Seq::<Seq<char>>::empty());
    assert(cur@ =~= Seq::<char>::empty());
    while i < s.len()
        invariant
            s@ == path@,
            i <= s@.len(),
            spec_components(path@) == pieces(s@, i as int, views(parts@), cur@),
        decreases s@.len() - i,
    {
        if s[i] == '/' {
            if cur.len() != 0 {
                proof { assert(views(parts@.push(cur)) =~= views(parts@).push(cur@)); }
                parts.push(cur);
            }
            cur = Vec::new();
        } else {
            cur.push(s[i]);
        }
        i += 1;
    }
    if cur.len() != 0 {
        proof { assert(views(parts@.push(cur)) =~= views(parts@).push(cur@)); }
        parts.push(cur);
    }
    parts
}

/// Splits a path into its components, ignoring the empty ones that consecutive slashes make.
pub fn components(path: &str) -> (r: Vec<String>)
    ensures
        r@.map_values(|c: String| c@) == spec_components(path@),
{
    let parts = component_chars(path);
    let mut r: Vec<String> = Vec::new();
    let mut i: usize = 0;
    while i < parts.len()
        invariant
            i <= parts@.len(),
            r@.map_values(|c: String| c@) == views(parts@).subrange(0, i as int),
        decreases parts@.len() - i,
    {
        let c = string_of(&parts[i]);
        proof {
            assert(views(parts@)[i as int] == parts@[i as int]@);
            assert(r@.push(c).map_values(|c: String| c@) =~= r@.map_values(|c: String| c@).push(c@));
            assert(views(parts@).subrange(0, i + 1) =~= views(parts@).subrange(0, i as int).push(c@));
        }
        r.push(c);
        i += 1;
    }
    assert(views(parts@).subrange(0, parts@.len() as int) =~= views(parts@));
    r
}

fn is_dots(cur: &Vec<char>, n: usize) -> (b: bool)
    requires
        n == 1 || n == 2,
    ensures
        b == (cur@ == if n == 1 { seq!['.'] } else { seq!['.', '.'] }),
{
    let b = cur.len() == n && cur[0] == '.' && (n == 1 || cur[1] == '.');
    assert(b ==> cur@ =~= if n == 1 { seq!['.'] } else { seq!['.', '.'] });
    b
}

/// Applies one component to `parts`, as `apply_component` says.
fn apply(parts: &mut Vec<Vec<char>>, cur: Vec<char>) -> (r: Result<(), isize>)
    ensures
        match apply_component(views(old(parts)@), cur@) {
            Ok(p) => r is Ok && views(final(parts)@) == p,
            Err(e) => r == Err::<(), isize>(e),
        },
{
    if cur.len() == 0 || is_dots(&cur, 1) {
        return Ok(());
    }
    if is_dots(&cur, 2) {
        if parts.len() > 0 {
            parts.pop();
            proof { assert(views(final(parts)@) =~= views(old(parts)@).drop_last()); }
        }
        return Ok(());
    }
    if utf8_len_within(&cur, NAME_MAX).is_none() {
        return Err(ENAMETOOLONG);
    }
    parts.push(cur);
    proof { assert(views(final(parts)@) =~= views(old(parts)@).push(cur@)); }
    Ok(())
}

/// `path` as an absolute, normalized path: `/`, or `/` followed by components separated by single
/// `/`s, with no `.`, `..` or empty components and no trailing `/`. A relative `path` is taken from
/// `cwd`. `..` at the root stays at the root.
///
/// Errors: `ENOENT` for an empty path, `ENAMETOOLONG` for a component longer than `NAME_MAX` bytes or a
/// path (given or resulting) longer than `PATH_MAX` bytes.
pub fn abspath(cwd: &str, path: &str) -> (r: Result<String, isize>)
    ensures
        match spec_abspath(cwd@, path@) {
            Ok(p) => r matches Ok(s) && s@ == p,
            Err(e) => r == Err::<String, isize>(e),
        },
{
    let s = chars_of(path);
    if s.len() == 0 {
        return Err(ENOENT);
    }
    let total = utf8_len_within(&s, PATH_MAX);
    if total.is_none() {
        return Err(ENAMETOOLONG);
    }
    let mut parts: Vec<Vec<char>> = if s[0] == '/' { Vec::new() } else { component_chars(cwd) };
    proof {
        if s@[0] == '/' {
            assert(views(parts@) =~= Seq::<Seq<char>>::empty());
        }
    }
    let ghost base = views(parts@);
    let mut cur: Vec<char> = Vec::new();
    let mut i: usize = 0;
    while i < s.len()
        invariant
            s@ == path@,
            i <= s@.len(),
            walk(s@, 0, base, Seq::empty()) == walk(s@, i as int, views(parts@), cur@),
            s@.len() > 0,
            utf8_len(s@) <= PATH_MAX,
            base == if path@[0] == '/' { Seq::<Seq<char>>::empty() } else { spec_components(cwd@) },
        decreases s@.len() - i,
    {
        if s[i] == '/' {
            proof {
                assert(walk(s@, i as int, views(parts@), cur@) == match apply_component(views(parts@), cur@) {
                    Err(e) => Err(e),
                    Ok(p) => walk(s@, i + 1, p, Seq::empty()),
                });
            }
            let mut finished: Vec<char> = Vec::new();
            std::mem::swap(&mut finished, &mut cur);
            if let Err(e) = apply(&mut parts, finished) {
                return Err(e);
            }
            assert(cur@ =~= Seq::<char>::empty());
        } else {
            cur.push(s[i]);
        }
        i += 1;
    }
    if let Err(e) = apply(&mut parts, cur) {
        return Err(e);
    }
    if parts.len() == 0 {
        proof { reveal_strlit("/"); }
        return Ok(String::from_str("/"));
    }
    let mut joined_chars: Vec<char> = Vec::new();
    let mut k: usize = 0;
    while k < parts.len()
        invariant
            k <= parts@.len(),
            joined_chars@ == joined(views(parts@).subrange(0, k as int)),
        decreases parts@.len() - k,
    {
        joined_chars.push('/');
        let part = &parts[k];
        let mut j: usize = 0;
        let ghost before = joined_chars@;
        while j < part.len()
            invariant
                j <= part@.len(),
                joined_chars@ == before + part@.subrange(0, j as int),
            decreases part@.len() - j,
        {
            joined_chars.push(part[j]);
            j += 1;
            assert(joined_chars@ =~= before + part@.subrange(0, j as int));
        }
        proof {
            let sub = views(parts@).subrange(0, k + 1);
            assert(sub.drop_last() =~= views(parts@).subrange(0, k as int));
            assert(part@.subrange(0, part@.len() as int) =~= part@);
        }
        k += 1;
    }
    assert(views(parts@).subrange(0, parts@.len() as int) =~= views(parts@));
    if utf8_len_within(&joined_chars, PATH_MAX).is_none() {
        return Err(ENAMETOOLONG);
    }
    Ok(string_of(&joined_chars))
}

/// A component a normalized path may hold: non-empty, no `/`, neither `.` nor `..`, at most `NAME_MAX`
/// bytes.
pub open spec fn valid_name(c: Seq<char>) -> bool {
    &&& c.len() > 0
    &&& !c.contains('/')
    &&& c != seq!['.']
    &&& c != seq!['.', '.']
    &&& utf8_len(c) <= NAME_MAX
}

/// Every one of `parts` is a valid name.
pub open spec fn all_valid(parts: Seq<Seq<char>>) -> bool {
    forall|k: int| 0 <= k < parts.len() ==> valid_name(#[trigger] parts[k])
}

/// The working directory `abspath` takes a relative path from: its components are all valid names,
/// as in any path `abspath` returns.
pub open spec fn normalized_cwd(cwd: Seq<char>) -> bool {
    forall|k: int| 0 <= k < spec_components(cwd).len() ==> {
        let c = #[trigger] spec_components(cwd)[k];
        c != seq!['.'] && c != seq!['.', '.'] && utf8_len(c) <= NAME_MAX
    }
}

proof fn lemma_pieces_shape(s: Seq<char>, i: int, parts: Seq<Seq<char>>, cur: Seq<char>)
    requires
        0 <= i,
        forall|k: int| 0 <= k < parts.len() ==> (#[trigger] parts[k]).len() > 0 && !parts[k].contains('/'),
        !cur.contains('/'),
    ensures
        forall|k: int| 0 <= k < pieces(s, i, parts, cur).len()
            ==> (#[trigger] pieces(s, i, parts, cur)[k]).len() > 0 && !pieces(s, i, parts, cur)[k].contains('/'),
    decreases s.len() - i,
{
    let next = if cur.len() == 0 { parts } else { parts.push(cur) };
    assert forall|k: int| 0 <= k < next.len() implies (#[trigger] next[k]).len() > 0 && !next[k].contains('/') by {
        if k < parts.len() {
            assert(next[k] == parts[k]);
        }
    }
    if i >= s.len() {
        assert(pieces(s, i, parts, cur) == next);
    } else {
        if s[i] == '/' {
            assert(!Seq::<char>::empty().contains('/'));
            lemma_pieces_shape(s, i + 1, next, Seq::empty());
            assert(pieces(s, i, parts, cur) == pieces(s, i + 1, next, Seq::empty()));
        } else {
            assert(!cur.push(s[i]).contains('/')) by {
                if cur.push(s[i]).contains('/') {
                    let j = choose|j: int| 0 <= j < cur.push(s[i]).len() && cur.push(s[i])[j] == '/';
                    if j < cur.len() { assert(cur[j] == '/'); }
                }
            }
            lemma_pieces_shape(s, i + 1, parts, cur.push(s[i]));
            assert(pieces(s, i, parts, cur) == pieces(s, i + 1, parts, cur.push(s[i])));
        }
    }
}

proof fn lemma_walk_valid(s: Seq<char>, i: int, parts: Seq<Seq<char>>, cur: Seq<char>)
    requires
        0 <= i,
        all_valid(parts),
        !cur.contains('/'),
        walk(s, i, parts, cur) is Ok,
    ensures
        all_valid(walk(s, i, parts, cur)->Ok_0),
    decreases s.len() - i,
{
    if i < s.len() {
        if s[i] == '/' {
            let p = apply_component(parts, cur)->Ok_0;
            assert(all_valid(p));
            lemma_walk_valid(s, i + 1, p, Seq::empty());
        } else {
            assert(!cur.push(s[i]).contains('/')) by {
                if cur.push(s[i]).contains('/') {
                    let j = choose|j: int| 0 <= j < cur.push(s[i]).len() && cur.push(s[i])[j] == '/';
                    if j < cur.len() { assert(cur[j] == '/'); }
                }
            }
            lemma_walk_valid(s, i + 1, parts, cur.push(s[i]));
        }
    }
}

/// Walking over a word with no `/` only gathers it into the component being read.
proof fn lemma_walk_word(t: Seq<char>, i: int, parts: Seq<Seq<char>>, cur: Seq<char>, c: Seq<char>)
    requires
        0 <= i,
        i + c.len() <= t.len(),
        t.subrange(i, i + c.len()) == c,
        !c.contains('/'),
    ensures
        walk(t, i, parts, cur) == walk(t, i + c.len(), parts, cur + c),
    decreases c.len(),
{
    if c.len() == 0 {
        assert(cur + c =~= cur);
    } else {
        assert(t[i] == c[0]);
        assert(t[i] != '/') by { assert(c[0] == c[0]); if t[i] == '/' { assert(c.contains('/')); } }
        let rest = c.drop_first();
        assert(t.subrange(i + 1, i + 1 + rest.len()) =~= rest);
        assert(!rest.contains('/')) by {
            if rest.contains('/') {
                let j = choose|j: int| 0 <= j < rest.len() && rest[j] == '/';
                assert(c[j + 1] == '/');
            }
        }
        lemma_walk_word(t, i + 1, parts, cur.push(c[0]), rest);
        assert(cur.push(c[0]) + rest =~= cur + c);
    }
}

proof fn lemma_joined_len(parts: Seq<Seq<char>>)
    ensures
        parts.len() > 0 ==> joined(parts).len() > 0 && joined(parts)[0] == '/',
    decreases parts.len(),
{
    if parts.len() == 1 {
        assert(joined(parts.drop_last()) =~= Seq::<char>::empty());
        assert(joined(parts) =~= seq!['/'] + parts.last());
    } else if parts.len() > 1 {
        lemma_joined_len(parts.drop_last());
        assert(joined(parts) == joined(parts.drop_last()) + seq!['/'] + parts.last());
    }
}

/// Walking a joined path reads its components back: at its end, all but the last are applied and
/// the last is the one being read.
proof fn lemma_walk_joined(parts: Seq<Seq<char>>, base: Seq<Seq<char>>, rest: Seq<char>)
    requires
        parts.len() >= 1,
        all_valid(parts),
    ensures
        walk(joined(parts) + rest, 0, base, Seq::empty())
            == walk(joined(parts) + rest, joined(parts).len() as int, base + parts.drop_last(), parts.last()),
    decreases parts.len(),
{
    let init = parts.drop_last();
    let last = parts.last();
    let t = joined(parts) + rest;
    assert(valid_name(parts[parts.len() - 1]));
    if parts.len() == 1 {
        assert(init =~= Seq::<Seq<char>>::empty());
        assert(joined(init) =~= Seq::<char>::empty());
        assert(joined(parts) =~= seq!['/'] + last);
        assert(t[0] == '/');
        assert(apply_component(base, Seq::empty()) == Ok::<Seq<Seq<char>>, isize>(base));
        assert(t.subrange(1, 1 + last.len() as int) =~= last);
        lemma_walk_word(t, 1, base, Seq::empty(), last);
        assert(Seq::<char>::empty() + last =~= last);
        assert(base + init =~= base);
    } else {
        let ji = joined(init);
        assert(joined(parts) == ji + seq!['/'] + last);
        assert(t =~= ji + (seq!['/'] + last + rest));
        assert(all_valid(init)) by {
            assert forall|k: int| 0 <= k < init.len() implies valid_name(#[trigger] init[k]) by {
                assert(init[k] == parts[k]);
            }
        }
        lemma_walk_joined(init, base, seq!['/'] + last + rest);
        assert(t[ji.len() as int] == '/');
        assert(valid_name(init.last())) by { assert(init.last() == init[init.len() - 1]); }
        assert(apply_component(base + init.drop_last(), init.last()) == Ok::<Seq<Seq<char>>, isize>(base + init)) by {
            assert((base + init.drop_last()).push(init.last()) =~= base + init);
        }
        let at = ji.len() as int + 1;
        assert(t.subrange(at, at + last.len() as int) =~= last);
        lemma_walk_word(t, at, base + init, Seq::empty(), last);
        assert(Seq::<char>::empty() + last =~= last);
    }
}

/// A path that is absolute (starts with `/`) is resolved the same whatever the working directory.
pub proof fn lemma_absolute_ignores_cwd(cwd: Seq<char>, other: Seq<char>, path: Seq<char>)
    requires
        path.len() > 0,
        path[0] == '/',
    ensures
        spec_abspath(cwd, path) == spec_abspath(other, path),
{
}

/// What `abspath` returns is a fixed point: made absolute again, against any working directory, it
/// is itself -- provided the working directory it was made against was normalized itself.
pub proof fn lemma_abspath_fixed_point(cwd: Seq<char>, path: Seq<char>, other: Seq<char>)
    requires
        normalized_cwd(cwd),
        spec_abspath(cwd, path) is Ok,
    ensures
        spec_abspath(other, spec_abspath(cwd, path)->Ok_0) == spec_abspath(cwd, path),
{
    let base = if path[0] == '/' { Seq::<Seq<char>>::empty() } else { spec_components(cwd) };
    lemma_pieces_shape(cwd, 0, Seq::empty(), Seq::empty());
    assert(all_valid(base)) by {
        if path[0] != '/' {
            assert forall|k: int| 0 <= k < base.len() implies valid_name(#[trigger] base[k]) by {
                assert(spec_components(cwd)[k] == base[k]);
            }
        }
    }
    lemma_walk_valid(path, 0, base, Seq::empty());
    let parts = walk(path, 0, base, Seq::empty())->Ok_0;
    let q = spec_abspath(cwd, path)->Ok_0;
    if parts.len() == 0 {
        assert(q == seq!['/']);
        reveal_with_fuel(utf8_len, 2);
        assert(seq!['/'].drop_last() =~= Seq::<char>::empty());
        assert(walk(q, 0, Seq::empty(), Seq::empty()) == walk(q, 1, Seq::<Seq<char>>::empty(), Seq::<char>::empty()));
    } else {
        assert(q == joined(parts));
        lemma_joined_len(parts);
        lemma_walk_joined(parts, Seq::empty(), Seq::empty());
        assert(joined(parts) + Seq::<char>::empty() =~= joined(parts));
        assert(valid_name(parts.last())) by { assert(parts.last() == parts[parts.len() - 1]); }
        assert((Seq::<Seq<char>>::empty() + parts.drop_last()).push(parts.last()) =~= parts);
    }
}

/// What `abspath` returns is absolute and normalized: it starts with `/`, is at most `PATH_MAX`
/// bytes, and is either `/` alone or `/`-separated components, each a valid name -- non-empty, no `/`,
/// neither `.` nor `..`, at most `NAME_MAX` bytes -- with no trailing `/`; provided the working
/// directory was normalized itself.
pub proof fn lemma_abspath_shape(cwd: Seq<char>, path: Seq<char>)
    requires
        normalized_cwd(cwd),
        spec_abspath(cwd, path) is Ok,
    ensures
        ({
            let p = spec_abspath(cwd, path)->Ok_0;
            &&& p.len() > 0
            &&& p[0] == '/'
            &&& utf8_len(p) <= PATH_MAX
            &&& p.len() > 1 ==> p.last() != '/'
            &&& p == seq!['/'] || exists|parts: Seq<Seq<char>>| #![trigger joined(parts)]
                    parts.len() > 0 && all_valid(parts) && p == joined(parts)
        }),
{
    let base = if path[0] == '/' { Seq::<Seq<char>>::empty() } else { spec_components(cwd) };
    lemma_pieces_shape(cwd, 0, Seq::empty(), Seq::empty());
    assert(all_valid(base)) by {
        if path[0] != '/' {
            assert forall|k: int| 0 <= k < base.len() implies valid_name(#[trigger] base[k]) by {
                assert(spec_components(cwd)[k] == base[k]);
            }
        }
    }
    lemma_walk_valid(path, 0, base, Seq::empty());
    let parts = walk(path, 0, base, Seq::empty())->Ok_0;
    let p = spec_abspath(cwd, path)->Ok_0;
    if parts.len() == 0 {
        assert(p == seq!['/']);
        reveal_with_fuel(utf8_len, 2);
        assert(seq!['/'].drop_last() =~= Seq::<char>::empty());
    } else {
        assert(p == joined(parts));
        lemma_joined_len(parts);
        let last = parts.last();
        assert(valid_name(last)) by { assert(last == parts[parts.len() - 1]); }
        assert(joined(parts) == joined(parts.drop_last()) + seq!['/'] + last);
        assert(p.last() == last.last());
        assert(last.contains(last.last())) by { assert(last[last.len() - 1] == last.last()); }
    }
}

} // verus!
