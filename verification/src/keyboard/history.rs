//! Command history for the shell's prompt. Append-only: `record` is the only method that ever writes
//! the recorded lines, and it only ever pushes (evicting the oldest once full); `recall_prev` and
//! `recall_next` only move a cursor over what is there and read it back.

use vstd::prelude::*;

verus! {

/// How many lines are kept before the oldest is evicted.
pub const CAPACITY: usize = 64;

/// A shell's command history: what has been run, plus where an Up/Down browsing session is.
pub struct History {
    /// Oldest first; capped at `CAPACITY`.
    lines: Vec<String>,
    /// Index into `lines` currently shown, or `None` when showing the live (pending) line.
    cursor: Option<usize>,
    /// The in-progress line, saved by the first `recall_prev` of a browsing session.
    pending: String,
}

/// The recorded lines after recording `line` into `lines`: an empty line or a repeat of the last
/// entry is skipped, and the oldest entry is evicted once `CAPACITY` are kept.
pub open spec fn recorded(lines: Seq<Seq<char>>, line: Seq<char>) -> Seq<Seq<char>> {
    if line.len() == 0 || (lines.len() > 0 && lines.last() == line) {
        lines
    } else if lines.len() >= CAPACITY {
        lines.drop_first().push(line)
    } else {
        lines.push(line)
    }
}

/// What `recall_prev` does to a browsing position `idx` over `lines` with saved line `pending`, the
/// line being typed being `current`: the new position, the new saved line, and the line shown. It
/// starts a session at the newest entry (saving `current`), or steps one entry back; at the oldest
/// entry, or with no history, it shows nothing and changes nothing.
pub open spec fn spec_recall_prev(lines: Seq<Seq<char>>, idx: Option<nat>, pending: Seq<char>, current: Seq<char>)
    -> (Option<nat>, Seq<char>, Option<Seq<char>>) {
    match idx {
        None => if lines.len() == 0 {
            (None, pending, None)
        } else {
            (Some((lines.len() - 1) as nat), current, Some(lines[lines.len() - 1]))
        },
        Some(i) => if i == 0 {
            (Some(0), pending, None)
        } else {
            (Some((i - 1) as nat), pending, Some(lines[i - 1]))
        },
    }
}

/// What `recall_next` does: steps one entry forward, or past the newest ends the session and shows
/// the saved line; with no session in progress it shows nothing.
pub open spec fn spec_recall_next(lines: Seq<Seq<char>>, idx: Option<nat>, pending: Seq<char>) -> (Option<nat>, Option<Seq<char>>) {
    match idx {
        None => (None, None),
        Some(i) => if i + 1 >= lines.len() {
            (None, Some(pending))
        } else {
            (Some(i + 1), Some(lines[(i + 1) as int]))
        },
    }
}

/// `m` `recall_prev`s from browsing position `idx`: the final position and saved line.
pub open spec fn prevs(lines: Seq<Seq<char>>, idx: Option<nat>, pending: Seq<char>, current: Seq<char>, m: nat)
    -> (Option<nat>, Seq<char>)
    decreases m,
{
    if m == 0 {
        (idx, pending)
    } else {
        let (i, p) = prevs(lines, idx, pending, current, (m - 1) as nat);
        let (i2, p2, _) = spec_recall_prev(lines, i, p, current);
        (i2, p2)
    }
}

/// `m` `recall_next`s from browsing position `idx`: the final position and the last line shown.
pub open spec fn nexts(lines: Seq<Seq<char>>, idx: Option<nat>, pending: Seq<char>, m: nat) -> (Option<nat>, Option<Seq<char>>)
    decreases m,
{
    if m == 0 {
        (idx, None)
    } else {
        let (i, _) = nexts(lines, idx, pending, (m - 1) as nat);
        spec_recall_next(lines, i, pending)
    }
}

proof fn lemma_prevs(lines: Seq<Seq<char>>, pending: Seq<char>, current: Seq<char>, m: nat)
    requires
        1 <= m <= lines.len(),
    ensures
        prevs(lines, None, pending, current, m) == (Some((lines.len() - m) as nat), current),
    decreases m,
{
    assert(prevs(lines, None, pending, current, 0) == (None::<nat>, pending));
    if m > 1 {
        lemma_prevs(lines, pending, current, (m - 1) as nat);
    }
}

proof fn lemma_nexts(lines: Seq<Seq<char>>, j: nat, pending: Seq<char>, m: nat)
    requires
        j < lines.len(),
        m <= lines.len() - j,
    ensures
        m < lines.len() - j ==> nexts(lines, Some(j), pending, m).0 == Some(j + m),
        m == lines.len() - j ==> nexts(lines, Some(j), pending, m) == (None::<nat>, Some(pending)),
    decreases m,
{
    if m > 0 {
        lemma_nexts(lines, j, pending, (m - 1) as nat);
    }
}

/// Browsing back `m` entries and forward `m` again comes back to the line that was being typed, and
/// ends the browsing session -- for any `m` up to the number of recorded lines.
pub proof fn lemma_recall_round_trip(lines: Seq<Seq<char>>, pending: Seq<char>, current: Seq<char>, m: nat)
    requires
        1 <= m <= lines.len(),
    ensures
        ({
            let (idx, saved) = prevs(lines, None, pending, current, m);
            nexts(lines, idx, saved, m) == (None::<nat>, Some(current))
        }),
{
    lemma_prevs(lines, pending, current, m);
    lemma_nexts(lines, (lines.len() - m) as nat, current, m);
}

impl History {
    /// The recorded lines, oldest first.
    pub closed spec fn lines(&self) -> Seq<Seq<char>> {
        self.lines@.map_values(|l: String| l@)
    }

    /// Which recorded line a browsing session shows, if one is in progress.
    pub closed spec fn recall_index(&self) -> Option<nat> {
        match self.cursor {
            Some(i) => Some(i as nat),
            None => None,
        }
    }

    /// The line saved by the first `recall_prev` of the current or last browsing session.
    pub closed spec fn pending(&self) -> Seq<char> {
        self.pending@
    }

    pub closed spec fn wf(&self) -> bool {
        &&& self.lines@.len() <= CAPACITY
        &&& self.cursor matches Some(i) ==> i < self.lines@.len()
    }

    /// No lines, no session in progress.
    pub fn new() -> (h: Self)
        ensures
            h.wf(),
            h.lines() == Seq::<Seq<char>>::empty(),
            h.recall_index() is None,
            h.pending() == Seq::<char>::empty(),
    {
        let h = Self { lines: Vec::new(), cursor: None, pending: String::new() };
        assert(h.lines() =~= Seq::<Seq<char>>::empty());
        h
    }

    /// Records a finished line. Skips an empty line, and one that exactly repeats the last entry; evicts
    /// the oldest entry once `CAPACITY` are kept. The browsing position is left as it was.
    pub fn record(&mut self, line: &str)
        requires
            old(self).wf(),
        ensures
            final(self).wf(),
            final(self).lines() == recorded(old(self).lines(), line@),
            final(self).recall_index() == old(self).recall_index(),
            final(self).pending() == old(self).pending(),
    {
        if line.is_empty() {
            return;
        }
        let owned = String::from_str(line);
        let n = self.lines.len();
        if n > 0 && self.lines[n - 1] == owned {
            return;
        }
        if n >= CAPACITY {
            let _oldest = self.lines.remove(0);
        }
        self.lines.push(owned);
        proof {
            assert(self.lines() =~= recorded(old(self).lines(), line@));
        }
    }

    /// Moves one entry further back in history and returns it, saving `current` as the pending line on
    /// the first call of a browsing session. `None` (a no-op) at the oldest entry, or with no history.
    pub fn recall_prev(&mut self, current: &str) -> (r: Option<&str>)
        requires
            old(self).wf(),
        ensures
            final(self).wf(),
            final(self).lines() == old(self).lines(),
            ({
                let (idx, saved, shown) = spec_recall_prev(old(self).lines(), old(self).recall_index(), old(self).pending(), current@);
                &&& final(self).recall_index() == idx
                &&& final(self).pending() == saved
                &&& match shown {
                    None => r is None,
                    Some(line) => r matches Some(s) && s@ == line,
                }
            }),
    {
        let next_index = match self.cursor {
            None => {
                if self.lines.len() == 0 {
                    return None;
                }
                self.pending = String::from_str(current);
                self.lines.len() - 1
            },
            Some(i) => {
                if i == 0 {
                    return None;
                }
                i - 1
            },
        };
        self.cursor = Some(next_index);
        Some(self.lines[next_index].as_str())
    }

    /// Moves one entry forward in history and returns it; past the newest entry, returns the saved
    /// pending line and ends the browsing session. `None` (a no-op) if no session is in progress.
    pub fn recall_next(&mut self) -> (r: Option<&str>)
        requires
            old(self).wf(),
        ensures
            final(self).wf(),
            final(self).lines() == old(self).lines(),
            final(self).pending() == old(self).pending(),
            ({
                let (idx, shown) = spec_recall_next(old(self).lines(), old(self).recall_index(), old(self).pending());
                &&& final(self).recall_index() == idx
                &&& match shown {
                    None => r is None,
                    Some(line) => r matches Some(s) && s@ == line,
                }
            }),
    {
        let i = match self.cursor {
            Some(i) => i,
            None => return None,
        };
        if i + 1 >= self.lines.len() {
            self.cursor = None;
            return Some(self.pending.as_str());
        }
        self.cursor = Some(i + 1);
        Some(self.lines[i + 1].as_str())
    }

    /// Ends any in-progress browsing session.
    pub fn reset_recall(&mut self)
        requires
            old(self).wf(),
        ensures
            final(self).wf(),
            final(self).lines() == old(self).lines(),
            final(self).pending() == old(self).pending(),
            final(self).recall_index() is None,
    {
        self.cursor = None;
    }
}

} // verus!
