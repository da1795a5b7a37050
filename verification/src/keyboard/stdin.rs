//! `read(0)`: hands a running program one finished line of typed input at a time, as its bytes plus a
//! trailing newline, like a real tty's cooked mode. A line the program reads in several pieces is kept
//! until it is used up; only then is the next one waited for.

use vstd::prelude::*;

verus! {

/// What a `read` needs.
#[derive(Clone, Copy, Debug, PartialEq, Eq, Structural)]
pub enum StdinRead {
    /// The current line is used up: wait for the next one (`fill`), or for end-of-file.
    NeedLine,
    /// This many bytes were copied.
    Copied(usize),
}

/// The line being read and how far into it the program has read.
pub struct StdinBuffer {
    pending: Vec<u8>,
    pos: usize,
}

impl StdinBuffer {
    /// The current line's bytes.
    pub closed spec fn line(&self) -> Seq<u8> {
        self.pending@
    }

    /// How many of them the program has read.
    pub closed spec fn spec_pos(&self) -> nat {
        self.pos as nat
    }

    pub closed spec fn wf(&self) -> bool {
        self.pos <= self.pending@.len()
    }

    /// Nothing pending.
    pub fn new() -> (s: Self)
        ensures
            s.wf(),
            s.line() == Seq::<u8>::empty(),
            s.spec_pos() == 0,
    {
        Self { pending: Vec::new(), pos: 0 }
    }

    /// Forgets any leftover line, so one program's unread input cannot leak into the next.
    pub fn reset(&mut self)
        ensures
            final(self).wf(),
            final(self).line() == Seq::<u8>::empty(),
            final(self).spec_pos() == 0,
    {
        self.pending = Vec::new();
        self.pos = 0;
    }

    /// Makes `line`, with a newline added, the current line.
    pub fn fill(&mut self, line: Vec<u8>)
        ensures
            final(self).wf(),
            final(self).line() == line@.push(10u8),
            final(self).spec_pos() == 0,
    {
        let mut line = line;
        line.push(10);
        self.pending = line;
        self.pos = 0;
    }

    /// Copies what `buf` can take of the rest of the current line into it. An empty `buf` takes
    /// nothing; a used-up line needs the next one first.
    pub fn read(&mut self, buf: &mut [u8]) -> (r: StdinRead)
        requires
            old(self).wf(),
        ensures
            final(self).wf(),
            final(self).line() == old(self).line(),
            old(buf)@.len() == 0 ==> r == StdinRead::Copied(0) && final(self).spec_pos() == old(self).spec_pos()
                && final(buf)@ == old(buf)@,
            old(buf)@.len() > 0 && old(self).spec_pos() >= old(self).line().len() ==> r == StdinRead::NeedLine
                && final(self).spec_pos() == old(self).spec_pos() && final(buf)@ == old(buf)@,
            old(buf)@.len() > 0 && old(self).spec_pos() < old(self).line().len() ==> {
                let n = vstd::math::min(old(buf)@.len() as int, old(self).line().len() - old(self).spec_pos());
                &&& r == StdinRead::Copied(n as usize)
                &&& final(self).spec_pos() == old(self).spec_pos() + n
                &&& final(buf)@ == old(self).line().subrange(old(self).spec_pos() as int, old(self).spec_pos() + n)
                    + old(buf)@.skip(n)
            },
    {
        let blen = buf.len();
        if blen == 0 {
            return StdinRead::Copied(0);
        }
        if self.pos >= self.pending.len() {
            return StdinRead::NeedLine;
        }
        let plen = self.pending.len();
        let left = plen - self.pos;
        let n = if blen < left { blen } else { left };
        let mut i: usize = 0;
        while i < n
            invariant
                self.wf(),
                self.pending@ == old(self).pending@,
                self.pos == old(self).pos,
                n <= blen,
                blen == old(buf)@.len(),
                buf@.len() == blen,
                self.pos + n <= self.pending@.len(),
                plen == self.pending@.len(),
                i <= n,
                forall|k: int| 0 <= k < i ==> #[trigger] buf@[k] == self.pending@[self.pos + k],
                forall|k: int| i <= k < blen ==> #[trigger] buf@[k] == old(buf)@[k],
            decreases n - i,
        {
            buf[i] = self.pending[self.pos + i];
            i += 1;
        }
        self.pos = self.pos + n;
        assert(buf@ =~= old(self).line().subrange(old(self).pos as int, old(self).pos + n) + old(buf)@.skip(n as int));
        StdinRead::Copied(n)
    }
}

} // verus!
