//! The shell's state that a script or a redirect must be able to save and restore: the working
//! directory and the three standard streams' bindings, held as a stack of frames.
//!
//! Two scoping operations, deliberately not one: `with_scope` runs code against a copy of the whole
//! frame and throws the copy away afterwards (what a script run as its own process gets), and
//! `with_stdio` rebinds some streams on the current frame and puts just those back afterwards (what a
//! redirect gets, so `cd dir > f` still changes directory).

use vstd::prelude::*;

verus! {

/// What standard stream `n` (0, 1 or 2) is connected to.
#[derive(Clone, Copy, Debug, PartialEq, Eq, Structural)]
pub enum StdioBinding {
    /// The default: the keyboard for stdin, the console for stdout and stderr.
    Default,
    /// An open file, by its handle in the open-file table (a non-owning reference).
    File(usize),
}

/// One level of shell state.
#[derive(Clone, Debug, PartialEq, Eq)]
pub struct ShellFrame {
    /// The working directory: absolute and normalized.
    pub cwd: String,
    /// Where stdin, stdout and stderr go.
    pub stdio: [StdioBinding; 3],
}

/// The stack of frames. Never empty: the bottom frame is the shell's own, and is never popped.
pub struct FrameStack {
    frames: Vec<ShellFrame>,
}

/// `frame` with the streams named in `overrides` rebound.
pub open spec fn rebound(stdio: [StdioBinding; 3], overrides: [Option<StdioBinding>; 3]) -> [StdioBinding; 3] {
    [
        match overrides[0] { Some(b) => b, None => stdio[0] },
        match overrides[1] { Some(b) => b, None => stdio[1] },
        match overrides[2] { Some(b) => b, None => stdio[2] },
    ]
}

/// `frames` with the top frame's streams replaced by `stdio`.
pub open spec fn with_top_stdio(frames: Seq<ShellFrame>, stdio: [StdioBinding; 3]) -> Seq<ShellFrame> {
    frames.update(frames.len() - 1, ShellFrame { cwd: frames.last().cwd, stdio: stdio })
}

/// `frames` with its top frame popped, unless that would leave none.
pub open spec fn popped(frames: Seq<ShellFrame>) -> Seq<ShellFrame> {
    if frames.len() <= 1 { frames } else { frames.drop_last() }
}

impl FrameStack {
    /// The stack holds at least the shell's own frame.
    pub closed spec fn wf(&self) -> bool {
        self.frames@.len() >= 1
    }

    /// A stack is well formed exactly when it holds at least the shell's own frame.
    pub proof fn lemma_wf(&self)
        ensures
            self.wf() <==> self@.len() >= 1,
    {
    }

    /// The frames, bottom (the shell's own) first.
    pub closed spec fn view(&self) -> Seq<ShellFrame> {
        self.frames@
    }

    /// A stack holding just the shell's own frame: working directory `/`, default streams.
    pub fn new() -> (s: Self)
        ensures
            s.wf(),
            s@.len() == 1,
            s@[0].cwd@ == seq!['/'],
            s@[0].stdio == [StdioBinding::Default, StdioBinding::Default, StdioBinding::Default],
    {
        let root = String::from_str("/");
        proof { reveal_strlit("/"); }
        let mut frames: Vec<ShellFrame> = Vec::new();
        frames.push(ShellFrame { cwd: root, stdio: [StdioBinding::Default; 3] });
        Self { frames }
    }

    /// The frame code is currently running against.
    pub fn top(&self) -> (f: &ShellFrame)
        requires
            self.wf(),
        ensures
            *f == self@.last(),
    {
        let n = self.frames.len();
        &self.frames[n - 1]
    }

    /// The current frame, for changing it.
    pub fn top_mut(&mut self) -> (f: &mut ShellFrame)
        requires
            old(self).wf(),
        ensures
            final(self).wf(),
            *f == old(self)@.last(),
            final(self)@ == old(self)@.update(old(self)@.len() - 1, *final(f)),
    {
        let n = self.frames.len();
        &mut self.frames[n - 1]
    }

    /// How many frames there are; 1 is just the shell's own. A well-formed stack is exactly one that
    /// holds at least that frame, so `top` and `top_mut` never lack one.
    pub fn depth(&self) -> (d: usize)
        ensures
            d == self@.len(),
            self.wf() <==> d >= 1,
    {
        self.frames.len()
    }

    /// Pushes a copy of the top frame.
    pub fn push_copy(&mut self)
        requires
            old(self).wf(),
        ensures
            final(self).wf(),
            final(self)@ == old(self)@.push(old(self)@.last()),
    {
        let top = self.top();
        let copy = ShellFrame { cwd: top.cwd.clone(), stdio: top.stdio };
        self.frames.push(copy);
    }

    /// Pops the top frame. Refuses (returns `false`) to pop the shell's own.
    pub fn pop(&mut self) -> (popped_one: bool)
        ensures
            popped_one == (old(self)@.len() > 1),
            final(self)@ == popped(old(self)@),
            old(self).wf() ==> final(self).wf(),
    {
        if self.frames.len() <= 1 {
            return false;
        }
        self.frames.pop();
        true
    }

    /// Runs `f` against a copy of the current frame, then discards it: nothing `f` changes in the
    /// frame -- its `cd`s, its stream bindings -- survives.
    pub fn with_scope<R>(&mut self, f: impl FnOnce(&mut Self) -> R) -> (r: R)
        requires
            old(self).wf(),
            forall|s: &mut Self| (*s)@ == old(self)@.push(old(self)@.last()) && (*s).wf() ==> f.requires((s,)),
        ensures
            exists|s: &mut Self| {
                &&& (*s)@ == old(self)@.push(old(self)@.last())
                &&& (*s).wf()
                &&& f.ensures((s,), r)
                &&& final(self)@ == popped((*final(s))@)
                &&& (*final(s))@.len() == old(self)@.len() + 1 && (*final(s))@.take(old(self)@.len() as int) == old(self)@
                    ==> final(self)@ == old(self)@
            },
    {
        self.push_copy();
        let result = f(self);
        proof {
            if self@.len() == old(self)@.len() + 1 && self@.take(old(self)@.len() as int) == old(self)@ {
                lemma_scope_isolates(old(self)@, self@);
            }
        }
        self.pop();
        result
    }

    /// Runs `f` with the streams named in `overrides` (`Some(binding)` replaces stream `n`, `None`
    /// leaves it) rebound on the current frame, then puts the streams back. Only the streams are
    /// restored: a working-directory change made inside `f` is kept.
    pub fn with_stdio<R>(&mut self, overrides: [Option<StdioBinding>; 3], f: impl FnOnce(&mut Self) -> R) -> (r: R)
        requires
            old(self).wf(),
            forall|s: &mut Self| (*s)@ == with_top_stdio(old(self)@, rebound(old(self)@.last().stdio, overrides)) && (*s).wf()
                ==> f.requires((s,)),
        ensures
            exists|s: &mut Self| {
                &&& (*s)@ == with_top_stdio(old(self)@, rebound(old(self)@.last().stdio, overrides))
                &&& (*s).wf()
                &&& f.ensures((s,), r)
                &&& final(self)@ == if (*final(s))@.len() == 0 { (*final(s))@ } else {
                        with_top_stdio((*final(s))@, old(self)@.last().stdio)
                    }
                &&& (*final(s))@.len() == old(self)@.len()
                    && (*final(s))@.take(old(self)@.len() - 1) == old(self)@.take(old(self)@.len() - 1)
                    ==> final(self)@ == old(self)@.update(old(self)@.len() - 1, (ShellFrame {
                        cwd: (*final(s))@.last().cwd,
                        stdio: old(self)@.last().stdio,
                    }))
            },
    {
        let saved = self.top().stdio;
        let top = self.top_mut();
        let mut i: usize = 0;
        while i < 3
            invariant
                i <= 3,
                top.cwd == old(self)@.last().cwd,
                forall|k: int| 0 <= k < i ==> #[trigger] top.stdio[k] == rebound(saved, overrides)[k],
                forall|k: int| i <= k < 3 ==> #[trigger] top.stdio[k] == saved[k],
            decreases 3 - i,
        {
            if let Some(binding) = overrides[i] {
                top.stdio[i] = binding;
            }
            i += 1;
        }
        assert(top.stdio =~= rebound(saved, overrides));
        let result = f(self);
        let ghost after = self@;
        let n = self.frames.len();
        if n > 0 {
            self.frames[n - 1].stdio = saved;
        }
        proof {
            if after.len() == old(self)@.len() && after.take(old(self)@.len() - 1) == old(self)@.take(old(self)@.len() - 1) {
                lemma_redirect_restores_streams(old(self)@, after);
            }
        }
        result
    }
}

/// A scope isolates: if the code run in it leaves the stack as deep as it found it and the frames
/// below its own untouched -- whatever it did to its own frame -- popping that frame gives back
/// exactly the frames from before the scope.
pub proof fn lemma_scope_isolates(before: Seq<ShellFrame>, inside: Seq<ShellFrame>)
    requires
        before.len() >= 1,
        inside.len() == before.len() + 1,
        inside.take(before.len() as int) == before,
    ensures
        popped(inside) == before,
{
    assert(inside.drop_last() =~= inside.take(before.len() as int));
}

/// A redirect restores only the streams: if the code run under it leaves the stack as deep as it found
/// it and the frames below the current one untouched, restoring the streams gives back the frames from
/// before, except that the current frame keeps the working directory the code left it in.
pub proof fn lemma_redirect_restores_streams(before: Seq<ShellFrame>, inside: Seq<ShellFrame>)
    requires
        before.len() >= 1,
        inside.len() == before.len(),
        inside.take(before.len() - 1) == before.take(before.len() - 1),
    ensures
        with_top_stdio(inside, before.last().stdio)
            == before.update(before.len() - 1, ShellFrame { cwd: inside.last().cwd, stdio: before.last().stdio }),
{
    let l = with_top_stdio(inside, before.last().stdio);
    let r = before.update(before.len() - 1, ShellFrame { cwd: inside.last().cwd, stdio: before.last().stdio });
    assert forall|k: int| 0 <= k < l.len() implies l[k] == r[k] by {
        if k < before.len() - 1 {
            assert(l[k] == inside[k]);
            assert(r[k] == before[k]);
            assert(inside.take(before.len() - 1)[k] == inside[k]);
            assert(before.take(before.len() - 1)[k] == before[k]);
        } else {
            assert(l[k] == ShellFrame { cwd: inside.last().cwd, stdio: before.last().stdio });
        }
    }
    assert(l =~= r);
}

} // verus!
