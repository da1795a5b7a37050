//! Which keys are held and which locks are on: plain state tracking, updated the same way whoever
//! reads it.

use vstd::prelude::*;

verus! {

pub const KEY_CAPSLOCK: u16 = 58;
pub const KEY_NUMLOCK: u16 = 69;
pub const KEY_SCROLLLOCK: u16 = 70;

/// The set of keys currently held down, by evdev code.
pub struct KeyState {
    held: Vec<u16>,
}

impl KeyState {
    /// The held keys.
    pub closed spec fn view(&self) -> Set<u16> {
        self.held@.to_set()
    }

    pub closed spec fn wf(&self) -> bool {
        self.held@.no_duplicates()
    }

    /// No key held.
    pub fn new() -> (k: Self)
        ensures
            k.wf(),
            k@ == Set::<u16>::empty(),
    {
        let k = Self { held: Vec::new() };
        assert(k.held@.to_set() =~= Set::<u16>::empty());
        k
    }

    fn position(&self, code: u16) -> (r: Option<usize>)
        ensures
            r matches Some(i) ==> i < self.held@.len() && self.held@[i as int] == code,
            r is None ==> !self.held@.contains(code),
    {
        let mut i: usize = 0;
        while i < self.held.len()
            invariant
                i <= self.held@.len(),
                forall|k: int| 0 <= k < i ==> self.held@[k] != code,
            decreases self.held@.len() - i,
        {
            if self.held[i] == code {
                return Some(i);
            }
            i += 1;
        }
        None
    }

    /// Whether `code` is held.
    pub fn is_held(&self, code: u16) -> (b: bool)
        ensures
            b == self@.contains(code),
    {
        self.position(code).is_some()
    }

    /// Records `code` as held (`down`) or released. Returns whether that changed anything -- a key
    /// whose press is resent while it is held changes nothing.
    pub fn set(&mut self, code: u16, down: bool) -> (changed: bool)
        requires
            old(self).wf(),
        ensures
            final(self).wf(),
            final(self)@ == if down { old(self)@.insert(code) } else { old(self)@.remove(code) },
            changed == (old(self)@.contains(code) != down),
    {
        match self.position(code) {
            Some(i) => {
                if down {
                    return false;
                }
                let ghost before = self.held@;
                self.held.remove(i);
                proof {
                    assert forall|x: u16| self.held@.to_set().contains(x) <==> before.to_set().remove(code).contains(x) by {
                        if before.contains(x) && x != code {
                            let j = choose|j: int| 0 <= j < before.len() && before[j] == x;
                            if j < i {
                                assert(self.held@[j] == x);
                            } else {
                                assert(self.held@[j - 1] == x);
                            }
                        }
                        if self.held@.contains(x) {
                            let j = choose|j: int| 0 <= j < self.held@.len() && self.held@[j] == x;
                            if j < i {
                                assert(before[j] == x);
                            } else {
                                assert(before[j + 1] == x);
                            }
                        }
                    }
                    assert(self.held@.to_set() =~= before.to_set().remove(code));
                }
                true
            },
            None => {
                if !down {
                    proof { assert(self.held@.to_set().remove(code) =~= self.held@.to_set()); }
                    return false;
                }
                let ghost before = self.held@;
                self.held.push(code);
                proof {
                    assert forall|x: u16| self.held@.to_set().contains(x) <==> before.to_set().insert(code).contains(x) by {
                        if before.contains(x) {
                            let j = choose|j: int| 0 <= j < before.len() && before[j] == x;
                            assert(self.held@[j] == x);
                        }
                        if x == code {
                            assert(self.held@[before.len() as int] == x);
                        }
                    }
                    assert(self.held@.to_set() =~= before.to_set().insert(code));
                }
                true
            },
        }
    }
}

/// The lock keys' toggles.
#[derive(Clone, Copy, Debug, PartialEq, Eq, Structural)]
pub struct LockState {
    pub caps: bool,
    pub num: bool,
    pub scroll: bool,
}

/// The lock toggles after `code`'s event with `value`: a press (`value == 1`) of CapsLock, NumLock or
/// ScrollLock flips that lock; releases, auto-repeats and other keys change nothing.
pub open spec fn lock_applied(l: LockState, code: u16, value: i32) -> LockState {
    if value != 1 {
        l
    } else if code == KEY_CAPSLOCK {
        LockState { caps: !l.caps, ..l }
    } else if code == KEY_NUMLOCK {
        LockState { num: !l.num, ..l }
    } else if code == KEY_SCROLLLOCK {
        LockState { scroll: !l.scroll, ..l }
    } else {
        l
    }
}

impl LockState {
    /// Every lock off.
    pub fn new() -> (l: Self)
        ensures
            l == (LockState { caps: false, num: false, scroll: false }),
    {
        Self { caps: false, num: false, scroll: false }
    }

    /// Flips the lock `code` names on its press (`value == 1`); releases and auto-repeats change
    /// nothing.
    pub fn apply(&mut self, code: u16, value: i32)
        ensures
            *final(self) == lock_applied(*old(self), code, value),
    {
        if value != 1 {
            return;
        }
        if code == KEY_CAPSLOCK {
            self.caps = !self.caps;
        } else if code == KEY_NUMLOCK {
            self.num = !self.num;
        } else if code == KEY_SCROLLLOCK {
            self.scroll = !self.scroll;
        }
    }
}

} // verus!
