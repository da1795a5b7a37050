//! The step from one raw key event to a token, shared by everything that drains the keyboard: it
//! updates the held keys and the lock toggles, and only a genuine press of a non-modifier key yields a
//! token -- a held key resending its press changes nothing, so yields nothing, whether the transport
//! tags the resend an auto-repeat or not.

use vstd::prelude::*;

use super::keymap::{lock_applied, KeyState, LockState};
use super::tokens::{emit, spec_is_modifier, Token, KEY_LALT, KEY_LCTRL, KEY_LSHIFT, KEY_RALT, KEY_RCTRL, KEY_RSHIFT};

verus! {

/// The event type of a key event.
pub const EV_KEY: u16 = 1;

/// One input event as the keyboard device reports it: its type, the key's code, and its value
/// (0 released, 1 pressed, 2 auto-repeat).
#[derive(Clone, Copy, Debug, PartialEq, Eq, Structural)]
pub struct InputEvent {
    pub event_type: u16,
    pub code: u16,
    pub value: i32,
}

/// Updates the held keys and the lock toggles from `event`, and returns the token it produces, if any:
/// only a key event that presses a key not already held does, and then only for a key that is not a
/// modifier or lock key itself. Anything but a key event changes nothing.
pub fn token_for(event: InputEvent, keys: &mut KeyState, locks: &mut LockState) -> (r: Option<Token>)
    requires
        old(keys).wf(),
    ensures
        final(keys).wf(),
        event.event_type != EV_KEY ==> r is None && final(keys)@ == old(keys)@ && *final(locks) == *old(locks),
        event.event_type == EV_KEY ==> {
            let down = event.value != 0;
            &&& final(keys)@ == if down { old(keys)@.insert(event.code) } else { old(keys)@.remove(event.code) }
            &&& *final(locks) == lock_applied(*old(locks), event.code, event.value)
            &&& r == if down && !old(keys)@.contains(event.code) && !spec_is_modifier(event.code) {
                    Some(Token {
                        code: event.code,
                        shift: final(keys)@.contains(KEY_LSHIFT) || final(keys)@.contains(KEY_RSHIFT),
                        ctrl: final(keys)@.contains(KEY_LCTRL) || final(keys)@.contains(KEY_RCTRL),
                        alt: final(keys)@.contains(KEY_LALT) || final(keys)@.contains(KEY_RALT),
                        caps: final(locks).caps,
                    })
                } else {
                    None
                }
        },
{
    if event.event_type != EV_KEY {
        return None;
    }
    let down = event.value != 0;
    let changed = keys.set(event.code, down);
    locks.apply(event.code, event.value);
    if down && changed {
        emit(event.code, keys, locks)
    } else {
        None
    }
}

} // verus!
