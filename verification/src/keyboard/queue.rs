//! The keyboard's token queue: where key presses wait between the interrupt that learns of them and
//! whoever reads them, oldest first. When it is full the newest presses are dropped, and the serial
//! transcript gets one note per burst of dropped keys -- not one per key; the next burst gets its own
//! note once the queue has been emptied.

use vstd::prelude::*;

use super::tokens::Token;
use crate::platform::uart::{crlf, UartTranscript};

verus! {

/// How many key presses can wait.
pub const QUEUE_CAPACITY: usize = 256;

/// The note the transcript gets when presses are dropped (then a line ending).
pub open spec fn overflow_note() -> Seq<u8> {
    vstd::utf8::encode_utf8("[keyboard: input queue full, further keys dropped]"@)
}

/// The waiting presses, and whether the current burst's overflow has been noted.
pub struct TokenQueue {
    tokens: Vec<Token>,
    noted: bool,
}

impl TokenQueue {
    /// The waiting presses, oldest first.
    pub closed spec fn view(&self) -> Seq<Token> {
        self.tokens@
    }

    /// Whether the current burst's overflow has been noted.
    pub closed spec fn spec_noted(&self) -> bool {
        self.noted
    }

    pub closed spec fn wf(&self) -> bool {
        self.tokens@.len() <= QUEUE_CAPACITY
    }

    /// An empty queue.
    pub fn new() -> (q: Self)
        ensures
            q.wf(),
            q@ == Seq::<Token>::empty(),
            !q.spec_noted(),
    {
        Self { tokens: Vec::new(), noted: false }
    }

    /// Whether nothing is waiting.
    pub fn is_empty(&self) -> (b: bool)
        ensures
            b == (self@.len() == 0),
    {
        self.tokens.len() == 0
    }

    /// Queues `token`; if the queue is full it is dropped instead, and the first drop of a burst
    /// writes a note to the transcript (on a line of its own).
    pub fn push(&mut self, token: Token, uart: &mut UartTranscript)
        requires
            old(self).wf(),
        ensures
            final(self).wf(),
            old(self)@.len() < QUEUE_CAPACITY ==> final(self)@ == old(self)@.push(token)
                && final(self).spec_noted() == old(self).spec_noted()
                && final(uart).pending() == old(uart).pending(),
            old(self)@.len() >= QUEUE_CAPACITY ==> final(self)@ == old(self)@ && final(self).spec_noted(),
            old(self)@.len() >= QUEUE_CAPACITY && old(self).spec_noted() ==> final(uart).pending() == old(uart).pending(),
            old(self)@.len() >= QUEUE_CAPACITY && !old(self).spec_noted() ==> final(uart).pending()
                == old(uart).pending() + (if old(uart).spec_at_line_start() { Seq::<u8>::empty() } else { seq![13u8, 10u8] })
                    + crlf(overflow_note()) + seq![13u8, 10u8],
            old(self)@.len() >= QUEUE_CAPACITY && !old(self).spec_noted() ==> final(uart).spec_at_line_start(),
            old(self)@.len() < QUEUE_CAPACITY || old(self).spec_noted()
                ==> final(uart).spec_at_line_start() == old(uart).spec_at_line_start(),
    {
        if self.tokens.len() < QUEUE_CAPACITY {
            self.tokens.push(token);
            return;
        }
        if !self.noted {
            self.noted = true;
            uart.uart_ensure_newline();
            let note = "[keyboard: input queue full, further keys dropped]";
            uart.uart_write(note.as_bytes());
            let nl: [u8; 1] = [10];
            uart.uart_write(&nl);
            proof {
                reveal_with_fuel(crlf, 2);
                assert(crlf(nl@) =~= seq![13u8, 10u8]);
            }
        }
    }

    /// Takes the oldest waiting press, if there is one; once the queue is empty, the next burst of
    /// drops gets its own note.
    pub fn pop(&mut self) -> (t: Option<Token>)
        requires
            old(self).wf(),
        ensures
            final(self).wf(),
            old(self)@.len() == 0 ==> t is None && final(self)@ == old(self)@,
            old(self)@.len() > 0 ==> t == Some(old(self)@[0]) && final(self)@ == old(self)@.drop_first(),
            final(self).spec_noted() == (old(self).spec_noted() && final(self)@.len() > 0),
    {
        let t = if self.tokens.len() > 0 { Some(self.tokens.remove(0)) } else { None };
        if self.tokens.len() == 0 {
            self.noted = false;
        }
        t
    }
}

} // verus!
