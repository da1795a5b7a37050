//! The PL011 UART's register map, and the serial transcript: what is mirrored to the serial line is
//! converted from `\n` to `\r\n` (a serial line's convention), and the transcript remembers whether it
//! is at the start of a line, so the shell can start its own output on a fresh one.

use vstd::prelude::*;

verus! {

/// Transmit FIFO full (flag register).
pub const UART_TXFF: u32 = 0x20;
/// Receive FIFO empty (flag register).
pub const UART_RXFE: u32 = 0x10;
/// Receive interrupt (mask set/clear and clear registers).
pub const UART_RX: u32 = 0x10;

/// A PL011 UART: the addresses of the registers the kernel uses.
#[derive(Clone, Copy, Debug, PartialEq, Eq, Structural)]
pub struct Uart {
    /// Data register: writing transmits a byte, reading receives one.
    pub dr: usize,
    /// Flag register.
    pub fr: usize,
    /// Interrupt mask set/clear register.
    pub imsc: usize,
    /// Interrupt clear register.
    pub icr: usize,
    /// The SPI number of its interrupt (interrupt ID 32 + SPI).
    pub spi: u32,
}

impl Uart {
    /// The UART whose registers start at `base`.
    pub fn new(base: usize, spi: u32) -> (u: Self)
        requires
            base + 0x44 <= usize::MAX,
        ensures
            u == (Uart { dr: base, fr: (base + 0x18) as usize, imsc: (base + 0x38) as usize, icr: (base + 0x44) as usize, spi }),
    {
        Self { dr: base, fr: base + 0x18, imsc: base + 0x38, icr: base + 0x44, spi }
    }
}

/// `bytes` as sent on the serial line: each `\n` preceded by `\r`.
pub open spec fn crlf(bytes: Seq<u8>) -> Seq<u8>
    decreases bytes.len(),
{
    if bytes.len() == 0 {
        Seq::empty()
    } else {
        let rest = crlf(bytes.drop_last());
        if bytes.last() == 10 { rest + seq![13u8, 10u8] } else { rest.push(bytes.last()) }
    }
}

/// The serial transcript: the bytes to send, oldest first, and whether what was written so far
/// leaves the line at its start.
pub struct UartTranscript {
    at_line_start: bool,
    out: Vec<u8>,
}

/// The bytes that clear a watching terminal's screen: cursor home, erase the display.
pub open spec fn clear_screen_bytes() -> Seq<u8> {
    seq![0x1bu8, 0x5bu8, 0x48u8, 0x1bu8, 0x5bu8, 0x32u8, 0x4au8]
}

impl UartTranscript {
    /// The bytes not yet sent.
    pub closed spec fn pending(&self) -> Seq<u8> {
        self.out@
    }

    pub closed spec fn spec_at_line_start(&self) -> bool {
        self.at_line_start
    }

    /// A transcript at the start of a line, with nothing to send.
    pub fn new() -> (t: Self)
        ensures
            t.spec_at_line_start(),
            t.pending() == Seq::<u8>::empty(),
    {
        Self { at_line_start: true, out: Vec::new() }
    }

    /// Whether the transcript is at the start of a line.
    pub fn uart_at_line_start(&self) -> (b: bool)
        ensures
            b == self.spec_at_line_start(),
    {
        self.at_line_start
    }

    /// Restores a value `uart_at_line_start` read earlier.
    pub fn set_uart_at_line_start(&mut self, at_line_start: bool)
        ensures
            final(self).spec_at_line_start() == at_line_start,
            final(self).pending() == old(self).pending(),
    {
        self.at_line_start = at_line_start;
    }

    /// Writes `bytes`, converting `\n` to `\r\n`, and remembers whether the last byte ended a line
    /// (writing nothing changes nothing).
    pub fn uart_write(&mut self, bytes: &[u8])
        ensures
            final(self).pending() == old(self).pending() + crlf(bytes@),
            final(self).spec_at_line_start() == if bytes@.len() == 0 {
                old(self).spec_at_line_start()
            } else {
                bytes@.last() == 10
            },
    {
        let mut i: usize = 0;
        while i < bytes.len()
            invariant
                i <= bytes@.len(),
                self.out@ == old(self).out@ + crlf(bytes@.take(i as int)),
                self.at_line_start == old(self).at_line_start,
            decreases bytes@.len() - i,
        {
            let b = bytes[i];
            if b == 10 {
                self.out.push(13);
            }
            self.out.push(b);
            proof {
                assert(bytes@.take(i + 1).drop_last() =~= bytes@.take(i as int));
            }
            i += 1;
            assert(self.out@ =~= old(self).out@ + crlf(bytes@.take(i as int)));
        }
        assert(bytes@.take(bytes@.len() as int) =~= bytes@);
        if bytes.len() > 0 {
            self.at_line_start = bytes[bytes.len() - 1] == 10;
        }
    }

    /// Clears the screen of whatever terminal watches the serial line; the transcript is then at the
    /// start of a line.
    pub fn uart_clear_screen(&mut self)
        ensures
            final(self).pending() == old(self).pending() + clear_screen_bytes(),
            final(self).spec_at_line_start(),
    {
        let seq: [u8; 7] = [0x1b, 0x5b, 0x48, 0x1b, 0x5b, 0x32, 0x4a];
        self.uart_write(&seq);
        proof {
            reveal_with_fuel(crlf, 8);
            assert(seq@ =~= clear_screen_bytes());
            assert(crlf(seq@) =~= clear_screen_bytes());
        }
        self.at_line_start = true;
    }

    /// Starts a new line unless already at the start of one.
    pub fn uart_ensure_newline(&mut self)
        ensures
            final(self).spec_at_line_start(),
            final(self).pending() == if old(self).spec_at_line_start() {
                old(self).pending()
            } else {
                old(self).pending() + seq![13u8, 10u8]
            },
    {
        if !self.at_line_start {
            let nl: [u8; 1] = [10];
            self.uart_write(&nl);
            proof {
                reveal_with_fuel(crlf, 2);
                assert(crlf(nl@) =~= seq![13u8, 10u8]);
            }
        }
    }

    /// Hands over the bytes to send, oldest first, and forgets them.
    pub fn take_bytes(&mut self) -> (bytes: Vec<u8>)
        ensures
            bytes@ == old(self).pending(),
            final(self).pending() == Seq::<u8>::empty(),
            final(self).spec_at_line_start() == old(self).spec_at_line_start(),
    {
        let mut bytes = Vec::new();
        std::mem::swap(&mut bytes, &mut self.out);
        bytes
    }
}

} // verus!
