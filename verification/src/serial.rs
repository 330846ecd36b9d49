//! The serial log: what goes out on the wire.
//!
//! `SerialWriter` gathers the bytes of the log in the order in which they
//! are to be sent to the first serial port. The port itself is not touched
//! here: whoever owns it sends `init`'s register writes once and then
//! whatever `take` hands over.

use vstd::prelude::*;
use vstd::string::StringSliceAdditionalSpecFns;
use crate::text::{digits, push_digits};

verus! {

/// I/O port of the first serial port.
pub const COM1: u16 = 0x3F8;

/// Divisor of the baud rate generator for 38400 baud.
pub const BAUD_DIVISOR: u8 = 3;

/// The bytes of the log that wait to be sent.
#[derive(Debug)]
pub struct SerialWriter {
    pub pending: Vec<u8>,
}

/// `s` with a carriage return before every line feed.
pub open spec fn expand_newlines(s: Seq<u8>) -> Seq<u8>
    decreases s.len(),
{
    if s.len() == 0 {
        Seq::empty()
    } else if s.last() == 10 {
        expand_newlines(s.drop_last()) + seq![13u8, 10u8]
    } else {
        expand_newlines(s.drop_last()).push(s.last())
    }
}

/// The register writes, as (port, value), that set the port to eight data
/// bits, no parity, one stop bit at 38400 baud: interrupts off, divisor
/// latch open, divisor low and high byte, line control, FIFO control, modem
/// control.
pub open spec fn init_writes() -> Seq<(u16, u8)> {
    seq![
        (0x3F9u16, 0x00u8),
        (0x3FBu16, 0x80u8),
        (0x3F8u16, 0x03u8),
        (0x3F9u16, 0x00u8),
        (0x3FBu16, 0x03u8),
        (0x3FAu16, 0xC7u8),
        (0x3FCu16, 0x0Bu8),
    ]
}

impl SerialWriter {
    /// A writer with nothing to send.
    pub fn new() -> (w: SerialWriter)
        ensures
            w.pending@ == Seq::<u8>::empty(),
    {
        SerialWriter { pending: Vec::new() }
    }

    /// The register writes that set the port up, in order.
    pub fn init() -> (writes: Vec<(u16, u8)>)
        ensures
            writes@ == init_writes(),
    {
        let mut writes: Vec<(u16, u8)> = Vec::new();
        writes.push((COM1 + 1, 0x00));
        writes.push((COM1 + 3, 0x80));
        writes.push((COM1, BAUD_DIVISOR));
        writes.push((COM1 + 1, 0x00));
        writes.push((COM1 + 3, 0x03));
        writes.push((COM1 + 2, 0xC7));
        writes.push((COM1 + 4, 0x0B));
        assert(writes@ =~= init_writes());
        writes
    }

    /// Queues the bytes of `s`, with a carriage return before every line
    /// feed.
    pub fn write(&mut self, s: &str)
        ensures
            final(self).pending@ == old(self).pending@ + expand_newlines(s.spec_bytes()),
    {
        let bytes = s.as_bytes();
        let mut i: usize = 0;
        while i < bytes.len()
            invariant
                i <= bytes.len(),
                bytes@ == s.spec_bytes(),
                self.pending@ == old(self).pending@ + expand_newlines(bytes@.subrange(0, i as int)),
            decreases bytes.len() - i,
        {
            let b = bytes[i];
            let ghost upto = bytes@.subrange(0, i + 1);
            proof {
                assert(upto.drop_last() =~= bytes@.subrange(0, i as int));
                assert(upto.last() == b);
            }
            if b == 10 {
                self.pending.push(13);
            }
            self.pending.push(b);
            assert(self.pending@ =~= old(self).pending@ + expand_newlines(upto));
            i = i + 1;
        }
        assert(bytes@.subrange(0, i as int) =~= bytes@);
    }

    /// Queues `n` in decimal.
    pub fn write_u32(&mut self, n: u32)
        ensures
            final(self).pending@ == old(self).pending@ + digits(n as nat, false),
    {
        push_digits(&mut self.pending, n as u64, false);
    }

    /// Queues `n` in decimal.
    pub fn write_usize(&mut self, n: usize)
        ensures
            final(self).pending@ == old(self).pending@ + digits(n as nat, false),
    {
        push_digits(&mut self.pending, n as u64, false);
    }

    /// Queues `n` in decimal.
    pub fn write_u64(&mut self, n: u64)
        ensures
            final(self).pending@ == old(self).pending@ + digits(n as nat, false),
    {
        push_digits(&mut self.pending, n, false);
    }

    /// Queues `0x` and `n` in lower-case hexadecimal.
    pub fn write_hex(&mut self, n: usize)
        ensures
            final(self).pending@ == old(self).pending@ + seq![48u8, 120u8] + digits(n as nat, true),
    {
        self.pending.push(48);
        self.pending.push(120);
        assert(self.pending@ =~= old(self).pending@ + seq![48u8, 120u8]);
        push_digits(&mut self.pending, n as u64, true);
    }

    /// Hands over what is queued, in order, and starts anew.
    pub fn take(&mut self) -> (bytes: Vec<u8>)
        ensures
            bytes@ == old(self).pending@,
            final(self).pending@ == Seq::<u8>::empty(),
    {
        let mut bytes: Vec<u8> = Vec::new();
        let mut i: usize = 0;
        while i < self.pending.len()
            invariant
                i <= self.pending@.len(),
                self.pending@ == old(self).pending@,
                bytes@ == self.pending@.subrange(0, i as int),
            decreases self.pending@.len() - i,
        {
            bytes.push(self.pending[i]);
            assert(bytes@ =~= self.pending@.subrange(0, i + 1));
            i = i + 1;
        }
        assert(bytes@ =~= self.pending@);
        self.pending.clear();
        bytes
    }
}

} // verus!
