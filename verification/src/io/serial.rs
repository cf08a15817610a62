//! The first serial line.

use super::port::{Port, PortOp};
use crate::sync::{Global, Mutex, Once, OnceState};
use vstd::prelude::*;

verus! {

/// The first port of the serial line.
pub const COM1: u16 = 0x3F8;

/// The bit of the line status that says that a received byte waits.
pub const DATA_READY: u8 = 0x01;

/// The bit of the line status that says that the next byte can be sent.
pub const TRANSMIT_EMPTY: u8 = 0x20;

/// The serial line: its status port and its data port, and the port
/// accesses that have been decided and not yet carried out.
pub struct Serial {
    pub input: Port<u8>,
    pub output: Port<u8>,
    pub queue: Vec<PortOp>,
}

/// The accesses that prepare the line for use: interrupts of the line off,
/// the divisor of the bit rate set to 3, eight data bits without parity and
/// one stop bit, the buffers on and emptied.
pub open spec fn serial_setup() -> Seq<PortOp> {
    seq![
        PortOp::Out8(0x3F9, 0x00),
        PortOp::Out8(0x3FB, 0x80),
        PortOp::Out8(0x3F8, 0x03),
        PortOp::Out8(0x3F9, 0x00),
        PortOp::Out8(0x3FB, 0x03),
        PortOp::Out8(0x3FA, 0xC7),
        PortOp::Out8(0x3FC, 0x00),
    ]
}

/// The byte that goes over the line for each character of `text`: its code,
/// cut to eight bits.
pub open spec fn line_bytes(text: Seq<char>) -> Seq<u8> {
    Seq::new(text.len(), |i: int| text[i] as u8)
}

/// The accesses that send `bytes` in order.
pub open spec fn sends(port: u16, bytes: Seq<u8>) -> Seq<PortOp> {
    Seq::new(bytes.len(), |i: int| PortOp::Out8(port, bytes[i]))
}

impl Serial {
    /// The line with the accesses queued that prepare it for use.
    pub fn default() -> (serial: Serial)
        ensures
            serial.input.port == COM1 + 5,
            serial.output.port == COM1,
            serial.queue@ == serial_setup(),
    {
        let mut queue: Vec<PortOp> = Vec::new();
        queue.push(Port::<u8>::new(COM1 + 1).write(0u8));
        queue.push(Port::<u8>::new(COM1 + 3).write(0x80u8));
        queue.push(Port::<u8>::new(COM1 + 0).write(0x03u8));
        queue.push(Port::<u8>::new(COM1 + 1).write(0u8));
        queue.push(Port::<u8>::new(COM1 + 3).write(0x03u8));
        queue.push(Port::<u8>::new(COM1 + 2).write(0xC7u8));
        queue.push(Port::<u8>::new(COM1 + 4).write(0u8));
        assert(queue@ =~= serial_setup());
        Serial { input: Port::new(COM1 + 5), output: Port::new(COM1), queue }
    }

    /// Whether a line with the status `status` holds a received byte. The
    /// status port is read until it does, and the data port is read then.
    pub fn can_read(status: u8) -> (ready: bool)
        ensures
            ready == (status & DATA_READY != 0),
    {
        status & DATA_READY != 0
    }

    /// Whether a line with the status `status` takes the next byte. The
    /// status port is read until it does, and the byte is written then.
    pub fn can_write(status: u8) -> (ready: bool)
        ensures
            ready == (status & TRANSMIT_EMPTY != 0),
    {
        status & TRANSMIT_EMPTY != 0
    }

    /// Queue the access that sends `src`.
    pub fn write(&mut self, src: u8)
        ensures
            final(self).queue@ == old(self).queue@.push(PortOp::Out8(old(self).output.port, src)),
            final(self).input == old(self).input,
            final(self).output == old(self).output,
    {
        let op = self.output.write(src);
        self.queue.push(op);
    }

    /// Queue the accesses that send `s`, one byte for each character.
    pub fn write_str(&mut self, s: &str)
        ensures
            final(self).queue@ == old(self).queue@ + sends(old(self).output.port, line_bytes(s@)),
            final(self).input == old(self).input,
            final(self).output == old(self).output,
    {
        let n = s.unicode_len();
        let mut i: usize = 0;
        assert(old(self).queue@ + sends(self.output.port, line_bytes(s@).take(0)) =~= old(
            self,
        ).queue@);
        while i < n
            invariant
                n == s@.len(),
                i <= n,
                self.input == old(self).input,
                self.output == old(self).output,
                self.queue@ == old(self).queue@ + sends(
                    self.output.port,
                    line_bytes(s@).take(i as int),
                ),
            decreases n - i,
        {
            let ch = s.get_char(i);
            proof {
                let bytes = line_bytes(s@);
                assert(sends(self.output.port, bytes.take(i as int)).push(
                    PortOp::Out8(self.output.port, ch as u8),
                ) =~= sends(self.output.port, bytes.take(i + 1)));
            }
            self.write(#[verifier::truncate] (ch as u8));
            i += 1;
        }
        assert(line_bytes(s@).take(n as int) =~= line_bytes(s@));
    }

    /// Hand over the accesses that have been queued, in the order in which
    /// they are to be carried out.
    pub fn take_queue(&mut self) -> (ops: Vec<PortOp>)
        ensures
            ops@ == old(self).queue@,
            final(self).queue@.len() == 0,
            final(self).input == old(self).input,
            final(self).output == old(self).output,
    {
        let mut ops: Vec<PortOp> = Vec::new();
        core::mem::swap(&mut ops, &mut self.queue);
        ops
    }
}

impl Serial {
    /// Whether `value` is the line as [`Serial::default`] constructs it.
    pub open spec fn initial(value: Self) -> bool {
        &&& value.input.port == COM1 + 5
        &&& value.output.port == COM1
        &&& value.queue@ == serial_setup()
    }
}

impl Global for Serial {
    /// A new instance is free and [`initial`](Serial::initial).
    fn global(cell: &mut Once<Mutex<Self>>) -> (instance: &mut Mutex<Self>)
        ensures
            old(cell).state() == OnceState::Empty ==> !instance.is_locked() && Self::initial(
                instance.data(),
            ),
    {
        cell.call_once(construct)
    }
}

/// The mutex around a fresh serial line.
fn construct() -> (m: Mutex<Serial>)
    ensures
        !m.is_locked(),
        Serial::initial(m.data()),
{
    Mutex::new(Serial::default())
}

} // verus!
