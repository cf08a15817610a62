//! I/O ports by their number and the width of their accesses.

use core::marker::PhantomData;
use vstd::prelude::*;

verus! {

/// One access to an I/O port: the port, and the value for a write.
#[derive(Clone, Copy, Debug, PartialEq, Eq, Structural)]
pub enum PortOp {
    /// Read a byte from the port.
    In8(u16),
    /// Read a word of 16 bits from the port.
    In16(u16),
    /// Read a word of 32 bits from the port.
    In32(u16),
    /// Write a byte to the port.
    Out8(u16, u8),
    /// Write a word of 16 bits to the port.
    Out16(u16, u16),
    /// Write a word of 32 bits to the port.
    Out32(u16, u32),
}

/// The I/O port with the number `port`, accessed in units of `T`.
pub struct Port<T> {
    pub port: u16,
    pub p: PhantomData<T>,
}

impl<T> Port<T> {
    /// The port with the number `port`.
    pub fn new(port: u16) -> (p: Port<T>)
        ensures
            p.port == port,
    {
        Port { port, p: PhantomData }
    }
}

impl Port<u8> {
    /// The access that reads a byte from the port.
    pub fn read(&self) -> (op: PortOp)
        ensures
            op == PortOp::In8(self.port),
    {
        PortOp::In8(self.port)
    }

    /// The access that writes `src` to the port.
    pub fn write(&mut self, src: u8) -> (op: PortOp)
        ensures
            op == PortOp::Out8(old(self).port, src),
            final(self).port == old(self).port,
    {
        PortOp::Out8(self.port, src)
    }
}

impl Port<u16> {
    /// The access that reads 16 bits from the port.
    pub fn read(&self) -> (op: PortOp)
        ensures
            op == PortOp::In16(self.port),
    {
        PortOp::In16(self.port)
    }

    /// The access that writes `src` to the port.
    pub fn write(&mut self, src: u16) -> (op: PortOp)
        ensures
            op == PortOp::Out16(old(self).port, src),
            final(self).port == old(self).port,
    {
        PortOp::Out16(self.port, src)
    }
}

impl Port<u32> {
    /// The access that reads 32 bits from the port.
    pub fn read(&self) -> (op: PortOp)
        ensures
            op == PortOp::In32(self.port),
    {
        PortOp::In32(self.port)
    }

    /// The access that writes `src` to the port.
    pub fn write(&mut self, src: u32) -> (op: PortOp)
        ensures
            op == PortOp::Out32(old(self).port, src),
            final(self).port == old(self).port,
    {
        PortOp::Out32(self.port, src)
    }
}

} // verus!
