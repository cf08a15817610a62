//! The ways in which the kernel reaches a device: I/O ports and memory that
//! a device shares with the processor.
//!
//! An access to a port is an instruction of the processor. The drivers
//! decide which accesses to make and in which order, and queue them as
//! [`PortOp`] values for the code that executes them.

pub mod port;
pub mod serial;
pub mod volatile;

pub use port::{Port, PortOp};
pub use serial::Serial;
pub use volatile::Volatile;

use vstd::prelude::*;

verus! {

/// A place that holds a value which can be read and replaced.
pub trait Io {
    type Value;

    /// The value that the place holds.
    spec fn value(&self) -> Self::Value;

    /// Read the value.
    fn read(&self) -> (value: Self::Value)
        ensures
            value == self.value(),
    ;

    /// Replace the value.
    fn write(&mut self, src: Self::Value)
        ensures
            final(self).value() == src,
    ;
}

} // verus!
