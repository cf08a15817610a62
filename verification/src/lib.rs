//! The privileged core of a single-core x86_64 kernel: the cell that is
//! filled once, the spinlock, the interrupt descriptor table, the way into
//! and out of an interrupt handler, and the drivers and helpers around
//! them, each with a machine-checked contract.
//!
//! The library decides and computes; it does not touch the machine. What
//! the machine holds is held here in plain values: the interrupt flag and
//! the table register in [`arch::Cpu`], the accesses to I/O ports in queues
//! of [`io::PortOp`], the screen in the buffer of [`term::Terminal`], the
//! stack of a handler in a vector of words. Every operation says exactly
//! how it changes these values, and the code that runs on the machine
//! carries the changes out: it executes the instruction for each change of
//! the flag, performs the queued accesses in their order, and copies the
//! tables to where the processor reads them.
//!
//! The kernel has one processor and no scheduler, so that of two pieces of
//! code that share a value one has interrupted the other. The
//! synchronisation primitives in [`sync`] are this view of the locks: their
//! state changes through `&mut`, and the steps that are single instructions
//! on the machine are single steps of [`sync::init::Race`] and
//! [`sync::mutex::Acquiring`].

pub mod prelude;
pub mod arch;
pub mod sync;
pub mod io;
pub mod term;
pub mod timer;
pub mod memory;
pub mod paging;
pub mod panic;
pub mod start;
pub mod elf;
