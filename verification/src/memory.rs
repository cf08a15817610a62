//! What the kernel knows of the memory of the machine.

pub mod physical;
