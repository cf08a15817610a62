//! The map of physical memory that the boot loader hands over, and the
//! frames that the kernel takes from it.

pub mod allocator;

use vstd::prelude::*;

verus! {

/// What a region of physical memory can be used for.
#[derive(Debug, Copy, Clone, PartialEq, Eq, Structural)]
pub enum RegionType {
    Usable,
    Reserved,
    Reclaimable,
    NVS,
    BadMemory,
}

/// One region of physical memory.
#[derive(Debug, Copy, Clone)]
pub struct MemoryMap {
    pub base: usize,
    pub len: usize,
    pub region_type: RegionType,
    pub acpi_attributes: u32,
}

/// What the boot loader tells the kernel: the regions of physical memory,
/// and where in memory the image of the kernel lies.
#[derive(Debug)]
pub struct MemoryMapInfo {
    pub regions: Vec<MemoryMap>,
    pub elf_ptr: usize,
    pub elf_len: usize,
}

/// A frame of physical memory, by the address of its first byte.
#[derive(Copy, Clone, Debug, PartialEq, Eq, Structural)]
pub struct Frame {
    pub physical_addr: usize,
}

/// The size of a frame in bytes.
pub const FRAME_SIZE: usize = 0x1000;

/// A source of frames.
pub trait Allocator {
    /// The frame that the next call of `allocate` hands out, if it hands
    /// one out.
    spec fn next(&self) -> Option<Frame>;

    /// Whether the allocator can go on from the frame that it hands out
    /// next.
    spec fn can_allocate(&self) -> bool;

    /// Hand out a frame, or nothing if none is left.
    fn allocate(&mut self) -> (frame: Option<Frame>)
        requires
            old(self).can_allocate(),
        ensures
            frame == old(self).next(),
    ;
}

} // verus!
