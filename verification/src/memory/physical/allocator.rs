//! An allocator that hands out the frames of one region in ascending order.

use super::{Allocator, Frame, MemoryMap, MemoryMapInfo, RegionType, FRAME_SIZE};
use vstd::prelude::*;

verus! {

/// Hands out the frames of one region of memory one after the other, from
/// the first frame of the region to the frame at its end. It takes no frame
/// back.
#[derive(Debug)]
pub struct BumpAllocator {
    pub first_frame: Frame,
    pub last_frame: Frame,
    pub next_frame: Option<Frame>,
}

/// The first frame, the last frame and the next frame of the allocator over
/// the last usable region among the first `count` regions of `regions`, or
/// of an allocator without frames if none of them is usable.
pub open spec fn allocator_over(regions: Seq<MemoryMap>, count: int) -> (
    Frame,
    Frame,
    Option<Frame>,
)
    decreases count,
{
    if count <= 0 {
        (Frame { physical_addr: 0 }, Frame { physical_addr: 0 }, None)
    } else if regions[count - 1].region_type == RegionType::Usable {
        (
            Frame { physical_addr: regions[count - 1].base },
            Frame { physical_addr: (regions[count - 1].base + regions[count - 1].len) as usize },
            Some(Frame { physical_addr: regions[count - 1].base }),
        )
    } else {
        allocator_over(regions, count - 1)
    }
}

impl BumpAllocator {
    /// The allocator over the last usable region of the memory map. The end
    /// of each usable region has to be an address.
    pub fn new(info: &MemoryMapInfo) -> (alloc: BumpAllocator)
        requires
            forall|i: int|
                0 <= i < info.regions@.len() && info.regions@[i].region_type == RegionType::Usable
                    ==> info.regions@[i].base + info.regions@[i].len <= usize::MAX,
        ensures
            (alloc.first_frame, alloc.last_frame, alloc.next_frame) == allocator_over(
                info.regions@,
                info.regions@.len() as int,
            ),
    {
        let mut alloc = BumpAllocator {
            first_frame: Frame { physical_addr: 0 },
            last_frame: Frame { physical_addr: 0 },
            next_frame: None,
        };
        let mut i: usize = 0;
        while i < info.regions.len()
            invariant
                i <= info.regions@.len(),
                forall|k: int|
                    0 <= k < info.regions@.len() && info.regions@[k].region_type
                        == RegionType::Usable ==> info.regions@[k].base + info.regions@[k].len
                        <= usize::MAX,
                (alloc.first_frame, alloc.last_frame, alloc.next_frame) == allocator_over(
                    info.regions@,
                    i as int,
                ),
            decreases info.regions@.len() - i,
        {
            let r = &info.regions[i];
            if let RegionType::Usable = r.region_type {
                alloc = BumpAllocator {
                    first_frame: Frame { physical_addr: r.base },
                    last_frame: Frame { physical_addr: r.base + r.len },
                    next_frame: Some(Frame { physical_addr: r.base }),
                };
            }
            i += 1;
        }
        alloc
    }
}

impl Allocator for BumpAllocator {
    open spec fn next(&self) -> Option<Frame> {
        self.next_frame
    }

    open spec fn can_allocate(&self) -> bool {
        self.next_frame matches Some(frame) ==> frame == self.last_frame || frame.physical_addr
            + FRAME_SIZE <= usize::MAX
    }

    /// Hand out the next frame. The frame after it comes next, unless it
    /// was the frame at the end of the region, after which none is left.
    fn allocate(&mut self) -> (frame: Option<Frame>)
        ensures
            final(self).first_frame == old(self).first_frame,
            final(self).last_frame == old(self).last_frame,
            final(self).next_frame == match old(self).next_frame {
                Some(frame) => if frame == old(self).last_frame {
                    None
                } else {
                    Some(Frame { physical_addr: (frame.physical_addr + FRAME_SIZE) as usize })
                },
                None => None,
            },
    {
        match self.next_frame.take() {
            Some(frame) => {
                if frame.physical_addr == self.last_frame.physical_addr {
                    self.next_frame = None;
                    Some(frame)
                } else {
                    self.next_frame = Some(Frame { physical_addr: frame.physical_addr + 0x1000 });
                    Some(frame)
                }
            },
            None => None,
        }
    }
}

} // verus!
