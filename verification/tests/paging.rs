use kernel::memory::physical::allocator::BumpAllocator;
use kernel::memory::physical::{Allocator, Frame, MemoryMap, MemoryMapInfo, RegionType};
use kernel::paging::TableIndices;

#[test]
fn the_indices_of_an_address() {
    let i = TableIndices::from_virt(0xFFFF_8000_0010_0000);
    assert_eq!((i.level4, i.level3, i.level2, i.level1), (256, 0, 0, 256));
    let j = TableIndices::from_virt(0x0000_7FFF_FFFF_FFFF);
    assert_eq!((j.level4, j.level3, j.level2, j.level1), (255, 511, 511, 511));
    let k = TableIndices::from_virt(0x0000_0080_4020_1000);
    assert_eq!((k.level4, k.level3, k.level2, k.level1), (1, 1, 1, 1));
    let zero = TableIndices::from_virt(0xFFF);
    assert_eq!((zero.level4, zero.level3, zero.level2, zero.level1), (0, 0, 0, 0));
}

#[test]
fn to_virt_makes_the_address_canonical() {
    let high = TableIndices { level4: 256, level3: 0, level2: 0, level1: 256 };
    assert_eq!(high.to_virt(), 0xFFFF_8000_0010_0000);
    let low = TableIndices { level4: 255, level3: 511, level2: 511, level1: 511 };
    assert_eq!(low.to_virt(), 0x0000_7FFF_FFFF_F000);
    let one = TableIndices { level4: 1, level3: 1, level2: 1, level1: 1 };
    assert_eq!(one.to_virt(), 0x0000_0080_4020_1000);
}

#[test]
fn indices_and_addresses_round_trip() {
    for (l4, l3, l2, l1) in [(0, 0, 0, 0), (511, 511, 511, 511), (255, 1, 2, 3), (256, 3, 2, 1)] {
        let indices = TableIndices { level4: l4, level3: l3, level2: l2, level1: l1 };
        assert!(TableIndices::from_virt(indices.to_virt()) == indices);
    }
    for vaddr in [0u64, 0x1000, 0x0000_7FFF_FFFF_F000, 0xFFFF_8000_0000_0000, 0xFFFF_FFFF_FFFF_F000] {
        assert_eq!(TableIndices::from_virt(vaddr).to_virt(), vaddr);
    }
}

#[test]
fn the_indices_as_text() {
    let i = TableIndices::from_virt(0xFFFF_8000_0010_0000);
    assert_eq!(i.describe(), "level 4: 100\nlevel 3: 0\nlevel 2: 0\nlevel 1: 100");
    assert_eq!(
        i.describe(),
        format!(
            "level 4: {:0X}\nlevel 3: {:0X}\nlevel 2: {:0X}\nlevel 1: {:0X}",
            i.level4, i.level3, i.level2, i.level1
        )
    );
}

fn region(base: usize, len: usize, region_type: RegionType) -> MemoryMap {
    MemoryMap { base, len, region_type, acpi_attributes: 0 }
}

#[test]
fn the_allocator_covers_the_last_usable_region() {
    let info = MemoryMapInfo {
        regions: vec![
            region(0, 0x9F000, RegionType::Usable),
            region(0x9F000, 0x1000, RegionType::Reserved),
            region(0x10_0000, 0x3000, RegionType::Usable),
            region(0xFFFC_0000, 0x4_0000, RegionType::BadMemory),
        ],
        elf_ptr: 0,
        elf_len: 0,
    };
    let mut alloc = BumpAllocator::new(&info);
    assert_eq!(alloc.first_frame, Frame { physical_addr: 0x10_0000 });
    assert_eq!(alloc.last_frame, Frame { physical_addr: 0x10_3000 });
    assert_eq!(alloc.allocate(), Some(Frame { physical_addr: 0x10_0000 }));
    assert_eq!(alloc.allocate(), Some(Frame { physical_addr: 0x10_1000 }));
    assert_eq!(alloc.allocate(), Some(Frame { physical_addr: 0x10_2000 }));
    // The frame at the end of the region is handed out as well.
    assert_eq!(alloc.allocate(), Some(Frame { physical_addr: 0x10_3000 }));
    assert_eq!(alloc.allocate(), None);
    assert_eq!(alloc.allocate(), None);
}

#[test]
fn without_a_usable_region_there_are_no_frames() {
    let info = MemoryMapInfo {
        regions: vec![region(0, 0x1000, RegionType::Reserved), region(0x1000, 1, RegionType::NVS)],
        elf_ptr: 0,
        elf_len: 0,
    };
    let mut alloc = BumpAllocator::new(&info);
    assert_eq!(alloc.next_frame, None);
    assert_eq!(alloc.allocate(), None);
    let empty = MemoryMapInfo { regions: Vec::new(), elf_ptr: 0, elf_len: 0 };
    assert_eq!(BumpAllocator::new(&empty).allocate(), None);
}
