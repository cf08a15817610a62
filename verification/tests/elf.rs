use kernel::elf::{Elf, HeaderType, SectionType, SegmentType};

fn put(data: &mut Vec<u8>, at: usize, value: u64, width: usize) {
    let bytes = value.to_le_bytes();
    data[at..at + width].copy_from_slice(&bytes[..width]);
}

/// An image with one segment at offset 64 and three sections behind it.
fn image() -> Vec<u8> {
    let mut data = vec![0u8; 64 + 56 + 3 * 64];
    data[..4].copy_from_slice(&[0x7F, b'E', b'L', b'F']);
    data[4] = 2;
    data[5] = 1;
    put(&mut data, 16, 2, 2); // executable
    put(&mut data, 18, 0x3E, 2); // x86-64
    put(&mut data, 20, 1, 4);
    put(&mut data, 24, 0xFFFF_8000_0010_0000, 8);
    put(&mut data, 32, 64, 8);
    put(&mut data, 40, 120, 8);
    put(&mut data, 48, 0, 4);
    put(&mut data, 52, 64, 2);
    put(&mut data, 54, 56, 2);
    put(&mut data, 56, 1, 2);
    put(&mut data, 58, 64, 2);
    put(&mut data, 60, 3, 2);
    put(&mut data, 62, 2, 2);
    // the segment
    put(&mut data, 64, 1, 4);
    put(&mut data, 68, 5, 4);
    put(&mut data, 72, 0x1000, 8);
    put(&mut data, 80, 0xFFFF_8000_0010_0000, 8);
    put(&mut data, 88, 0x10_0000, 8);
    put(&mut data, 96, 0x2345, 8);
    put(&mut data, 104, 0x3000, 8);
    put(&mut data, 112, 0x1000, 8);
    // the sections: null, program, strings
    let kinds = [0u64, 1, 3];
    for (i, kind) in kinds.iter().enumerate() {
        let at = 120 + 64 * i;
        put(&mut data, at, 10 * i as u64, 4);
        put(&mut data, at + 4, *kind, 4);
        put(&mut data, at + 8, 6, 8);
        put(&mut data, at + 16, 0x40_0000 + i as u64, 8);
        put(&mut data, at + 24, 0x100 * i as u64, 8);
        put(&mut data, at + 32, 0x80, 8);
        put(&mut data, at + 40, 7, 4);
        put(&mut data, at + 44, 9, 4);
        put(&mut data, at + 48, 16, 8);
        put(&mut data, at + 56, 24, 8);
    }
    data
}

#[test]
fn an_image_is_read_field_by_field() {
    let data = image();
    let elf = Elf::from(&data);
    assert_eq!(elf.header.ident[..6], [0x7F, b'E', b'L', b'F', 2, 1]);
    assert_eq!(elf.header.object_type, HeaderType::Executable);
    assert_eq!(elf.header.machine_type, 0x3E);
    assert_eq!(elf.header.object_ver, 1);
    assert_eq!(elf.header.entry, 0xFFFF_8000_0010_0000);
    assert_eq!(elf.header.phdr_off, 64);
    assert_eq!(elf.header.shdr_off, 120);
    assert_eq!(elf.header.size, 64);
    assert_eq!(elf.header.phdr_size, 56);
    assert_eq!(elf.header.phdr_len, 1);
    assert_eq!(elf.header.shdr_size, 64);
    assert_eq!(elf.header.shdr_len, 3);
    assert_eq!(elf.header.string_table_idx, 2);

    assert_eq!(elf.segments.len(), 1);
    let segment = elf.segments[0];
    assert_eq!(segment.ty, SegmentType::Loadable);
    assert_eq!(segment.flags, 5);
    assert_eq!(segment.offset, 0x1000);
    assert_eq!(segment.vaddr, 0xFFFF_8000_0010_0000);
    assert_eq!(segment.paddr, 0x10_0000);
    assert_eq!(segment.file_size, 0x2345);
    assert_eq!(segment.mem_size, 0x3000);
    assert_eq!(segment.align, 0x1000);

    assert_eq!(elf.sections.len(), 3);
    assert_eq!(elf.sections[0].ty, SectionType::Null);
    assert_eq!(elf.sections[1].ty, SectionType::Program);
    let last = elf.sections[2];
    assert_eq!(last.ty, SectionType::Strings);
    assert_eq!(last.name, 20);
    assert_eq!(last.flags, 6);
    assert_eq!(last.vaddr, 0x40_0002);
    assert_eq!(last.offset, 0x200);
    assert_eq!(last.size, 0x80);
    assert_eq!(last.link, 7);
    assert_eq!(last.info, 9);
    assert_eq!(last.align, 16);
    assert_eq!(last.entry_size, 24);
}

#[test]
fn the_string_table_is_the_first_section_of_strings() {
    let elf = Elf::from(&image());
    assert_eq!(elf.string_table(), Some(&elf.sections[2]));
    assert_eq!(elf.symbol(), "");
    assert_eq!(elf.symbol_table_pointer(0x10_0000), 0x10_0000 + 64 * 0x200);

    let mut two = image();
    put(&mut two, 120 + 64 + 4, 3, 4);
    let elf = Elf::from(&two);
    assert_eq!(elf.string_table(), Some(&elf.sections[1]));

    let mut none = image();
    put(&mut none, 120 + 2 * 64 + 4, 1, 4);
    assert_eq!(Elf::from(&none).string_table(), None);
}

#[test]
fn what_is_not_an_image_is_refused() {
    assert_eq!(Elf::parse(&[]), None);
    assert_eq!(Elf::parse(&image()[..63]), None);
    assert!(Elf::parse(&image()).is_some());

    let mut magic = image();
    magic[1] = b'e';
    assert_eq!(Elf::parse(&magic), None);

    let mut kind = image();
    put(&mut kind, 16, 5, 2);
    assert_eq!(Elf::parse(&kind), None);

    let mut size = image();
    put(&mut size, 58, 40, 2);
    assert_eq!(Elf::parse(&size), None);

    let mut segments = image();
    put(&mut segments, 56, 5, 2);
    assert_eq!(Elf::parse(&segments), None);

    let mut far = image();
    put(&mut far, 40, u64::MAX, 8);
    assert_eq!(Elf::parse(&far), None);

    let mut short = image();
    short.pop();
    assert_eq!(Elf::parse(&short), None);

    let mut segment_kind = image();
    put(&mut segment_kind, 64, 7, 4);
    assert_eq!(Elf::parse(&segment_kind), None);

    let mut section_kind = image();
    put(&mut section_kind, 120 + 64 + 4, 12, 4);
    assert_eq!(Elf::parse(&section_kind), None);
}

#[test]
fn an_image_without_segments_and_sections() {
    let mut data = image();
    data.truncate(64);
    put(&mut data, 56, 0, 2);
    put(&mut data, 60, 0, 2);
    // The tables are empty, but they still have to lie inside the image.
    assert_eq!(Elf::parse(&data), None);
    put(&mut data, 40, 64, 8);
    let elf = Elf::parse(&data).unwrap();
    assert!(elf.segments.is_empty());
    assert!(elf.sections.is_empty());
    assert_eq!(elf.string_table(), None);
}
