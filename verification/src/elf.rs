//! The image of the kernel as the boot loader leaves it in memory: an ELF
//! file of the 64-bit little-endian kind.

use vstd::prelude::*;

verus! {

/// The four bytes with which every image begins.
pub const ELFMAGIC: [u8; 4] = [0x7F, 0x45, 0x4C, 0x46];

/// The size of the header of an image in bytes.
pub const HEADER_SIZE: usize = 64;

/// The size of the description of a segment in bytes.
pub const SEGMENT_SIZE: usize = 56;

/// The size of the description of a section in bytes.
pub const SECTION_SIZE: usize = 64;

/// The header of an image.
#[derive(Debug, Copy, Clone, PartialEq, Eq)]
pub struct Header {
    pub ident: [u8; 16],
    pub object_type: HeaderType,
    pub machine_type: u16,
    pub object_ver: u32,
    pub entry: u64,
    pub phdr_off: u64,
    pub shdr_off: u64,
    pub flags: u32,
    pub size: u16,
    pub phdr_size: u16,
    pub phdr_len: u16,
    pub shdr_size: u16,
    pub shdr_len: u16,
    pub string_table_idx: u16,
}

/// What kind of object an image holds.
#[derive(Debug, Copy, Clone, PartialEq, Eq, Structural)]
pub enum HeaderType {
    NoType,
    Relocatable,
    Executable,
    Dynamic,
    Core,
}

/// What a segment is for.
#[derive(Debug, Copy, Clone, PartialEq, Eq, Structural)]
pub enum SegmentType {
    Null,
    Loadable,
    Dynamic,
    Interpreter,
    Note,
    Reserved,
    ProgramHeaderTable,
}

/// A part of the image as it is to lie in memory.
#[derive(Debug, Copy, Clone, PartialEq, Eq, Structural)]
pub struct Segment {
    pub ty: SegmentType,
    pub flags: u32,
    pub offset: u64,
    pub vaddr: u64,
    pub paddr: u64,
    pub file_size: u64,
    pub mem_size: u64,
    pub align: u64,
}

/// What a section holds.
#[allow(non_camel_case_types)]
#[derive(Debug, Copy, Clone, PartialEq, Eq, Structural)]
pub enum SectionType {
    Null,
    Program,
    Symbols,
    Strings,
    Relocation_a,
    Hash,
    Dynamic,
    Note,
    Uninitialized,
    Relocation,
    Reserved,
    DynamicSymbol,
}

/// A part of the image as the linker sees it.
#[derive(Debug, Copy, Clone, PartialEq, Eq, Structural)]
pub struct Section {
    /// Offset, in bytes, to the section name, relative to the start
    /// of the section name string table
    pub name: u32,
    /// Section type
    pub ty: SectionType,
    /// Section attributes
    pub flags: u64,
    /// Virtual address of the beginning of the section in memory
    pub vaddr: u64,
    /// Offset, in bytes, of the beginning of the section contents of the file
    pub offset: u64,
    /// Size, in bytes, of the section
    pub size: u64,
    /// Section index of an associated section
    pub link: u32,
    /// Extra information about the section
    pub info: u32,
    /// Required alignment of the section. invariant that it is power of 2
    pub align: u64,
    /// size, in bytes, of each entry, for sections that contain fixed-size
    /// entries.
    pub entry_size: u64,
}

/// An entry of a symbol table.
#[derive(Debug, Copy, Clone, PartialEq, Eq, Structural)]
pub struct Symbol {
    /// Offset, in bytes, to the symbol name, relative to the start of the
    /// symbol string table. If zero, symbol has no name
    pub name: u32,
    /// Symbol type and scope
    pub info: u8,
    pub res: u8,
    /// Section index of the section in which the symbol is defined
    pub idx: u16,
    /// Value of the symbol. May be absolute or relocatable
    pub value: u64,
    /// Size associated with the symbol
    pub size: u64,
}

/// An image: its header and the descriptions of its segments and sections.
#[derive(Debug, PartialEq, Eq)]
pub struct Elf {
    pub header: Header,
    pub segments: Vec<Segment>,
    pub sections: Vec<Section>,
}

/// The number that the `width` bytes of `data` from `at` on spell, least
/// significant byte first.
pub open spec fn le(data: Seq<u8>, at: int, width: nat) -> nat
    decreases width,
{
    if width == 0 {
        0
    } else {
        data[at] as nat + 256 * le(data, at + 1, (width - 1) as nat)
    }
}

/// The number of 16 bits at `at`.
fn read_u16(data: &[u8], at: usize) -> (x: u16)
    requires
        at + 2 <= data@.len(),
    ensures
        x == le(data@, at as int, 2),
{
    proof {
        reveal_with_fuel(le, 3);
    }
    data[at] as u16 + 256 * (data[at + 1] as u16)
}

/// The number of 32 bits at `at`.
fn read_u32(data: &[u8], at: usize) -> (x: u32)
    requires
        at + 4 <= data@.len(),
    ensures
        x == le(data@, at as int, 4),
{
    proof {
        reveal_with_fuel(le, 5);
    }
    data[at] as u32 + 256 * (data[at + 1] as u32 + 256 * (data[at + 2] as u32 + 256 * (data[at
        + 3] as u32)))
}

/// The number of 64 bits at `at`.
fn read_u64(data: &[u8], at: usize) -> (x: u64)
    requires
        at + 8 <= data@.len(),
    ensures
        x == le(data@, at as int, 8),
{
    proof {
        reveal_with_fuel(le, 9);
    }
    data[at] as u64 + 256 * (data[at + 1] as u64 + 256 * (data[at + 2] as u64 + 256 * (data[at
        + 3] as u64 + 256 * (data[at + 4] as u64 + 256 * (data[at + 5] as u64 + 256 * (data[at
        + 6] as u64 + 256 * (data[at + 7] as u64)))))))
}

impl HeaderType {
    /// The kind with the number `n`, if there is one.
    pub open spec fn of(n: nat) -> Option<HeaderType> {
        if n == 0 {
            Some(HeaderType::NoType)
        } else if n == 1 {
            Some(HeaderType::Relocatable)
        } else if n == 2 {
            Some(HeaderType::Executable)
        } else if n == 3 {
            Some(HeaderType::Dynamic)
        } else if n == 4 {
            Some(HeaderType::Core)
        } else {
            None
        }
    }

    /// The kind with the number `n`, if there is one.
    pub fn from_number(n: u16) -> (t: Option<HeaderType>)
        ensures
            t == Self::of(n as nat),
    {
        match n {
            0 => Some(HeaderType::NoType),
            1 => Some(HeaderType::Relocatable),
            2 => Some(HeaderType::Executable),
            3 => Some(HeaderType::Dynamic),
            4 => Some(HeaderType::Core),
            _ => None,
        }
    }
}

impl SegmentType {
    /// The kind with the number `n`, if there is one.
    pub open spec fn of(n: nat) -> Option<SegmentType> {
        if n == 0 {
            Some(SegmentType::Null)
        } else if n == 1 {
            Some(SegmentType::Loadable)
        } else if n == 2 {
            Some(SegmentType::Dynamic)
        } else if n == 3 {
            Some(SegmentType::Interpreter)
        } else if n == 4 {
            Some(SegmentType::Note)
        } else if n == 5 {
            Some(SegmentType::Reserved)
        } else if n == 6 {
            Some(SegmentType::ProgramHeaderTable)
        } else {
            None
        }
    }

    /// The kind with the number `n`, if there is one.
    pub fn from_number(n: u32) -> (t: Option<SegmentType>)
        ensures
            t == Self::of(n as nat),
    {
        match n {
            0 => Some(SegmentType::Null),
            1 => Some(SegmentType::Loadable),
            2 => Some(SegmentType::Dynamic),
            3 => Some(SegmentType::Interpreter),
            4 => Some(SegmentType::Note),
            5 => Some(SegmentType::Reserved),
            6 => Some(SegmentType::ProgramHeaderTable),
            _ => None,
        }
    }
}

impl SectionType {
    /// The kind with the number `n`, if there is one.
    pub open spec fn of(n: nat) -> Option<SectionType> {
        if n == 0 {
            Some(SectionType::Null)
        } else if n == 1 {
            Some(SectionType::Program)
        } else if n == 2 {
            Some(SectionType::Symbols)
        } else if n == 3 {
            Some(SectionType::Strings)
        } else if n == 4 {
            Some(SectionType::Relocation_a)
        } else if n == 5 {
            Some(SectionType::Hash)
        } else if n == 6 {
            Some(SectionType::Dynamic)
        } else if n == 7 {
            Some(SectionType::Note)
        } else if n == 8 {
            Some(SectionType::Uninitialized)
        } else if n == 9 {
            Some(SectionType::Relocation)
        } else if n == 10 {
            Some(SectionType::Reserved)
        } else if n == 11 {
            Some(SectionType::DynamicSymbol)
        } else {
            None
        }
    }

    /// The kind with the number `n`, if there is one.
    pub fn from_number(n: u32) -> (t: Option<SectionType>)
        ensures
            t == Self::of(n as nat),
    {
        match n {
            0 => Some(SectionType::Null),
            1 => Some(SectionType::Program),
            2 => Some(SectionType::Symbols),
            3 => Some(SectionType::Strings),
            4 => Some(SectionType::Relocation_a),
            5 => Some(SectionType::Hash),
            6 => Some(SectionType::Dynamic),
            7 => Some(SectionType::Note),
            8 => Some(SectionType::Uninitialized),
            9 => Some(SectionType::Relocation),
            10 => Some(SectionType::Reserved),
            11 => Some(SectionType::DynamicSymbol),
            _ => None,
        }
    }
}

impl Header {
    /// Whether `header` is what the first 64 bytes of `data` spell.
    pub open spec fn spells(data: Seq<u8>, header: Header) -> bool {
        &&& header.ident@ == data.subrange(0, 16)
        &&& Some(header.object_type) == HeaderType::of(le(data, 16, 2))
        &&& header.machine_type == le(data, 18, 2)
        &&& header.object_ver == le(data, 20, 4)
        &&& header.entry == le(data, 24, 8)
        &&& header.phdr_off == le(data, 32, 8)
        &&& header.shdr_off == le(data, 40, 8)
        &&& header.flags == le(data, 48, 4)
        &&& header.size == le(data, 52, 2)
        &&& header.phdr_size == le(data, 54, 2)
        &&& header.phdr_len == le(data, 56, 2)
        &&& header.shdr_size == le(data, 58, 2)
        &&& header.shdr_len == le(data, 60, 2)
        &&& header.string_table_idx == le(data, 62, 2)
    }

    /// The header that `data` begins with, or nothing if its kind of object
    /// is unknown.
    pub fn read(data: &[u8]) -> (header: Option<Header>)
        requires
            data@.len() >= 64,
        ensures
            header.is_some() == HeaderType::of(le(data@, 16, 2)).is_some(),
            header matches Some(h) ==> Self::spells(data@, h),
    {
        let object_type = match HeaderType::from_number(read_u16(data, 16)) {
            Some(t) => t,
            None => {
                return None;
            },
        };
        let mut ident = [0u8; 16];
        let mut i: usize = 0;
        while i < 16
            invariant
                i <= 16,
                data@.len() >= 64,
                forall|k: int| 0 <= k < i ==> ident@[k] == data@[k],
            decreases 16 - i,
        {
            ident[i] = data[i];
            i += 1;
        }
        assert(ident@ =~= data@.subrange(0, 16));
        Some(
            Header {
                ident,
                object_type,
                machine_type: read_u16(data, 18),
                object_ver: read_u32(data, 20),
                entry: read_u64(data, 24),
                phdr_off: read_u64(data, 32),
                shdr_off: read_u64(data, 40),
                flags: read_u32(data, 48),
                size: read_u16(data, 52),
                phdr_size: read_u16(data, 54),
                phdr_len: read_u16(data, 56),
                shdr_size: read_u16(data, 58),
                shdr_len: read_u16(data, 60),
                string_table_idx: read_u16(data, 62),
            },
        )
    }
}

impl Segment {
    /// Whether `segment` is what the 56 bytes of `data` from `at` on spell.
    pub open spec fn spells(data: Seq<u8>, at: int, segment: Segment) -> bool {
        &&& Some(segment.ty) == SegmentType::of(le(data, at, 4))
        &&& segment.flags == le(data, at + 4, 4)
        &&& segment.offset == le(data, at + 8, 8)
        &&& segment.vaddr == le(data, at + 16, 8)
        &&& segment.paddr == le(data, at + 24, 8)
        &&& segment.file_size == le(data, at + 32, 8)
        &&& segment.mem_size == le(data, at + 40, 8)
        &&& segment.align == le(data, at + 48, 8)
    }

    /// The segment that is described at `at`, or nothing if its kind is
    /// unknown.
    pub fn read(data: &[u8], at: usize) -> (segment: Option<Segment>)
        requires
            at + 56 <= data@.len(),
        ensures
            segment.is_some() == SegmentType::of(le(data@, at as int, 4)).is_some(),
            segment matches Some(s) ==> Self::spells(data@, at as int, s),
    {
        let _len = data.len();
        match SegmentType::from_number(read_u32(data, at)) {
            Some(ty) => Some(
                Segment {
                    ty,
                    flags: read_u32(data, at + 4),
                    offset: read_u64(data, at + 8),
                    vaddr: read_u64(data, at + 16),
                    paddr: read_u64(data, at + 24),
                    file_size: read_u64(data, at + 32),
                    mem_size: read_u64(data, at + 40),
                    align: read_u64(data, at + 48),
                },
            ),
            None => None,
        }
    }
}

impl Section {
    /// Whether `section` is what the 64 bytes of `data` from `at` on spell.
    pub open spec fn spells(data: Seq<u8>, at: int, section: Section) -> bool {
        &&& section.name == le(data, at, 4)
        &&& Some(section.ty) == SectionType::of(le(data, at + 4, 4))
        &&& section.flags == le(data, at + 8, 8)
        &&& section.vaddr == le(data, at + 16, 8)
        &&& section.offset == le(data, at + 24, 8)
        &&& section.size == le(data, at + 32, 8)
        &&& section.link == le(data, at + 40, 4)
        &&& section.info == le(data, at + 44, 4)
        &&& section.align == le(data, at + 48, 8)
        &&& section.entry_size == le(data, at + 56, 8)
    }

    /// The section that is described at `at`, or nothing if its kind is
    /// unknown.
    pub fn read(data: &[u8], at: usize) -> (section: Option<Section>)
        requires
            at + 64 <= data@.len(),
        ensures
            section.is_some() == SectionType::of(le(data@, at as int + 4, 4)).is_some(),
            section matches Some(s) ==> Self::spells(data@, at as int, s),
    {
        let _len = data.len();
        match SectionType::from_number(read_u32(data, at + 4)) {
            Some(ty) => Some(
                Section {
                    name: read_u32(data, at),
                    ty,
                    flags: read_u64(data, at + 8),
                    vaddr: read_u64(data, at + 16),
                    offset: read_u64(data, at + 24),
                    size: read_u64(data, at + 32),
                    link: read_u32(data, at + 40),
                    info: read_u32(data, at + 44),
                    align: read_u64(data, at + 48),
                    entry_size: read_u64(data, at + 56),
                },
            ),
            None => None,
        }
    }
}

impl Elf {
    /// Whether `data` is an image that can be read: it begins with the four
    /// bytes of every image and a whole header of a known kind, its
    /// sections are described in 64 bytes each, the descriptions of its
    /// segments and of its sections lie inside `data`, and each of them is
    /// of a known kind.
    pub open spec fn valid(data: Seq<u8>) -> bool {
        &&& data.len() >= 64
        &&& data[0] == 0x7F && data[1] == 0x45 && data[2] == 0x4C && data[3] == 0x46
        &&& HeaderType::of(le(data, 16, 2)).is_some()
        &&& le(data, 58, 2) == 64
        &&& le(data, 32, 8) + 56 * le(data, 56, 2) <= data.len()
        &&& le(data, 40, 8) + 64 * le(data, 60, 2) <= data.len()
        &&& forall|i: int|
            0 <= i < le(data, 56, 2) ==> (#[trigger] SegmentType::of(
                le(data, le(data, 32, 8) + 56 * i, 4),
            )).is_some()
        &&& forall|i: int|
            0 <= i < le(data, 60, 2) ==> (#[trigger] SectionType::of(
                le(data, le(data, 40, 8) + 64 * i + 4, 4),
            )).is_some()
    }

    /// Whether `elf` is what `data` spells: its header, and the segments
    /// and sections that the header counts, in the order of their
    /// descriptions.
    pub open spec fn spells(data: Seq<u8>, elf: Elf) -> bool {
        &&& Header::spells(data, elf.header)
        &&& elf.segments@.len() == elf.header.phdr_len
        &&& forall|i: int|
            0 <= i < elf.segments@.len() ==> Segment::spells(
                data,
                elf.header.phdr_off + 56 * i,
                #[trigger] elf.segments@[i],
            )
        &&& elf.sections@.len() == elf.header.shdr_len
        &&& forall|i: int|
            0 <= i < elf.sections@.len() ==> Section::spells(
                data,
                elf.header.shdr_off + 64 * i,
                #[trigger] elf.sections@[i],
            )
    }

    /// The image that `data` holds, or nothing if `data` is not an image
    /// that can be read.
    pub fn parse(data: &[u8]) -> (elf: Option<Elf>)
        ensures
            elf.is_some() == Self::valid(data@),
            elf matches Some(e) ==> Self::spells(data@, e),
    {
        if data.len() < HEADER_SIZE {
            return None;
        }
        if data[0] != ELFMAGIC[0] || data[1] != ELFMAGIC[1] || data[2] != ELFMAGIC[2] || data[3]
            != ELFMAGIC[3] {
            return None;
        }
        let header = match Header::read(data) {
            Some(h) => h,
            None => {
                return None;
            },
        };
        if header.shdr_size as usize != SECTION_SIZE {
            return None;
        }
        let len: u64 = data.len() as u64;
        let segments_size: u64 = SEGMENT_SIZE as u64 * header.phdr_len as u64;
        if header.phdr_off > len || len - header.phdr_off < segments_size {
            return None;
        }
        let sections_size: u64 = SECTION_SIZE as u64 * header.shdr_len as u64;
        if header.shdr_off > len || len - header.shdr_off < sections_size {
            return None;
        }
        let mut segments: Vec<Segment> = Vec::new();
        let mut i: usize = 0;
        while i < header.phdr_len as usize
            invariant
                i <= header.phdr_len,
                data@.len() >= 64,
                data@.len() <= usize::MAX,
                Header::spells(data@, header),
                header.phdr_off + 56 * header.phdr_len <= data@.len(),
                segments@.len() == i,
                forall|k: int|
                    0 <= k < i ==> (#[trigger] SegmentType::of(
                        le(data@, header.phdr_off + 56 * k, 4),
                    )).is_some(),
                forall|k: int|
                    0 <= k < i ==> Segment::spells(
                        data@,
                        header.phdr_off + 56 * k,
                        #[trigger] segments@[k],
                    ),
            decreases header.phdr_len - i,
        {
            let at = header.phdr_off as usize + SEGMENT_SIZE * i;
            match Segment::read(data, at) {
                Some(segment) => {
                    segments.push(segment);
                },
                None => {
                    assert(SegmentType::of(le(data@, le(data@, 32, 8) + 56 * (i as int), 4)).is_none());
                    return None;
                },
            }
            i += 1;
        }
        let mut sections: Vec<Section> = Vec::new();
        let mut j: usize = 0;
        while j < header.shdr_len as usize
            invariant
                j <= header.shdr_len,
                data@.len() >= 64,
                data@.len() <= usize::MAX,
                Header::spells(data@, header),
                header.shdr_off + 64 * header.shdr_len <= data@.len(),
                sections@.len() == j,
                forall|k: int|
                    0 <= k < j ==> (#[trigger] SectionType::of(
                        le(data@, header.shdr_off + 64 * k + 4, 4),
                    )).is_some(),
                forall|k: int|
                    0 <= k < j ==> Section::spells(
                        data@,
                        header.shdr_off + 64 * k,
                        #[trigger] sections@[k],
                    ),
            decreases header.shdr_len - j,
        {
            let at = header.shdr_off as usize + SECTION_SIZE * j;
            match Section::read(data, at) {
                Some(section) => {
                    sections.push(section);
                },
                None => {
                    assert(SectionType::of(
                        le(data@, le(data@, 40, 8) + 64 * (j as int) + 4, 4),
                    ).is_none());
                    return None;
                },
            }
            j += 1;
        }
        Some(Elf { header, segments, sections })
    }

    /// The image that `data` holds.
    pub fn from(data: &[u8]) -> (elf: Elf)
        requires
            Self::valid(data@),
        ensures
            Self::spells(data@, elf),
    {
        Self::parse(data).unwrap()
    }

    /// The index of the first section that holds strings, if there is one.
    pub open spec fn first_strings(sections: Seq<Section>) -> Option<int>
        decreases sections.len(),
    {
        if sections.len() == 0 {
            None
        } else {
            match Self::first_strings(sections.drop_last()) {
                Some(i) => Some(i),
                None => if sections.last().ty == SectionType::Strings {
                    Some(sections.len() - 1)
                } else {
                    None
                },
            }
        }
    }

    /// The first section that holds strings, if there is one.
    pub fn string_table(&self) -> (section: Option<&Section>)
        ensures
            match Self::first_strings(self.sections@) {
                Some(i) => 0 <= i < self.sections@.len() && section == Some(&self.sections@[i]),
                None => section.is_none(),
            },
    {
        let mut i: usize = 0;
        while i < self.sections.len()
            invariant
                i <= self.sections@.len(),
                Self::first_strings(self.sections@.take(i as int)).is_none(),
            decreases self.sections@.len() - i,
        {
            proof {
                assert(self.sections@.take(i + 1).drop_last() =~= self.sections@.take(i as int));
            }
            if let SectionType::Strings = self.sections[i].ty {
                proof {
                    Self::lemma_first_strings_prefix(self.sections@, i + 1);
                }
                return Some(&self.sections[i]);
            }
            i += 1;
        }
        assert(self.sections@.take(i as int) =~= self.sections@);
        None
    }

    /// A section that is the first to hold strings in a prefix of
    /// `sections` is the first in `sections`.
    proof fn lemma_first_strings_prefix(sections: Seq<Section>, n: int)
        requires
            0 <= n <= sections.len(),
            Self::first_strings(sections.take(n)).is_some(),
        ensures
            Self::first_strings(sections) == Self::first_strings(sections.take(n)),
        decreases sections.len() - n,
    {
        if n < sections.len() {
            assert(sections.take(n + 1).drop_last() =~= sections.take(n));
            Self::lemma_first_strings_prefix(sections, n + 1);
        } else {
            assert(sections.take(n) =~= sections);
        }
    }

    /// Where the string table of an image lies whose header lies at `base`:
    /// the offset of the table counts in units of a section description.
    /// The image has to have a section that holds strings.
    pub fn symbol_table_pointer(&self, base: u64) -> (pointer: u64)
        requires
            Self::first_strings(self.sections@).is_some(),
        ensures
            pointer as nat == (base + 64 * self.sections@[Self::first_strings(
                self.sections@,
            ).unwrap()].offset) % 0x1_0000_0000_0000_0000,
    {
        let symtab = self.string_table().unwrap();
        base.wrapping_add(symtab.offset.wrapping_mul(SECTION_SIZE as u64))
    }

    /// The name of a symbol of the image, which is always the empty name.
    /// The image has to have a section that holds strings.
    pub fn symbol(&self) -> (name: &'static str)
        requires
            Self::first_strings(self.sections@).is_some(),
        ensures
            name@.len() == 0,
    {
        let _symtab = self.string_table().unwrap();
        proof {
            reveal_strlit("");
        }
        ""
    }
}

} // verus!
