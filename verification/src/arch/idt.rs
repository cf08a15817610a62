//! The interrupt descriptor table and its gate descriptors.

use super::{Cpu, DescriptorTablePtr, PrivilegeLevel};
use crate::prelude::bitfield::{nat_bit, BitField};
use crate::prelude::unsigned::{lemma_with_bit, lemma_zero_has_no_bits, with_bit};
use vstd::arithmetic::power2::lemma2_to64;
use vstd::prelude::*;

verus! {

/// The code segment that every gate of this kernel names.
pub const KERNEL_CODE_SELECTOR: u16 = 0x18;

/// The number of gates in the table, one for each vector.
pub const VECTORS: usize = 256;

/// The size of one gate descriptor in bytes.
pub const ENTRY_SIZE: usize = 16;

/// The alignment of the table in memory, in bytes.
pub const TABLE_ALIGNMENT: usize = 32;

/// The type and attribute word of a gate descriptor.
///
/// Bit 15 says that the descriptor is present, bits 13 and 14 hold the
/// privilege level that a caller needs, bits 9 to 11 are set and bit 8 tells a
/// trap gate from an interrupt gate. Bit 12 and bits 0 to 7 are zero.
#[derive(Clone, Copy, Debug, PartialEq, Eq, Structural)]
pub struct EntryType(pub u16);

impl EntryType {
    /// The bits that no operation changes have the values that the
    /// processor asks for.
    pub open spec fn wf(self) -> bool {
        &&& forall|i: int| 0 <= i < 8 ==> !self.0.bit(i)
        &&& self.0.bit(9)
        &&& self.0.bit(10)
        &&& self.0.bit(11)
        &&& !self.0.bit(12)
    }

    /// Whether the descriptor is marked present.
    pub open spec fn is_present(self) -> bool {
        self.0.bit(15)
    }

    /// The privilege level that the word holds.
    pub open spec fn level(self) -> PrivilegeLevel {
        if self.0.bit(14) {
            if self.0.bit(13) {
                PrivilegeLevel::Ring3
            } else {
                PrivilegeLevel::Ring2
            }
        } else {
            if self.0.bit(13) {
                PrivilegeLevel::Ring1
            } else {
                PrivilegeLevel::Ring0
            }
        }
    }

    /// Whether bit 8, the low bit of the type of gate, is set.
    pub open spec fn is_interrupt(self) -> bool {
        self.0.bit(8)
    }

    /// The word with the present bit forced to `present`.
    pub open spec fn with_present(self, present: bool) -> EntryType {
        EntryType(with_bit(self.0, 15, present))
    }

    /// The word with the privilege field holding `level`.
    pub open spec fn with_privilege(self, level: PrivilegeLevel) -> EntryType {
        EntryType(with_bit(with_bit(self.0, 13, level.level() % 2 == 1), 14, level.level() >= 2))
    }

    /// The word with bit 8 forced to `enable`.
    pub open spec fn with_interrupt(self, enable: bool) -> EntryType {
        EntryType(with_bit(self.0, 8, enable))
    }

    /// The word with bits 9 to 11 set, which make it the word of a gate.
    pub open spec fn with_gate(self) -> EntryType {
        EntryType(with_bit(with_bit(with_bit(self.0, 9, true), 10, true), 11, true))
    }

    /// The bits that have to be zero in the word of a gate are zero.
    pub open spec fn reserved_clear(self) -> bool {
        &&& forall|i: int| 0 <= i < 8 ==> !self.0.bit(i)
        &&& !self.0.bit(12)
    }

    /// The word of a gate that is not present: privilege level 0, bits 9 to
    /// 11 set, everything else zero.
    pub fn new() -> (t: EntryType)
        ensures
            t.0 == 0x0E00,
            t.wf(),
            !t.is_present(),
            t.level() == PrivilegeLevel::Ring0,
            !t.is_interrupt(),
    {
        proof {
            lemma2_to64();
            lemma_bits_0e00();
        }
        EntryType(0b0000_1110_0000_0000)
    }

    /// Mark the descriptor present or absent. The other fields and the
    /// fixed bits of the word stay.
    pub fn set_present(&mut self, present: bool)
        ensures
            *final(self) == old(self).with_present(present),
            final(self).is_present() == present,
            final(self).level() == old(self).level(),
            final(self).is_interrupt() == old(self).is_interrupt(),
            old(self).wf() ==> final(self).wf(),
    {
        let ghost before = self.0;
        self.0.set_bit(15, present);
        proof {
            lemma_with_bit(before, 15, present);
            <u16 as BitField>::lemma_bits_determine(self.0, with_bit(before, 15, present));
            lemma_type_fields_independent(*old(self), PrivilegeLevel::Ring0, present);
        }
    }

    /// Store the privilege level that a caller of the descriptor needs. The
    /// other fields and the fixed bits of the word stay.
    pub fn set_privilege(&mut self, privilege: PrivilegeLevel)
        ensures
            *final(self) == old(self).with_privilege(privilege),
            final(self).level() == privilege,
            final(self).is_present() == old(self).is_present(),
            final(self).is_interrupt() == old(self).is_interrupt(),
            old(self).wf() ==> final(self).wf(),
    {
        let ghost before = self.0;
        let level = privilege.bits();
        self.0.set_bits(13..15, level);
        proof {
            lemma2_to64();
            let low = with_bit(before, 13, privilege.level() % 2 == 1);
            let both = with_bit(low, 14, privilege.level() >= 2);
            lemma_with_bit(before, 13, privilege.level() % 2 == 1);
            lemma_with_bit(low, 14, privilege.level() >= 2);
            assert(level.bit(0) == (privilege.level() % 2 == 1));
            assert(level.bit(1) == (privilege.level() >= 2));
            assert forall|i: int| 0 <= i < 16 implies self.0.bit(i) == both.bit(i) by {
                if i == 13 {
                } else if i == 14 {
                } else {
                }
            }
            <u16 as BitField>::lemma_bits_determine(self.0, both);
            lemma_type_fields_independent(*old(self), privilege, true);
        }
    }

    /// Set or clear bit 8 of the word. The other fields and the fixed bits
    /// of the word stay.
    pub fn set_interrupt(&mut self, enable: bool)
        ensures
            *final(self) == old(self).with_interrupt(enable),
            final(self).is_interrupt() == enable,
            final(self).is_present() == old(self).is_present(),
            final(self).level() == old(self).level(),
            old(self).wf() ==> final(self).wf(),
    {
        let ghost before = self.0;
        self.0.set_bit(8, enable);
        proof {
            lemma_with_bit(before, 8, enable);
            <u16 as BitField>::lemma_bits_determine(self.0, with_bit(before, 8, enable));
            lemma_type_fields_independent(*old(self), PrivilegeLevel::Ring0, enable);
        }
    }

    /// Set bits 9 to 11, which make the word that of a gate. The three
    /// fields of the word stay, and so does every other bit.
    pub fn set_gate(&mut self)
        ensures
            *final(self) == old(self).with_gate(),
            final(self).is_present() == old(self).is_present(),
            final(self).level() == old(self).level(),
            final(self).is_interrupt() == old(self).is_interrupt(),
            old(self).reserved_clear() ==> final(self).wf(),
    {
        let ghost before = self.0;
        self.0.set_bits(9..12, 0b111);
        proof {
            lemma2_to64();
            let seven = 0b111u16;
            assert(seven.bit(0) && seven.bit(1) && seven.bit(2));
            let a = with_bit(before, 9, true);
            let b = with_bit(a, 10, true);
            let c = with_bit(b, 11, true);
            lemma_with_bit(before, 9, true);
            lemma_with_bit(a, 10, true);
            lemma_with_bit(b, 11, true);
            assert forall|i: int| 0 <= i < 16 implies self.0.bit(i) == c.bit(i) by {
                if i == 9 {
                } else if i == 10 {
                } else if i == 11 {
                } else {
                }
            }
            <u16 as BitField>::lemma_bits_determine(self.0, c);
            lemma_gate(*old(self));
        }
    }

    /// Whether the descriptor is marked present.
    pub fn present(&self) -> (b: bool)
        ensures
            b == self.is_present(),
    {
        self.0.get_bit(15)
    }

    /// The privilege level that a caller of the descriptor needs.
    pub fn privilege(&self) -> (level: PrivilegeLevel)
        ensures
            level == self.level(),
    {
        let high = self.0.get_bit(14);
        let low = self.0.get_bit(13);
        if high {
            if low {
                PrivilegeLevel::Ring3
            } else {
                PrivilegeLevel::Ring2
            }
        } else {
            if low {
                PrivilegeLevel::Ring1
            } else {
                PrivilegeLevel::Ring0
            }
        }
    }

    /// Whether bit 8 of the word is set.
    pub fn interrupt(&self) -> (b: bool)
        ensures
            b == self.is_interrupt(),
    {
        self.0.get_bit(8)
    }
}

/// The bits of the word that [`EntryType::new`] returns.
proof fn lemma_bits_0e00()
    ensures
        forall|i: int| 0 <= i < 16 ==> (#[trigger] 0x0E00u16.bit(i)) == (9 <= i <= 11),
{
    lemma2_to64();
    let w: nat = 0x0E00;
    assert(!nat_bit(w, 0) && !nat_bit(w, 1) && !nat_bit(w, 2) && !nat_bit(w, 3));
    assert(!nat_bit(w, 4) && !nat_bit(w, 5) && !nat_bit(w, 6) && !nat_bit(w, 7));
    assert(!nat_bit(w, 8) && nat_bit(w, 9) && nat_bit(w, 10) && nat_bit(w, 11));
    assert(!nat_bit(w, 12) && !nat_bit(w, 13) && !nat_bit(w, 14) && !nat_bit(w, 15));
}

/// The bits of the word of a present gate at ring 0 and of interrupt type.
proof fn lemma_bits_8e00()
    ensures
        forall|i: int|
            0 <= i < 16 ==> (#[trigger] 0x8E00u16.bit(i)) == (9 <= i <= 11 || i == 15),
{
    lemma2_to64();
    let w: nat = 0x8E00;
    assert(!nat_bit(w, 0) && !nat_bit(w, 1) && !nat_bit(w, 2) && !nat_bit(w, 3));
    assert(!nat_bit(w, 4) && !nat_bit(w, 5) && !nat_bit(w, 6) && !nat_bit(w, 7));
    assert(!nat_bit(w, 8) && nat_bit(w, 9) && nat_bit(w, 10) && nat_bit(w, 11));
    assert(!nat_bit(w, 12) && !nat_bit(w, 13) && !nat_bit(w, 14) && nat_bit(w, 15));
}

/// Making a word that of a gate sets bits 9 to 11 and leaves every other bit,
/// so that the three fields of the word stay. A word whose reserved bits are
/// zero is well formed afterwards.
pub proof fn lemma_gate(t: EntryType)
    ensures
        forall|i: int|
            0 <= i < 16 ==> (#[trigger] t.with_gate().0.bit(i)) == (9 <= i <= 11 || t.0.bit(i)),
        t.with_gate().is_present() == t.is_present(),
        t.with_gate().level() == t.level(),
        t.with_gate().is_interrupt() == t.is_interrupt(),
        t.reserved_clear() ==> t.with_gate().wf(),
        t.wf() ==> t.with_gate() == t,
{
    let a = with_bit(t.0, 9, true);
    let b = with_bit(a, 10, true);
    let c = with_bit(b, 11, true);
    lemma_with_bit(t.0, 9, true);
    lemma_with_bit(a, 10, true);
    lemma_with_bit(b, 11, true);
    assert forall|i: int| 0 <= i < 16 implies (#[trigger] c.bit(i)) == (9 <= i <= 11 || t.0.bit(
        i,
    )) by {
        assert(b.bit(i) == (i == 10 || a.bit(i)));
        assert(a.bit(i) == (i == 9 || t.0.bit(i)));
    }
    assert(c.bit(15) == t.0.bit(15) && c.bit(14) == t.0.bit(14));
    assert(c.bit(13) == t.0.bit(13) && c.bit(8) == t.0.bit(8));
    if t.reserved_clear() {
        assert forall|i: int| 0 <= i < 8 implies !c.bit(i) by {
            assert(!t.0.bit(i));
        }
        assert(c.bit(9) && c.bit(10) && c.bit(11) && !c.bit(12));
    }
    if t.wf() {
        assert forall|i: int| 0 <= i < 16 implies c.bit(i) == t.0.bit(i) by {
            if 9 <= i <= 11 {
                assert(t.0.bit(9) && t.0.bit(10) && t.0.bit(11));
            }
        }
        <u16 as BitField>::lemma_bits_determine(c, t.0);
    }
}

/// The three fields of a type word can be set in any combination and read
/// back: after the privilege level, the present bit and bit 8 have been
/// stored, each reads as what was stored, and the fixed bits of the word are
/// as they were.
pub proof fn lemma_type_round_trip(
    t: EntryType,
    level: PrivilegeLevel,
    present: bool,
    interrupt: bool,
)
    ensures
        ({
            let u = t.with_privilege(level).with_present(present).with_interrupt(interrupt);
            &&& u.level() == level
            &&& u.is_present() == present
            &&& u.is_interrupt() == interrupt
            &&& t.wf() ==> u.wf()
        }),
{
    let a = with_bit(t.0, 13, level.level() % 2 == 1);
    let b = with_bit(a, 14, level.level() >= 2);
    let c = with_bit(b, 15, present);
    let d = with_bit(c, 8, interrupt);
    lemma_with_bit(t.0, 13, level.level() % 2 == 1);
    lemma_with_bit(a, 14, level.level() >= 2);
    lemma_with_bit(b, 15, present);
    lemma_with_bit(c, 8, interrupt);
    assert(d.bit(13) == (level.level() % 2 == 1));
    assert(d.bit(14) == (level.level() >= 2));
    assert(d.bit(15) == present);
    assert(d.bit(8) == interrupt);
    if t.wf() {
        assert forall|i: int| 0 <= i < 8 implies !d.bit(i) by {
            assert(!t.0.bit(i));
        }
        assert(d.bit(9) && d.bit(10) && d.bit(11) && !d.bit(12));
    }
}

/// Each field of a type word is set without disturbing the two others.
pub proof fn lemma_type_fields_independent(t: EntryType, level: PrivilegeLevel, value: bool)
    ensures
        t.with_present(value).level() == t.level(),
        t.with_present(value).is_interrupt() == t.is_interrupt(),
        t.with_present(value).is_present() == value,
        t.with_interrupt(value).level() == t.level(),
        t.with_interrupt(value).is_present() == t.is_present(),
        t.with_interrupt(value).is_interrupt() == value,
        t.with_privilege(level).is_present() == t.is_present(),
        t.with_privilege(level).is_interrupt() == t.is_interrupt(),
        t.with_privilege(level).level() == level,
        t.wf() ==> t.with_present(value).wf() && t.with_interrupt(value).wf() && t.with_privilege(
            level,
        ).wf(),
{
    lemma_with_bit(t.0, 15, value);
    lemma_with_bit(t.0, 8, value);
    let a = with_bit(t.0, 13, level.level() % 2 == 1);
    lemma_with_bit(t.0, 13, level.level() % 2 == 1);
    lemma_with_bit(a, 14, level.level() >= 2);
    let p = t.with_present(value).0;
    let g = t.with_interrupt(value).0;
    let l = t.with_privilege(level).0;
    assert(p.bit(13) == t.0.bit(13) && p.bit(14) == t.0.bit(14));
    assert(p.bit(8) == t.0.bit(8) && p.bit(15) == value);
    assert(g.bit(13) == t.0.bit(13) && g.bit(14) == t.0.bit(14));
    assert(g.bit(15) == t.0.bit(15) && g.bit(8) == value);
    assert(l.bit(8) == t.0.bit(8) && l.bit(15) == t.0.bit(15));
    assert(l.bit(13) == (level.level() % 2 == 1) && l.bit(14) == (level.level() >= 2));
    if t.wf() {
        assert forall|i: int| 0 <= i < 8 implies !p.bit(i) && !g.bit(i) && !l.bit(i) by {
            assert(!t.0.bit(i));
        }
        assert(p.bit(9) && p.bit(10) && p.bit(11) && !p.bit(12));
        assert(g.bit(9) && g.bit(10) && g.bit(11) && !g.bit(12));
        assert(l.bit(9) && l.bit(10) && l.bit(11) && !l.bit(12));
    }
}

/// The three address fields of a gate for the handler at `addr`.
proof fn lemma_split_address(addr: u64)
    by (bit_vector)
    ensures
        (addr as u16) == addr % 0x1_0000,
        ((addr >> 16) as u16) == (addr / 0x1_0000) % 0x1_0000,
        ((addr >> 32) as u32) == addr / 0x1_0000_0000,
{
}

/// One gate descriptor, field by field in the order in which the processor
/// reads it: the low 16 bits of the handler's address, the code segment
/// selector, the type word, the middle 16 and the high 32 bits of the
/// address, and a reserved word.
#[derive(Clone, Copy, Debug, PartialEq, Eq, Structural)]
pub struct Entry {
    pub offset_low: u16,
    pub segment_selector: u16,
    pub ty: EntryType,
    pub offset_mid: u16,
    pub offset_high: u32,
    pub reserved: u32,
}

impl Entry {
    /// The descriptor of an unused vector: every field zero, and so not
    /// present.
    pub open spec fn absent() -> Entry {
        Entry {
            offset_low: 0,
            segment_selector: 0,
            ty: EntryType(0),
            offset_mid: 0,
            offset_high: 0,
            reserved: 0,
        }
    }

    /// The address that the three address fields spell together.
    pub open spec fn handler(self) -> int {
        self.offset_low + self.offset_mid * 0x1_0000 + self.offset_high * 0x1_0000_0000
    }

    /// The descriptor with its address fields pointing at `addr`, in the
    /// kernel's code segment, with the type word of a gate and marked
    /// present. The privilege level, bit 8 of the type word and the reserved
    /// word stay.
    pub open spec fn with_handler(self, addr: u64) -> Entry {
        Entry {
            offset_low: (addr % 0x1_0000) as u16,
            segment_selector: KERNEL_CODE_SELECTOR,
            ty: self.ty.with_gate().with_present(true),
            offset_mid: ((addr / 0x1_0000) % 0x1_0000) as u16,
            offset_high: (addr / 0x1_0000_0000) as u32,
            reserved: self.reserved,
        }
    }

    /// The descriptor that registration installs for the handler at `addr`:
    /// present, ring 0, interrupt type. Its type word is `0x8E00`.
    pub open spec fn gate(addr: u64) -> Entry {
        Self::absent().with_handler(addr)
    }

    /// A descriptor is either unused and all zero, or present and fully
    /// populated.
    pub open spec fn wf(self) -> bool {
        ||| self == Self::absent()
        ||| {
            &&& self.ty.wf()
            &&& self.ty.is_present()
            &&& self.segment_selector == KERNEL_CODE_SELECTOR
            &&& self.reserved == 0
        }
    }

    /// An absent descriptor is all zero, which marks it not present, and a
    /// registered one is a present interrupt gate at ring 0 that spells the
    /// address of its handler.
    pub proof fn lemma_presence(addr: u64)
        ensures
            Self::absent().ty.0 == 0,
            !Self::absent().ty.is_present(),
            Self::absent().ty.level() == PrivilegeLevel::Ring0,
            !Self::absent().ty.is_interrupt(),
            Self::absent().wf(),
            Self::absent().handler() == 0,
            Self::gate(addr).ty.0 == 0x8E00,
            Self::gate(addr).ty.is_present(),
            Self::gate(addr).ty.level() == PrivilegeLevel::Ring0,
            !Self::gate(addr).ty.is_interrupt(),
            Self::gate(addr).wf(),
            Self::gate(addr).handler() == addr,
    {
        lemma_zero_has_no_bits();
        let zero = EntryType(0);
        assert forall|i: int| 0 <= i < 16 implies !(#[trigger] zero.0.bit(i)) by {}
        lemma_gate(zero);
        lemma_type_fields_independent(zero.with_gate(), PrivilegeLevel::Ring0, true);
        let word = zero.with_gate().with_present(true).0;
        lemma_with_bit(zero.with_gate().0, 15, true);
        lemma_bits_8e00();
        assert forall|i: int| 0 <= i < 16 implies word.bit(i) == 0x8E00u16.bit(i) by {
            assert(zero.with_gate().0.bit(i) == (9 <= i <= 11));
        }
        <u16 as BitField>::lemma_bits_determine(word, 0x8E00u16);
    }

    /// The descriptor of an unused vector: every field zero.
    pub fn empty() -> (e: Entry)
        ensures
            e == Self::absent(),
            e.wf(),
            !e.ty.is_present(),
    {
        proof {
            Self::lemma_presence(0);
        }
        Entry {
            offset_low: 0,
            segment_selector: 0,
            ty: EntryType(0),
            offset_mid: 0,
            offset_high: 0,
            reserved: 0,
        }
    }

    /// Point the descriptor at the handler at `addr`, in the kernel's code
    /// segment, and make its type word that of a present gate. The privilege
    /// level and bit 8 of the type word stay, so that an unused descriptor
    /// becomes a present interrupt gate at ring 0.
    pub fn set_handler(&mut self, addr: u64)
        ensures
            *final(self) == old(self).with_handler(addr),
            final(self).handler() == addr,
            final(self).ty.is_present(),
            final(self).ty.level() == old(self).ty.level(),
            final(self).ty.is_interrupt() == old(self).ty.is_interrupt(),
            old(self).wf() ==> final(self).wf(),
            *old(self) == Self::absent() ==> final(self).ty.0 == 0x8E00,
    {
        proof {
            lemma_split_address(addr);
            lemma_gate(self.ty);
            lemma_type_fields_independent(self.ty.with_gate(), PrivilegeLevel::Ring0, true);
            Self::lemma_presence(addr);
            if self.wf() && *self != Self::absent() {
                assert(self.ty.reserved_clear());
            }
        }
        self.offset_low = #[verifier::truncate] (addr as u16);
        self.offset_mid = #[verifier::truncate] ((addr >> 16) as u16);
        self.offset_high = #[verifier::truncate] ((addr >> 32) as u32);
        self.segment_selector = KERNEL_CODE_SELECTOR;
        self.ty.set_gate();
        self.ty.set_present(true);
    }

    /// The sixteen bytes of the descriptor as the processor reads them: each
    /// field in its place, least significant byte first.
    pub open spec fn bytes(self) -> Seq<u8> {
        seq![
            (self.offset_low % 256) as u8,
            (self.offset_low / 256) as u8,
            (self.segment_selector % 256) as u8,
            (self.segment_selector / 256) as u8,
            (self.ty.0 % 256) as u8,
            (self.ty.0 / 256) as u8,
            (self.offset_mid % 256) as u8,
            (self.offset_mid / 256) as u8,
            (self.offset_high % 256) as u8,
            (self.offset_high / 0x100 % 256) as u8,
            (self.offset_high / 0x1_0000 % 256) as u8,
            (self.offset_high / 0x100_0000) as u8,
            (self.reserved % 256) as u8,
            (self.reserved / 0x100 % 256) as u8,
            (self.reserved / 0x1_0000 % 256) as u8,
            (self.reserved / 0x100_0000) as u8,
        ]
    }

    /// The bytes of the descriptor as the processor reads them.
    pub fn to_bytes(&self) -> (raw: [u8; 16])
        ensures
            raw@ == self.bytes(),
    {
        let raw = [
            (self.offset_low % 256) as u8,
            (self.offset_low / 256) as u8,
            (self.segment_selector % 256) as u8,
            (self.segment_selector / 256) as u8,
            (self.ty.0 % 256) as u8,
            (self.ty.0 / 256) as u8,
            (self.offset_mid % 256) as u8,
            (self.offset_mid / 256) as u8,
            (self.offset_high % 256) as u8,
            (self.offset_high / 0x100 % 256) as u8,
            (self.offset_high / 0x1_0000 % 256) as u8,
            (self.offset_high / 0x100_0000) as u8,
            (self.reserved % 256) as u8,
            (self.reserved / 0x100 % 256) as u8,
            (self.reserved / 0x1_0000 % 256) as u8,
            (self.reserved / 0x100_0000) as u8,
        ];
        assert(raw@ =~= self.bytes());
        raw
    }

    /// The descriptor that the processor reads from `raw`.
    pub fn from_bytes(raw: &[u8; 16]) -> (entry: Entry)
        ensures
            entry.bytes() == raw@,
    {
        proof {
            lemma_joined16(raw[0], raw[1]);
            lemma_joined16(raw[2], raw[3]);
            lemma_joined16(raw[4], raw[5]);
            lemma_joined16(raw[6], raw[7]);
            lemma_joined32(raw[8], raw[9], raw[10], raw[11]);
            lemma_joined32(raw[12], raw[13], raw[14], raw[15]);
        }
        let entry = Entry {
            offset_low: raw[0] as u16 + 256 * (raw[1] as u16),
            segment_selector: raw[2] as u16 + 256 * (raw[3] as u16),
            ty: EntryType(raw[4] as u16 + 256 * (raw[5] as u16)),
            offset_mid: raw[6] as u16 + 256 * (raw[7] as u16),
            offset_high: raw[8] as u32 + 0x100 * (raw[9] as u32) + 0x1_0000 * (raw[10] as u32)
                + 0x100_0000 * (raw[11] as u32),
            reserved: raw[12] as u32 + 0x100 * (raw[13] as u32) + 0x1_0000 * (raw[14] as u32)
                + 0x100_0000 * (raw[15] as u32),
        };
        assert(entry.bytes() =~= raw@);
        entry
    }

    /// A descriptor is determined by its bytes, and the bytes 0, 1, 6, 7 and
    /// 8 to 11 spell the address of the handler, least significant byte
    /// first.
    pub proof fn lemma_bytes(self, other: Entry)
        ensures
            self.bytes().len() == 16,
            self.bytes() == other.bytes() ==> self == other,
            self.handler() == self.bytes()[0] + 0x100 * self.bytes()[1] + 0x1_0000
                * self.bytes()[6] + 0x100_0000 * self.bytes()[7] + 0x1_0000_0000
                * self.bytes()[8] + 0x100_0000_0000 * self.bytes()[9] + 0x1_0000_0000_0000
                * self.bytes()[10] + 0x100_0000_0000_0000 * self.bytes()[11],
    {
        lemma_split16(self.offset_low);
        lemma_split16(self.offset_mid);
        lemma_split32(self.offset_high);
        if self.bytes() == other.bytes() {
            let a = self.bytes();
            let b = other.bytes();
            assert(a[0] == b[0] && a[1] == b[1] && a[2] == b[2] && a[3] == b[3]);
            assert(a[4] == b[4] && a[5] == b[5] && a[6] == b[6] && a[7] == b[7]);
            assert(a[8] == b[8] && a[9] == b[9] && a[10] == b[10] && a[11] == b[11]);
            assert(a[12] == b[12] && a[13] == b[13] && a[14] == b[14] && a[15] == b[15]);
            lemma_split16(self.offset_low);
            lemma_split16(other.offset_low);
            lemma_split16(self.segment_selector);
            lemma_split16(other.segment_selector);
            lemma_split16(self.ty.0);
            lemma_split16(other.ty.0);
            lemma_split16(self.offset_mid);
            lemma_split16(other.offset_mid);
            lemma_split32(self.offset_high);
            lemma_split32(other.offset_high);
            lemma_split32(self.reserved);
            lemma_split32(other.reserved);
            assert(self.offset_low == other.offset_low);
            assert(self.segment_selector == other.segment_selector);
            assert(self.ty.0 == other.ty.0);
            assert(self.offset_mid == other.offset_mid);
            assert(self.offset_high == other.offset_high);
            assert(self.reserved == other.reserved);
        }
    }

    /// The address of the handler that the descriptor points at.
    pub fn handler_address(&self) -> (addr: u64)
        ensures
            addr == self.handler(),
    {
        let low: u64 = self.offset_low as u64;
        let mid: u64 = self.offset_mid as u64;
        let high: u64 = self.offset_high as u64;
        low + mid * 0x1_0000 + high * 0x1_0000_0000
    }
}

/// A word of 16 bits is its two bytes, least significant first.
proof fn lemma_split16(x: u16)
    by (bit_vector)
    ensures
        x == (x % 256) + 256 * (x / 256),
        x / 256 < 256,
{
}

/// A word of 32 bits is its four bytes, least significant first.
proof fn lemma_split32(x: u32)
    by (bit_vector)
    ensures
        x == (x % 256) + 0x100 * (x / 0x100 % 256) + 0x1_0000 * (x / 0x1_0000 % 256) + 0x100_0000
            * (x / 0x100_0000),
        x / 0x100_0000 < 256,
{
}

/// The two bytes of the word that two bytes spell are those bytes.
proof fn lemma_joined16(low: u8, high: u8)
    by (bit_vector)
    ensures
        low + 256 * high <= u16::MAX,
        (low + 256 * high) % 256 == low,
        (low + 256 * high) / 256 == high,
{
}

/// The four bytes of the word that four bytes spell are those bytes.
proof fn lemma_joined32(b0: u8, b1: u8, b2: u8, b3: u8)
    by (bit_vector)
    ensures
        b0 + 0x100 * b1 + 0x1_0000 * b2 + 0x100_0000 * b3 <= u32::MAX,
        (b0 + 0x100 * b1 + 0x1_0000 * b2 + 0x100_0000 * b3) % 256 == b0,
        (b0 + 0x100 * b1 + 0x1_0000 * b2 + 0x100_0000 * b3) / 0x100 % 256 == b1,
        (b0 + 0x100 * b1 + 0x1_0000 * b2 + 0x100_0000 * b3) / 0x1_0000 % 256 == b2,
        (b0 + 0x100 * b1 + 0x1_0000 * b2 + 0x100_0000 * b3) / 0x100_0000 == b3,
{
}

/// The vectors that carry a handler before the table is loaded: the
/// processor's exceptions that this kernel names.
pub open spec fn is_exception_vector(vector: int) -> bool {
    0x00 <= vector <= 0x0E || 0x10 <= vector <= 0x13
}

/// The table of 256 gates through which the processor reaches the handler
/// of each vector.
pub struct InterruptDescriptorTable {
    pub entries: [Entry; 256],
}

impl View for InterruptDescriptorTable {
    type V = Seq<Entry>;

    /// The descriptors in the order of their vectors.
    open spec fn view(&self) -> Seq<Entry> {
        self.entries@
    }
}

impl InterruptDescriptorTable {
    /// Every exception that the kernel names has a present gate.
    pub open spec fn exceptions_registered(self) -> bool {
        forall|v: int|
            0 <= v < 256 && is_exception_vector(v) ==> (#[trigger] self@[v]).ty.is_present()
    }

    /// Every gate of the table is well formed.
    pub open spec fn wf(self) -> bool {
        forall|v: int| 0 <= v < 256 ==> (#[trigger] self@[v]).wf()
    }

    /// What the processor is told of a table that lies at `base`.
    pub open spec fn pointer_at(base: usize) -> DescriptorTablePtr {
        DescriptorTablePtr { limit: 4095, base }
    }

    /// A table of 256 absent gates.
    pub fn new() -> (idt: InterruptDescriptorTable)
        ensures
            idt@.len() == 256,
            forall|v: int| 0 <= v < 256 ==> idt@[v] == Entry::absent(),
            idt.wf(),
    {
        InterruptDescriptorTable { entries: [Entry::empty(); 256] }
    }

    /// A table in which the descriptor of each exception vector `v` points at
    /// `handlers[v]` and every other vector is absent.
    pub fn with_exception_handlers(handlers: &[u64; 32]) -> (idt: InterruptDescriptorTable)
        ensures
            idt@.len() == 256,
            forall|v: int|
                0 <= v < 256 ==> idt@[v] == if is_exception_vector(v) {
                    Entry::gate(handlers@[v])
                } else {
                    Entry::absent()
                },
            idt.wf(),
            idt.exceptions_registered(),
    {
        let mut idt = InterruptDescriptorTable::new();
        idt.entries[0x00].set_handler(handlers[0x00]);
        idt.entries[0x01].set_handler(handlers[0x01]);
        idt.entries[0x02].set_handler(handlers[0x02]);
        idt.entries[0x03].set_handler(handlers[0x03]);
        idt.entries[0x04].set_handler(handlers[0x04]);
        idt.entries[0x05].set_handler(handlers[0x05]);
        idt.entries[0x06].set_handler(handlers[0x06]);
        idt.entries[0x07].set_handler(handlers[0x07]);
        idt.entries[0x08].set_handler(handlers[0x08]);
        idt.entries[0x09].set_handler(handlers[0x09]);
        idt.entries[0x0A].set_handler(handlers[0x0A]);
        idt.entries[0x0B].set_handler(handlers[0x0B]);
        idt.entries[0x0C].set_handler(handlers[0x0C]);
        idt.entries[0x0D].set_handler(handlers[0x0D]);
        idt.entries[0x0E].set_handler(handlers[0x0E]);
        idt.entries[0x10].set_handler(handlers[0x10]);
        idt.entries[0x11].set_handler(handlers[0x11]);
        idt.entries[0x12].set_handler(handlers[0x12]);
        idt.entries[0x13].set_handler(handlers[0x13]);
        idt
    }

    /// Make this table, which lies at `base`, the one that the processor
    /// consults from now on. Whatever is registered in the table later is
    /// in force at once.
    ///
    /// The table is loaded once, while interrupts are still off, and every
    /// exception vector has to carry a handler by then. The table lies at
    /// an address that is a multiple of 32.
    pub fn load(&self, cpu: &mut Cpu, base: usize)
        requires
            self.exceptions_registered(),
            old(cpu).idtr.is_none(),
            !old(cpu).interrupts,
            base % TABLE_ALIGNMENT == 0,
        ensures
            final(cpu).idtr == Some(Self::pointer_at(base)),
            final(cpu).interrupts == old(cpu).interrupts,
    {
        cpu.idtr = Some(self.pointer(base));
    }

    /// What the processor is told of this table when it lies at `base`: its
    /// start and the offset of its last byte.
    pub fn pointer(&self, base: usize) -> (ptr: DescriptorTablePtr)
        ensures
            ptr == Self::pointer_at(base),
            ptr.limit == VECTORS * ENTRY_SIZE - 1,
    {
        DescriptorTablePtr { base, limit: (VECTORS * ENTRY_SIZE - 1) as u16 }
    }

    /// The descriptor of the vector `index`, to read or to change in place.
    pub fn entry(&mut self, index: u8) -> (e: &mut Entry)
        ensures
            *e == old(self)@[index as int],
            final(self)@ == old(self)@.update(index as int, *final(e)),
    {
        &mut self.entries[index as usize]
    }

    /// The address of the handler of `vector`, or nothing if the vector has
    /// no present descriptor: an interrupt on such a vector cannot be
    /// served.
    pub fn handler(&self, vector: u8) -> (addr: Option<u64>)
        ensures
            addr == if self@[vector as int].ty.is_present() {
                Some(self@[vector as int].handler() as u64)
            } else {
                None
            },
    {
        let descriptor = &self.entries[vector as usize];
        if descriptor.ty.present() {
            Some(descriptor.handler_address())
        } else {
            None
        }
    }

    /// Install a present, ring 0, interrupt-type gate for `vector` that
    /// points at `handler`. Whatever the vector held before is overwritten.
    pub fn register(&mut self, vector: u8, handler: u64)
        ensures
            final(self)@ == old(self)@.update(vector as int, Entry::gate(handler)),
            final(self)@[vector as int].handler() == handler,
            old(self).wf() ==> final(self).wf(),
            old(self).exceptions_registered() ==> final(self).exceptions_registered(),
    {
        let mut gate = Entry::empty();
        gate.set_handler(handler);
        self.entries[vector as usize] = gate;
        proof {
            assert(self@ =~= old(self)@.update(vector as int, Entry::gate(handler)));
            if old(self).wf() {
                assert forall|v: int| 0 <= v < 256 implies (#[trigger] self@[v]).wf() by {
                    if v != vector {
                        assert(old(self)@[v].wf());
                    }
                }
            }
            if old(self).exceptions_registered() {
                assert forall|v: int| 0 <= v < 256 && is_exception_vector(v) implies (
                #[trigger] self@[v]).ty.is_present() by {
                    if v != vector {
                        assert(old(self)@[v].ty.is_present());
                    }
                }
            }
        }
    }
}

/// Registering a handler and then loading the table leaves the handler's
/// address, bit for bit, in the three address fields of the vector's gate:
/// the low 16 bits, the middle 16 bits and the high 32 bits. The table that
/// the processor is told of reaches as far as the last byte of that gate,
/// whichever vector it is.
///
/// [`InterruptDescriptorTable::register`] leaves the table as `before` with
/// [`Entry::gate`] at the vector, and [`InterruptDescriptorTable::load`]
/// does not change the table and tells the processor of
/// [`InterruptDescriptorTable::pointer_at`].
pub proof fn lemma_registered_address_is_exact(
    before: InterruptDescriptorTable,
    vector: u8,
    handler: u64,
    base: usize,
)
    ensures
        ({
            let gate = before@.update(vector as int, Entry::gate(handler))[vector as int];
            &&& vector * ENTRY_SIZE + ENTRY_SIZE - 1 <= InterruptDescriptorTable::pointer_at(
                base,
            ).limit
            &&& gate.offset_low == handler % 0x1_0000
            &&& gate.offset_mid == (handler / 0x1_0000) % 0x1_0000
            &&& gate.offset_high == handler / 0x1_0000_0000
            &&& gate.handler() == handler
            &&& gate.ty.0 == 0x8E00
            &&& gate.ty.is_present()
            &&& gate.ty.level() == PrivilegeLevel::Ring0
            &&& !gate.ty.is_interrupt()
            &&& gate.segment_selector == KERNEL_CODE_SELECTOR
        }),
{
    Entry::lemma_presence(handler);
}

} // verus!
