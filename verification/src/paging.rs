//! Virtual addresses and their place in the four levels of page tables.

use crate::prelude::bitfield::BitField;
use crate::prelude::text::{append_hex, hex};
use crate::prelude::unsigned::lemma_u64_get_bit;
use vstd::prelude::*;

verus! {

/// A virtual address.
#[derive(Copy, Clone, PartialEq, Eq, PartialOrd, Ord)]
pub struct Virtual(pub u64);

/// A physical address.
#[derive(Copy, Clone, PartialEq, Eq, PartialOrd, Ord)]
pub struct Physical(pub u64);

/// Helper struct that holds the index in each level of the page tables
/// for a virtual address.
#[derive(Copy, Clone, PartialEq, Eq, Structural)]
pub struct TableIndices {
    pub level4: u64,
    pub level3: u64,
    pub level2: u64,
    pub level1: u64,
}

/// The address `base` with bit 47 copied into every higher bit, as the
/// processor wants virtual addresses to be.
pub open spec fn canonical(base: u64) -> u64 {
    if base & 0x0000_8000_0000_0000 != 0 {
        base | 0xFFFF_8000_0000_0000
    } else {
        base & 0x0000_7FFF_FFFF_FFFF
    }
}

proof fn lemma_indices(vaddr: u64)
    by (bit_vector)
    ensures
        (vaddr & (0x1FFu64 << 39)) >> 39 == (vaddr / 0x80_0000_0000) % 512,
        (vaddr & (0x1FFu64 << 30)) >> 30 == (vaddr / 0x4000_0000) % 512,
        (vaddr & (0x1FFu64 << 21)) >> 21 == (vaddr / 0x20_0000) % 512,
        (vaddr & (0x1FFu64 << 12)) >> 12 == (vaddr / 0x1000) % 512,
{
}

proof fn lemma_canonical_bits(base: u64, k: u64)
    by (bit_vector)
    requires
        k < 64,
    ensures
        ((base & (1u64 << 47)) != 0) == (base & 0x0000_8000_0000_0000 != 0),
        (((base | 0xFFFF_8000_0000_0000) & (1u64 << k)) != 0) == (k >= 47 || (base & (1u64 << k))
            != 0),
        (((base & 0x0000_7FFF_FFFF_FFFF) & (1u64 << k)) != 0) == (k < 47 && (base & (1u64 << k))
            != 0),
{
}

proof fn lemma_round_trip(l4: u64, l3: u64, l2: u64, l1: u64)
    by (bit_vector)
    requires
        l4 < 512,
        l3 < 512,
        l2 < 512,
        l1 < 512,
    ensures
        ({
            let base = (l4 << 39) | (l3 << 30) | (l2 << 21) | (l1 << 12);
            let high = base | 0xFFFF_8000_0000_0000;
            let low = base & 0x0000_7FFF_FFFF_FFFF;
            &&& base == l4 * 0x80_0000_0000 + l3 * 0x4000_0000 + l2 * 0x20_0000 + l1 * 0x1000
            &&& (high / 0x80_0000_0000) % 512 == l4 || base & 0x0000_8000_0000_0000 == 0
            &&& (high / 0x4000_0000) % 512 == l3
            &&& (high / 0x20_0000) % 512 == l2
            &&& (high / 0x1000) % 512 == l1
            &&& (low / 0x80_0000_0000) % 512 == l4 || base & 0x0000_8000_0000_0000 != 0
            &&& (low / 0x4000_0000) % 512 == l3
            &&& (low / 0x20_0000) % 512 == l2
            &&& (low / 0x1000) % 512 == l1
        }),
{
}

impl TableIndices {
    /// The indices of the address `vaddr`: nine bits of the address for each
    /// level, the lowest level above the twelve bits of the offset in the
    /// page.
    pub open spec fn of(vaddr: u64) -> TableIndices {
        TableIndices {
            level4: (vaddr / 0x80_0000_0000) % 512,
            level3: (vaddr / 0x4000_0000) % 512,
            level2: (vaddr / 0x20_0000) % 512,
            level1: (vaddr / 0x1000) % 512,
        }
    }

    /// Each index fits into nine bits.
    pub open spec fn wf(self) -> bool {
        self.level4 < 512 && self.level3 < 512 && self.level2 < 512 && self.level1 < 512
    }

    /// The address that the indices spell before it is made canonical.
    pub open spec fn base(self) -> u64 {
        (self.level4 << 39) | (self.level3 << 30) | (self.level2 << 21) | (self.level1 << 12)
    }

    /// The indices of the virtual address `vaddr`.
    pub fn from_virt(vaddr: u64) -> (indices: TableIndices)
        ensures
            indices == Self::of(vaddr),
            indices.wf(),
    {
        proof {
            lemma_indices(vaddr);
        }
        TableIndices {
            level4: (vaddr & (0x1FF << 39)) >> 39,
            level3: (vaddr & (0x1FF << 30)) >> 30,
            level2: (vaddr & (0x1FF << 21)) >> 21,
            level1: (vaddr & (0x1FF << 12)) >> 12,
        }
    }

    /// The first address of the page that the indices select.
    pub fn to_virt(self) -> (vaddr: u64)
        ensures
            vaddr == canonical(self.base()),
            self.wf() ==> Self::of(vaddr) == self,
    {
        let mut base = (self.level4 << 39) | (self.level3 << 30) | (self.level2 << 21) | (
        self.level1 << 12);
        let ghost composed = base;
        let top = base.get_bit(47);
        let fill = if top {
            u64::MAX
        } else {
            0
        };
        base.set_bits(47..64, fill);
        proof {
            lemma_u64_get_bit(composed, 47);
            lemma_canonical_bits(composed, 0);
            let wanted = canonical(composed);
            assert forall|i: int| 0 <= i < 64 implies base.bit(i) == wanted.bit(i) by {
                lemma_canonical_bits(composed, i as u64);
                lemma_u64_get_bit(composed, i as u8);
                lemma_u64_get_bit(composed | 0xFFFF_8000_0000_0000, i as u8);
                lemma_u64_get_bit(composed & 0x0000_7FFF_FFFF_FFFF, i as u8);
                if i >= 47 {
                    lemma_fill_bits(top, i - 47);
                }
            }
            <u64 as BitField>::lemma_bits_determine(base, wanted);
            if self.wf() {
                lemma_round_trip(self.level4, self.level3, self.level2, self.level1);
            }
        }
        base
    }

    /// The four indices in hexadecimal, a line for each level.
    pub open spec fn text(self) -> Seq<char> {
        "level 4: "@ + hex(self.level4 as nat) + "\nlevel 3: "@ + hex(self.level3 as nat)
            + "\nlevel 2: "@ + hex(self.level2 as nat) + "\nlevel 1: "@ + hex(self.level1 as nat)
    }

    /// The indices as text.
    pub fn describe(&self) -> (text: String)
        ensures
            text@ == self.text(),
    {
        let mut text = String::new();
        text.append("level 4: ");
        append_hex(&mut text, self.level4);
        text.append("\nlevel 3: ");
        append_hex(&mut text, self.level3);
        text.append("\nlevel 2: ");
        append_hex(&mut text, self.level2);
        text.append("\nlevel 1: ");
        append_hex(&mut text, self.level1);
        assert(text@ =~= self.text());
        text
    }
}

/// Every bit of the all-ones word is set and no bit of zero is.
proof fn lemma_fill_bits(top: bool, i: int)
    requires
        0 <= i < 64,
    ensures
        (if top {
            u64::MAX
        } else {
            0u64
        }).bit(i) == top,
{
    let k = i as u64;
    assert((u64::MAX & (1u64 << k)) != 0) by (bit_vector)
        requires
            k < 64,
    ;
    assert((0u64 & (1u64 << k)) == 0) by (bit_vector);
    lemma_u64_get_bit(u64::MAX, i as u8);
    lemma_u64_get_bit(0u64, i as u8);
}

} // verus!
