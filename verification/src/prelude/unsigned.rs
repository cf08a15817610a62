//! [`BitField`] for the unsigned integers.

use super::bitfield::{lemma_nat_bits_determine, nat_bit, BitField};
use core::ops::Range;
use vstd::arithmetic::power2::{lemma2_to64, lemma2_to64_rest, lemma_pow2_adds, lemma_pow2_pos, pow2};
use vstd::bits::{
    lemma_u128_shr_is_div, lemma_u16_shr_is_div, lemma_u32_shr_is_div, lemma_u64_shr_is_div,
    lemma_u8_shr_is_div, lemma_usize_shr_is_div,
};
use vstd::prelude::*;

verus! {

/// Zero has no bit set.
pub proof fn lemma_zero_has_no_bits()
    ensures
        forall|i: nat| !(#[trigger] nat_bit(0, i)),
{
    assert forall|i: nat| !(#[trigger] nat_bit(0, i)) by {
        lemma_pow2_pos(i);
    }
}

proof fn lemma_pow2_width_u8()
    ensures
        pow2(8) == u8::MAX + 1,
{
    lemma2_to64();
    lemma2_to64_rest();
}

proof fn lemma_u8_bit_ops(x: u8, k: u8, j: u8)
    by (bit_vector)
    requires
        k < 8,
        j < 8,
    ensures
        ((x & (1u8 << k)) != 0) == ((x >> k) % 2 == 1),
        ((x | (1u8 << k)) >> j) % 2 == if j == k { 1u8 } else { (x >> j) % 2 },
        ((x & !(1u8 << k)) >> j) % 2 == if j == k { 0u8 } else { (x >> j) % 2 },
{
}

/// Testing a `u8` against a one-bit mask reads that bit.
pub proof fn lemma_u8_get_bit(x: u8, k: u8)
    requires
        k < 8,
    ensures
        ((x & (1u8 << k)) != 0) == x.bit(k as int),
{
    lemma_u8_bit_ops(x, k as u8, 0);
    lemma_u8_shr_is_div(x, k as u8);
}

/// Or-ing a one-bit mask into a `u8` sets that bit, and-ing its complement
/// clears it, and either leaves every other bit as it was.
pub proof fn lemma_u8_set_bit(x: u8, k: u8)
    requires
        k < 8,
    ensures
        forall|i: int|
            0 <= i < 8 ==> (#[trigger] (x | (1u8 << k)).bit(i)) == (i == k || x.bit(i)),
        forall|i: int|
            0 <= i < 8 ==> (#[trigger] (x & !(1u8 << k)).bit(i)) == (i != k && x.bit(i)),
{
    let set = x | (1u8 << k);
    let clear = x & !(1u8 << k);
    assert forall|i: int| 0 <= i < 8 implies (#[trigger] set.bit(i)) == (i == k || x.bit(i)) by {
        lemma_u8_bit_ops(x, k as u8, i as u8);
        lemma_u8_shr_is_div(x, i as u8);
        lemma_u8_shr_is_div(set, i as u8);
    }
    assert forall|i: int| 0 <= i < 8 implies (#[trigger] clear.bit(i)) == (i != k && x.bit(i)) by {
        lemma_u8_bit_ops(x, k as u8, i as u8);
        lemma_u8_shr_is_div(x, i as u8);
        lemma_u8_shr_is_div(clear, i as u8);
    }
}

impl BitField for u8 {
    open spec fn width() -> nat {
        8 as nat
    }

    open spec fn bit(self, i: int) -> bool {
        0 <= i < 8 && nat_bit(self as nat, i as nat)
    }

    proof fn lemma_bits_determine(a: Self, b: Self) {
        lemma2_to64();
        lemma2_to64_rest();
        lemma_pow2_width_u8();
        assert forall|i: nat| i < 8 implies nat_bit(a as nat, i) == nat_bit(b as nat, i) by {
            assert(a.bit(i as int) == b.bit(i as int));
        }
        lemma_nat_bits_determine(a as nat, b as nat, 8 as nat);
    }

    #[inline]
    fn bits(&self) -> (n: u8) {
        8
    }

    fn get_bit(&self, bit: u8) -> (b: bool) {
        proof {
            lemma_u8_get_bit(*self, bit);
        }
        (*self & (1 << bit)) != 0
    }

    fn get_bits(&self, bits: Range<u8>) -> (r: Self) {
        let mut ret: Self = 0;
        let mut bit: u8 = bits.start;
        proof {
            lemma_zero_has_no_bits();
        }
        while bit < bits.end
            invariant
                bits.start < bits.end ==> bits.end <= 8,
                bits.start <= bit,
                bits.start < bits.end ==> bit <= bits.end,
                bits.start >= bits.end ==> bit == bits.start,
                forall|i: int|
                    0 <= i < 8 ==> ret.bit(i) == (bits.start <= i < bit && self.bit(i)),
            decreases bits.end - bit,
        {
            let b = self.get_bit(bit);
            ret.set_bit(bit, b);
            bit += 1;
        }
        ret
    }

    fn set_bit(&mut self, bit: u8, value: bool) {
        proof {
            lemma_u8_set_bit(*self, bit);
        }
        if value {
            *self |= 1 << bit;
        } else {
            *self &= !(1 << bit);
        }
    }

    fn set_bits(&mut self, bits: Range<u8>, value: Self) {
        let ghost before = *self;
        let width: u8 = 8;
        let mut taken: u8 = 0;
        let mut bit: u8 = bits.start;
        while bit < bits.end && taken < width
            invariant
                width == 8,
                bits.start < bits.end ==> (bits.end <= 8 || bits.start == 0),
                bits.start <= bit,
                bits.start < bits.end ==> bit <= bits.end,
                bits.start >= bits.end ==> bit == bits.start,
                taken == bit - bits.start,
                taken <= 8,
                forall|i: int|
                    0 <= i < 8 ==> self.bit(i) == if bits.start <= i < bit {
                        value.bit(i - bits.start)
                    } else {
                        before.bit(i)
                    },
            decreases bits.end - bit,
        {
            let mask = value.get_bit(taken);
            self.set_bit(bit, mask);
            taken += 1;
            bit += 1;
        }
    }
}

proof fn lemma_pow2_width_u16()
    ensures
        pow2(16) == u16::MAX + 1,
{
    lemma2_to64();
    lemma2_to64_rest();
}

proof fn lemma_u16_bit_ops(x: u16, k: u16, j: u16)
    by (bit_vector)
    requires
        k < 16,
        j < 16,
    ensures
        ((x & (1u16 << k)) != 0) == ((x >> k) % 2 == 1),
        ((x | (1u16 << k)) >> j) % 2 == if j == k { 1u16 } else { (x >> j) % 2 },
        ((x & !(1u16 << k)) >> j) % 2 == if j == k { 0u16 } else { (x >> j) % 2 },
{
}

/// Testing a `u16` against a one-bit mask reads that bit.
pub proof fn lemma_u16_get_bit(x: u16, k: u8)
    requires
        k < 16,
    ensures
        ((x & (1u16 << k)) != 0) == x.bit(k as int),
{
    lemma_u16_bit_ops(x, k as u16, 0);
    lemma_u16_shr_is_div(x, k as u16);
}

/// Or-ing a one-bit mask into a `u16` sets that bit, and-ing its complement
/// clears it, and either leaves every other bit as it was.
pub proof fn lemma_u16_set_bit(x: u16, k: u8)
    requires
        k < 16,
    ensures
        forall|i: int|
            0 <= i < 16 ==> (#[trigger] (x | (1u16 << k)).bit(i)) == (i == k || x.bit(i)),
        forall|i: int|
            0 <= i < 16 ==> (#[trigger] (x & !(1u16 << k)).bit(i)) == (i != k && x.bit(i)),
{
    let set = x | (1u16 << k);
    let clear = x & !(1u16 << k);
    assert forall|i: int| 0 <= i < 16 implies (#[trigger] set.bit(i)) == (i == k || x.bit(i)) by {
        lemma_u16_bit_ops(x, k as u16, i as u16);
        lemma_u16_shr_is_div(x, i as u16);
        lemma_u16_shr_is_div(set, i as u16);
    }
    assert forall|i: int| 0 <= i < 16 implies (#[trigger] clear.bit(i)) == (i != k && x.bit(i)) by {
        lemma_u16_bit_ops(x, k as u16, i as u16);
        lemma_u16_shr_is_div(x, i as u16);
        lemma_u16_shr_is_div(clear, i as u16);
    }
}

impl BitField for u16 {
    open spec fn width() -> nat {
        16 as nat
    }

    open spec fn bit(self, i: int) -> bool {
        0 <= i < 16 && nat_bit(self as nat, i as nat)
    }

    proof fn lemma_bits_determine(a: Self, b: Self) {
        lemma2_to64();
        lemma2_to64_rest();
        lemma_pow2_width_u16();
        assert forall|i: nat| i < 16 implies nat_bit(a as nat, i) == nat_bit(b as nat, i) by {
            assert(a.bit(i as int) == b.bit(i as int));
        }
        lemma_nat_bits_determine(a as nat, b as nat, 16 as nat);
    }

    #[inline]
    fn bits(&self) -> (n: u8) {
        16
    }

    fn get_bit(&self, bit: u8) -> (b: bool) {
        proof {
            lemma_u16_get_bit(*self, bit);
        }
        (*self & (1 << bit)) != 0
    }

    fn get_bits(&self, bits: Range<u8>) -> (r: Self) {
        let mut ret: Self = 0;
        let mut bit: u8 = bits.start;
        proof {
            lemma_zero_has_no_bits();
        }
        while bit < bits.end
            invariant
                bits.start < bits.end ==> bits.end <= 16,
                bits.start <= bit,
                bits.start < bits.end ==> bit <= bits.end,
                bits.start >= bits.end ==> bit == bits.start,
                forall|i: int|
                    0 <= i < 16 ==> ret.bit(i) == (bits.start <= i < bit && self.bit(i)),
            decreases bits.end - bit,
        {
            let b = self.get_bit(bit);
            ret.set_bit(bit, b);
            bit += 1;
        }
        ret
    }

    fn set_bit(&mut self, bit: u8, value: bool) {
        proof {
            lemma_u16_set_bit(*self, bit);
        }
        if value {
            *self |= 1 << bit;
        } else {
            *self &= !(1 << bit);
        }
    }

    fn set_bits(&mut self, bits: Range<u8>, value: Self) {
        let ghost before = *self;
        let width: u8 = 16;
        let mut taken: u8 = 0;
        let mut bit: u8 = bits.start;
        while bit < bits.end && taken < width
            invariant
                width == 16,
                bits.start < bits.end ==> (bits.end <= 16 || bits.start == 0),
                bits.start <= bit,
                bits.start < bits.end ==> bit <= bits.end,
                bits.start >= bits.end ==> bit == bits.start,
                taken == bit - bits.start,
                taken <= 16,
                forall|i: int|
                    0 <= i < 16 ==> self.bit(i) == if bits.start <= i < bit {
                        value.bit(i - bits.start)
                    } else {
                        before.bit(i)
                    },
            decreases bits.end - bit,
        {
            let mask = value.get_bit(taken);
            self.set_bit(bit, mask);
            taken += 1;
            bit += 1;
        }
    }
}

proof fn lemma_pow2_width_u32()
    ensures
        pow2(32) == u32::MAX + 1,
{
    lemma2_to64();
    lemma2_to64_rest();
}

proof fn lemma_u32_bit_ops(x: u32, k: u32, j: u32)
    by (bit_vector)
    requires
        k < 32,
        j < 32,
    ensures
        ((x & (1u32 << k)) != 0) == ((x >> k) % 2 == 1),
        ((x | (1u32 << k)) >> j) % 2 == if j == k { 1u32 } else { (x >> j) % 2 },
        ((x & !(1u32 << k)) >> j) % 2 == if j == k { 0u32 } else { (x >> j) % 2 },
{
}

/// Testing a `u32` against a one-bit mask reads that bit.
pub proof fn lemma_u32_get_bit(x: u32, k: u8)
    requires
        k < 32,
    ensures
        ((x & (1u32 << k)) != 0) == x.bit(k as int),
{
    lemma_u32_bit_ops(x, k as u32, 0);
    lemma_u32_shr_is_div(x, k as u32);
}

/// Or-ing a one-bit mask into a `u32` sets that bit, and-ing its complement
/// clears it, and either leaves every other bit as it was.
pub proof fn lemma_u32_set_bit(x: u32, k: u8)
    requires
        k < 32,
    ensures
        forall|i: int|
            0 <= i < 32 ==> (#[trigger] (x | (1u32 << k)).bit(i)) == (i == k || x.bit(i)),
        forall|i: int|
            0 <= i < 32 ==> (#[trigger] (x & !(1u32 << k)).bit(i)) == (i != k && x.bit(i)),
{
    let set = x | (1u32 << k);
    let clear = x & !(1u32 << k);
    assert forall|i: int| 0 <= i < 32 implies (#[trigger] set.bit(i)) == (i == k || x.bit(i)) by {
        lemma_u32_bit_ops(x, k as u32, i as u32);
        lemma_u32_shr_is_div(x, i as u32);
        lemma_u32_shr_is_div(set, i as u32);
    }
    assert forall|i: int| 0 <= i < 32 implies (#[trigger] clear.bit(i)) == (i != k && x.bit(i)) by {
        lemma_u32_bit_ops(x, k as u32, i as u32);
        lemma_u32_shr_is_div(x, i as u32);
        lemma_u32_shr_is_div(clear, i as u32);
    }
}

impl BitField for u32 {
    open spec fn width() -> nat {
        32 as nat
    }

    open spec fn bit(self, i: int) -> bool {
        0 <= i < 32 && nat_bit(self as nat, i as nat)
    }

    proof fn lemma_bits_determine(a: Self, b: Self) {
        lemma2_to64();
        lemma2_to64_rest();
        lemma_pow2_width_u32();
        assert forall|i: nat| i < 32 implies nat_bit(a as nat, i) == nat_bit(b as nat, i) by {
            assert(a.bit(i as int) == b.bit(i as int));
        }
        lemma_nat_bits_determine(a as nat, b as nat, 32 as nat);
    }

    #[inline]
    fn bits(&self) -> (n: u8) {
        32
    }

    fn get_bit(&self, bit: u8) -> (b: bool) {
        proof {
            lemma_u32_get_bit(*self, bit);
        }
        (*self & (1 << bit)) != 0
    }

    fn get_bits(&self, bits: Range<u8>) -> (r: Self) {
        let mut ret: Self = 0;
        let mut bit: u8 = bits.start;
        proof {
            lemma_zero_has_no_bits();
        }
        while bit < bits.end
            invariant
                bits.start < bits.end ==> bits.end <= 32,
                bits.start <= bit,
                bits.start < bits.end ==> bit <= bits.end,
                bits.start >= bits.end ==> bit == bits.start,
                forall|i: int|
                    0 <= i < 32 ==> ret.bit(i) == (bits.start <= i < bit && self.bit(i)),
            decreases bits.end - bit,
        {
            let b = self.get_bit(bit);
            ret.set_bit(bit, b);
            bit += 1;
        }
        ret
    }

    fn set_bit(&mut self, bit: u8, value: bool) {
        proof {
            lemma_u32_set_bit(*self, bit);
        }
        if value {
            *self |= 1 << bit;
        } else {
            *self &= !(1 << bit);
        }
    }

    fn set_bits(&mut self, bits: Range<u8>, value: Self) {
        let ghost before = *self;
        let width: u8 = 32;
        let mut taken: u8 = 0;
        let mut bit: u8 = bits.start;
        while bit < bits.end && taken < width
            invariant
                width == 32,
                bits.start < bits.end ==> (bits.end <= 32 || bits.start == 0),
                bits.start <= bit,
                bits.start < bits.end ==> bit <= bits.end,
                bits.start >= bits.end ==> bit == bits.start,
                taken == bit - bits.start,
                taken <= 32,
                forall|i: int|
                    0 <= i < 32 ==> self.bit(i) == if bits.start <= i < bit {
                        value.bit(i - bits.start)
                    } else {
                        before.bit(i)
                    },
            decreases bits.end - bit,
        {
            let mask = value.get_bit(taken);
            self.set_bit(bit, mask);
            taken += 1;
            bit += 1;
        }
    }
}

proof fn lemma_pow2_width_u64()
    ensures
        pow2(64) == u64::MAX + 1,
{
    lemma2_to64();
    lemma2_to64_rest();
}

proof fn lemma_u64_bit_ops(x: u64, k: u64, j: u64)
    by (bit_vector)
    requires
        k < 64,
        j < 64,
    ensures
        ((x & (1u64 << k)) != 0) == ((x >> k) % 2 == 1),
        ((x | (1u64 << k)) >> j) % 2 == if j == k { 1u64 } else { (x >> j) % 2 },
        ((x & !(1u64 << k)) >> j) % 2 == if j == k { 0u64 } else { (x >> j) % 2 },
{
}

/// Testing a `u64` against a one-bit mask reads that bit.
pub proof fn lemma_u64_get_bit(x: u64, k: u8)
    requires
        k < 64,
    ensures
        ((x & (1u64 << k)) != 0) == x.bit(k as int),
{
    lemma_u64_bit_ops(x, k as u64, 0);
    lemma_u64_shr_is_div(x, k as u64);
}

/// Or-ing a one-bit mask into a `u64` sets that bit, and-ing its complement
/// clears it, and either leaves every other bit as it was.
pub proof fn lemma_u64_set_bit(x: u64, k: u8)
    requires
        k < 64,
    ensures
        forall|i: int|
            0 <= i < 64 ==> (#[trigger] (x | (1u64 << k)).bit(i)) == (i == k || x.bit(i)),
        forall|i: int|
            0 <= i < 64 ==> (#[trigger] (x & !(1u64 << k)).bit(i)) == (i != k && x.bit(i)),
{
    let set = x | (1u64 << k);
    let clear = x & !(1u64 << k);
    assert forall|i: int| 0 <= i < 64 implies (#[trigger] set.bit(i)) == (i == k || x.bit(i)) by {
        lemma_u64_bit_ops(x, k as u64, i as u64);
        lemma_u64_shr_is_div(x, i as u64);
        lemma_u64_shr_is_div(set, i as u64);
    }
    assert forall|i: int| 0 <= i < 64 implies (#[trigger] clear.bit(i)) == (i != k && x.bit(i)) by {
        lemma_u64_bit_ops(x, k as u64, i as u64);
        lemma_u64_shr_is_div(x, i as u64);
        lemma_u64_shr_is_div(clear, i as u64);
    }
}

impl BitField for u64 {
    open spec fn width() -> nat {
        64 as nat
    }

    open spec fn bit(self, i: int) -> bool {
        0 <= i < 64 && nat_bit(self as nat, i as nat)
    }

    proof fn lemma_bits_determine(a: Self, b: Self) {
        lemma2_to64();
        lemma2_to64_rest();
        lemma_pow2_width_u64();
        assert forall|i: nat| i < 64 implies nat_bit(a as nat, i) == nat_bit(b as nat, i) by {
            assert(a.bit(i as int) == b.bit(i as int));
        }
        lemma_nat_bits_determine(a as nat, b as nat, 64 as nat);
    }

    #[inline]
    fn bits(&self) -> (n: u8) {
        64
    }

    fn get_bit(&self, bit: u8) -> (b: bool) {
        proof {
            lemma_u64_get_bit(*self, bit);
        }
        (*self & (1 << bit)) != 0
    }

    fn get_bits(&self, bits: Range<u8>) -> (r: Self) {
        let mut ret: Self = 0;
        let mut bit: u8 = bits.start;
        proof {
            lemma_zero_has_no_bits();
        }
        while bit < bits.end
            invariant
                bits.start < bits.end ==> bits.end <= 64,
                bits.start <= bit,
                bits.start < bits.end ==> bit <= bits.end,
                bits.start >= bits.end ==> bit == bits.start,
                forall|i: int|
                    0 <= i < 64 ==> ret.bit(i) == (bits.start <= i < bit && self.bit(i)),
            decreases bits.end - bit,
        {
            let b = self.get_bit(bit);
            ret.set_bit(bit, b);
            bit += 1;
        }
        ret
    }

    fn set_bit(&mut self, bit: u8, value: bool) {
        proof {
            lemma_u64_set_bit(*self, bit);
        }
        if value {
            *self |= 1 << bit;
        } else {
            *self &= !(1 << bit);
        }
    }

    fn set_bits(&mut self, bits: Range<u8>, value: Self) {
        let ghost before = *self;
        let width: u8 = 64;
        let mut taken: u8 = 0;
        let mut bit: u8 = bits.start;
        while bit < bits.end && taken < width
            invariant
                width == 64,
                bits.start < bits.end ==> (bits.end <= 64 || bits.start == 0),
                bits.start <= bit,
                bits.start < bits.end ==> bit <= bits.end,
                bits.start >= bits.end ==> bit == bits.start,
                taken == bit - bits.start,
                taken <= 64,
                forall|i: int|
                    0 <= i < 64 ==> self.bit(i) == if bits.start <= i < bit {
                        value.bit(i - bits.start)
                    } else {
                        before.bit(i)
                    },
            decreases bits.end - bit,
        {
            let mask = value.get_bit(taken);
            self.set_bit(bit, mask);
            taken += 1;
            bit += 1;
        }
    }
}

proof fn lemma_pow2_width_u128()
    ensures
        pow2(128) == u128::MAX + 1,
{
    lemma2_to64_rest();
    lemma_pow2_adds(64, 64);
    assert(0x1_0000_0000_0000_0000 * 0x1_0000_0000_0000_0000
        == 0x1_0000_0000_0000_0000_0000_0000_0000_0000) by (nonlinear_arith);
}

proof fn lemma_u128_bit_ops(x: u128, k: u128, j: u128)
    by (bit_vector)
    requires
        k < 128,
        j < 128,
    ensures
        ((x & (1u128 << k)) != 0) == ((x >> k) % 2 == 1),
        ((x | (1u128 << k)) >> j) % 2 == if j == k { 1u128 } else { (x >> j) % 2 },
        ((x & !(1u128 << k)) >> j) % 2 == if j == k { 0u128 } else { (x >> j) % 2 },
{
}

/// Testing a `u128` against a one-bit mask reads that bit.
pub proof fn lemma_u128_get_bit(x: u128, k: u8)
    requires
        k < 128,
    ensures
        ((x & (1u128 << k)) != 0) == x.bit(k as int),
{
    lemma_u128_bit_ops(x, k as u128, 0);
    lemma_u128_shr_is_div(x, k as u128);
}

/// Or-ing a one-bit mask into a `u128` sets that bit, and-ing its complement
/// clears it, and either leaves every other bit as it was.
pub proof fn lemma_u128_set_bit(x: u128, k: u8)
    requires
        k < 128,
    ensures
        forall|i: int|
            0 <= i < 128 ==> (#[trigger] (x | (1u128 << k)).bit(i)) == (i == k || x.bit(i)),
        forall|i: int|
            0 <= i < 128 ==> (#[trigger] (x & !(1u128 << k)).bit(i)) == (i != k && x.bit(i)),
{
    let set = x | (1u128 << k);
    let clear = x & !(1u128 << k);
    assert forall|i: int| 0 <= i < 128 implies (#[trigger] set.bit(i)) == (i == k || x.bit(i)) by {
        lemma_u128_bit_ops(x, k as u128, i as u128);
        lemma_u128_shr_is_div(x, i as u128);
        lemma_u128_shr_is_div(set, i as u128);
    }
    assert forall|i: int| 0 <= i < 128 implies (#[trigger] clear.bit(i)) == (i != k && x.bit(i)) by {
        lemma_u128_bit_ops(x, k as u128, i as u128);
        lemma_u128_shr_is_div(x, i as u128);
        lemma_u128_shr_is_div(clear, i as u128);
    }
}

impl BitField for u128 {
    open spec fn width() -> nat {
        128 as nat
    }

    open spec fn bit(self, i: int) -> bool {
        0 <= i < 128 && nat_bit(self as nat, i as nat)
    }

    proof fn lemma_bits_determine(a: Self, b: Self) {
        lemma2_to64();
        lemma2_to64_rest();
        lemma_pow2_width_u128();
        assert forall|i: nat| i < 128 implies nat_bit(a as nat, i) == nat_bit(b as nat, i) by {
            assert(a.bit(i as int) == b.bit(i as int));
        }
        lemma_nat_bits_determine(a as nat, b as nat, 128 as nat);
    }

    #[inline]
    fn bits(&self) -> (n: u8) {
        128
    }

    fn get_bit(&self, bit: u8) -> (b: bool) {
        proof {
            lemma_u128_get_bit(*self, bit);
        }
        (*self & (1 << bit)) != 0
    }

    fn get_bits(&self, bits: Range<u8>) -> (r: Self) {
        let mut ret: Self = 0;
        let mut bit: u8 = bits.start;
        proof {
            lemma_zero_has_no_bits();
        }
        while bit < bits.end
            invariant
                bits.start < bits.end ==> bits.end <= 128,
                bits.start <= bit,
                bits.start < bits.end ==> bit <= bits.end,
                bits.start >= bits.end ==> bit == bits.start,
                forall|i: int|
                    0 <= i < 128 ==> ret.bit(i) == (bits.start <= i < bit && self.bit(i)),
            decreases bits.end - bit,
        {
            let b = self.get_bit(bit);
            ret.set_bit(bit, b);
            bit += 1;
        }
        ret
    }

    fn set_bit(&mut self, bit: u8, value: bool) {
        proof {
            lemma_u128_set_bit(*self, bit);
        }
        if value {
            *self |= 1 << bit;
        } else {
            *self &= !(1 << bit);
        }
    }

    fn set_bits(&mut self, bits: Range<u8>, value: Self) {
        let ghost before = *self;
        let width: u8 = 128;
        let mut taken: u8 = 0;
        let mut bit: u8 = bits.start;
        while bit < bits.end && taken < width
            invariant
                width == 128,
                bits.start < bits.end ==> (bits.end <= 128 || bits.start == 0),
                bits.start <= bit,
                bits.start < bits.end ==> bit <= bits.end,
                bits.start >= bits.end ==> bit == bits.start,
                taken == bit - bits.start,
                taken <= 128,
                forall|i: int|
                    0 <= i < 128 ==> self.bit(i) == if bits.start <= i < bit {
                        value.bit(i - bits.start)
                    } else {
                        before.bit(i)
                    },
            decreases bits.end - bit,
        {
            let mask = value.get_bit(taken);
            self.set_bit(bit, mask);
            taken += 1;
            bit += 1;
        }
    }
}

proof fn lemma_pow2_width_usize()
    ensures
        pow2(usize::BITS as nat) == usize::MAX + 1,
{
    lemma2_to64();
    lemma2_to64_rest();
}

proof fn lemma_usize_bit_ops(x: usize, k: usize, j: usize)
    by (bit_vector)
    requires
        k < usize::BITS,
        j < usize::BITS,
    ensures
        ((x & (1usize << k)) != 0) == ((x >> k) % 2 == 1),
        ((x | (1usize << k)) >> j) % 2 == if j == k { 1usize } else { (x >> j) % 2 },
        ((x & !(1usize << k)) >> j) % 2 == if j == k { 0usize } else { (x >> j) % 2 },
{
}

/// Testing a `usize` against a one-bit mask reads that bit.
pub proof fn lemma_usize_get_bit(x: usize, k: u8)
    requires
        k < usize::BITS,
    ensures
        ((x & (1usize << k)) != 0) == x.bit(k as int),
{
    lemma_usize_bit_ops(x, k as usize, 0);
    lemma_usize_shr_is_div(x, k as usize);
}

/// Or-ing a one-bit mask into a `usize` sets that bit, and-ing its complement
/// clears it, and either leaves every other bit as it was.
pub proof fn lemma_usize_set_bit(x: usize, k: u8)
    requires
        k < usize::BITS,
    ensures
        forall|i: int|
            0 <= i < usize::BITS ==> (#[trigger] (x | (1usize << k)).bit(i)) == (i == k || x.bit(i)),
        forall|i: int|
            0 <= i < usize::BITS ==> (#[trigger] (x & !(1usize << k)).bit(i)) == (i != k && x.bit(i)),
{
    let set = x | (1usize << k);
    let clear = x & !(1usize << k);
    assert forall|i: int| 0 <= i < usize::BITS implies (#[trigger] set.bit(i)) == (i == k || x.bit(i)) by {
        lemma_usize_bit_ops(x, k as usize, i as usize);
        lemma_usize_shr_is_div(x, i as usize);
        lemma_usize_shr_is_div(set, i as usize);
    }
    assert forall|i: int| 0 <= i < usize::BITS implies (#[trigger] clear.bit(i)) == (i != k && x.bit(i)) by {
        lemma_usize_bit_ops(x, k as usize, i as usize);
        lemma_usize_shr_is_div(x, i as usize);
        lemma_usize_shr_is_div(clear, i as usize);
    }
}

impl BitField for usize {
    open spec fn width() -> nat {
        usize::BITS as nat
    }

    open spec fn bit(self, i: int) -> bool {
        0 <= i < usize::BITS && nat_bit(self as nat, i as nat)
    }

    proof fn lemma_bits_determine(a: Self, b: Self) {
        lemma2_to64();
        lemma2_to64_rest();
        lemma_pow2_width_usize();
        assert forall|i: nat| i < usize::BITS implies nat_bit(a as nat, i) == nat_bit(b as nat, i) by {
            assert(a.bit(i as int) == b.bit(i as int));
        }
        lemma_nat_bits_determine(a as nat, b as nat, usize::BITS as nat);
    }

    #[inline]
    fn bits(&self) -> (n: u8) {
        usize::BITS as u8
    }

    fn get_bit(&self, bit: u8) -> (b: bool) {
        proof {
            lemma_usize_get_bit(*self, bit);
        }
        (*self & (1 << bit)) != 0
    }

    fn get_bits(&self, bits: Range<u8>) -> (r: Self) {
        let mut ret: Self = 0;
        let mut bit: u8 = bits.start;
        proof {
            lemma_zero_has_no_bits();
        }
        while bit < bits.end
            invariant
                bits.start < bits.end ==> bits.end <= usize::BITS,
                bits.start <= bit,
                bits.start < bits.end ==> bit <= bits.end,
                bits.start >= bits.end ==> bit == bits.start,
                forall|i: int|
                    0 <= i < usize::BITS ==> ret.bit(i) == (bits.start <= i < bit && self.bit(i)),
            decreases bits.end - bit,
        {
            let b = self.get_bit(bit);
            ret.set_bit(bit, b);
            bit += 1;
        }
        ret
    }

    fn set_bit(&mut self, bit: u8, value: bool) {
        proof {
            lemma_usize_set_bit(*self, bit);
        }
        if value {
            *self |= 1 << bit;
        } else {
            *self &= !(1 << bit);
        }
    }

    fn set_bits(&mut self, bits: Range<u8>, value: Self) {
        let ghost before = *self;
        let width: u8 = usize::BITS as u8;
        let mut taken: u8 = 0;
        let mut bit: u8 = bits.start;
        while bit < bits.end && taken < width
            invariant
                width == usize::BITS,
                bits.start < bits.end ==> (bits.end <= usize::BITS || bits.start == 0),
                bits.start <= bit,
                bits.start < bits.end ==> bit <= bits.end,
                bits.start >= bits.end ==> bit == bits.start,
                taken == bit - bits.start,
                taken <= usize::BITS,
                forall|i: int|
                    0 <= i < usize::BITS ==> self.bit(i) == if bits.start <= i < bit {
                        value.bit(i - bits.start)
                    } else {
                        before.bit(i)
                    },
            decreases bits.end - bit,
        {
            let mask = value.get_bit(taken);
            self.set_bit(bit, mask);
            taken += 1;
            bit += 1;
        }
    }
}

/// `word` with bit `k` forced to `value`.
pub open spec fn with_bit(word: u16, k: u8, value: bool) -> u16 {
    if value {
        word | (1u16 << k)
    } else {
        word & !(1u16 << k)
    }
}

/// The bits of [`with_bit`]: bit `k` is `value`, the others are those of
/// `word`.
pub proof fn lemma_with_bit(word: u16, k: u8, value: bool)
    requires
        k < 16,
    ensures
        forall|i: int|
            0 <= i < 16 ==> (#[trigger] with_bit(word, k, value).bit(i)) == if i == k {
                value
            } else {
                word.bit(i)
            },
{
    lemma_u16_set_bit(word, k);
}

} // verus!
