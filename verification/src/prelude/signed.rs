//! [`BitField`] for the signed integers, by their two's complement bits.

use super::bitfield::BitField;
use super::unsigned::{
    lemma_u128_get_bit, lemma_u128_set_bit, lemma_u16_get_bit, lemma_u16_set_bit,
    lemma_u32_get_bit, lemma_u32_set_bit, lemma_u64_get_bit, lemma_u64_set_bit, lemma_u8_get_bit,
    lemma_u8_set_bit, lemma_usize_get_bit, lemma_usize_set_bit, lemma_zero_has_no_bits,
};
use core::ops::Range;
use vstd::prelude::*;

verus! {

proof fn lemma_i8_bit_ops(x: i8, y: i8, k: u8)
    by (bit_vector)
    requires
        k < 8,
    ensures
        ((x & (1i8 << k)) != 0) == (((x as u8) & (1u8 << k)) != 0),
        ((x | (1i8 << k)) as u8) == ((x as u8) | (1u8 << k)),
        ((x & !(1i8 << k)) as u8) == ((x as u8) & !(1u8 << k)),
        (x as u8) == (y as u8) ==> x == y,
        (0i8 as u8) == 0u8,
{
}

impl BitField for i8 {
    open spec fn width() -> nat {
        8 as nat
    }

    /// The bits of a signed value are those of its two's complement
    /// representation.
    open spec fn bit(self, i: int) -> bool {
        (self as u8).bit(i)
    }

    proof fn lemma_bits_determine(a: Self, b: Self) {
        let ua = #[verifier::truncate] (a as u8);
        let ub = #[verifier::truncate] (b as u8);
        assert forall|i: int| 0 <= i < 8 implies ua.bit(i) == ub.bit(i) by {
            assert(a.bit(i) == b.bit(i));
        }
        <u8 as BitField>::lemma_bits_determine(ua, ub);
        lemma_i8_bit_ops(a, b, 0);
    }

    #[inline]
    fn bits(&self) -> (n: u8) {
        8
    }

    fn get_bit(&self, bit: u8) -> (b: bool) {
        proof {
            lemma_i8_bit_ops(*self, 0, bit as u8);
            lemma_u8_get_bit(*self as u8, bit);
        }
        (*self & (1 << bit)) != 0
    }

    fn get_bits(&self, bits: Range<u8>) -> (r: Self) {
        let mut ret: Self = 0;
        let mut bit: u8 = bits.start;
        proof {
            lemma_zero_has_no_bits();
            lemma_i8_bit_ops(0, 0, 0);
        }
        while bit < bits.end
            invariant
                bits.start < bits.end ==> bits.end <= 8,
                bits.start <= bit,
                bits.start < bits.end ==> bit <= bits.end,
                bits.start >= bits.end ==> bit == bits.start,
                forall|i: int|
                    0 <= i < 8 ==> ret.bit(i) == (bits.start <= i < bit && self.bit(i)),
            decreases bits.end - bit,
        {
            let b = self.get_bit(bit);
            ret.set_bit(bit, b);
            bit += 1;
        }
        ret
    }

    fn set_bit(&mut self, bit: u8, value: bool) {
        proof {
            lemma_i8_bit_ops(*self, 0, bit as u8);
            lemma_u8_set_bit(*self as u8, bit);
        }
        if value {
            *self |= 1 << bit;
        } else {
            *self &= !(1 << bit);
        }
    }

    fn set_bits(&mut self, bits: Range<u8>, value: Self) {
        let ghost before = *self;
        let width: u8 = 8;
        let mut taken: u8 = 0;
        let mut bit: u8 = bits.start;
        while bit < bits.end && taken < width
            invariant
                width == 8,
                bits.start < bits.end ==> (bits.end <= 8 || bits.start == 0),
                bits.start <= bit,
                bits.start < bits.end ==> bit <= bits.end,
                bits.start >= bits.end ==> bit == bits.start,
                taken == bit - bits.start,
                taken <= 8,
                forall|i: int|
                    0 <= i < 8 ==> self.bit(i) == if bits.start <= i < bit {
                        value.bit(i - bits.start)
                    } else {
                        before.bit(i)
                    },
            decreases bits.end - bit,
        {
            let mask = value.get_bit(taken);
            self.set_bit(bit, mask);
            taken += 1;
            bit += 1;
        }
    }
}

proof fn lemma_i16_bit_ops(x: i16, y: i16, k: u16)
    by (bit_vector)
    requires
        k < 16,
    ensures
        ((x & (1i16 << k)) != 0) == (((x as u16) & (1u16 << k)) != 0),
        ((x | (1i16 << k)) as u16) == ((x as u16) | (1u16 << k)),
        ((x & !(1i16 << k)) as u16) == ((x as u16) & !(1u16 << k)),
        (x as u16) == (y as u16) ==> x == y,
        (0i16 as u16) == 0u16,
{
}

impl BitField for i16 {
    open spec fn width() -> nat {
        16 as nat
    }

    /// The bits of a signed value are those of its two's complement
    /// representation.
    open spec fn bit(self, i: int) -> bool {
        (self as u16).bit(i)
    }

    proof fn lemma_bits_determine(a: Self, b: Self) {
        let ua = #[verifier::truncate] (a as u16);
        let ub = #[verifier::truncate] (b as u16);
        assert forall|i: int| 0 <= i < 16 implies ua.bit(i) == ub.bit(i) by {
            assert(a.bit(i) == b.bit(i));
        }
        <u16 as BitField>::lemma_bits_determine(ua, ub);
        lemma_i16_bit_ops(a, b, 0);
    }

    #[inline]
    fn bits(&self) -> (n: u8) {
        16
    }

    fn get_bit(&self, bit: u8) -> (b: bool) {
        proof {
            lemma_i16_bit_ops(*self, 0, bit as u16);
            lemma_u16_get_bit(*self as u16, bit);
        }
        (*self & (1 << bit)) != 0
    }

    fn get_bits(&self, bits: Range<u8>) -> (r: Self) {
        let mut ret: Self = 0;
        let mut bit: u8 = bits.start;
        proof {
            lemma_zero_has_no_bits();
            lemma_i16_bit_ops(0, 0, 0);
        }
        while bit < bits.end
            invariant
                bits.start < bits.end ==> bits.end <= 16,
                bits.start <= bit,
                bits.start < bits.end ==> bit <= bits.end,
                bits.start >= bits.end ==> bit == bits.start,
                forall|i: int|
                    0 <= i < 16 ==> ret.bit(i) == (bits.start <= i < bit && self.bit(i)),
            decreases bits.end - bit,
        {
            let b = self.get_bit(bit);
            ret.set_bit(bit, b);
            bit += 1;
        }
        ret
    }

    fn set_bit(&mut self, bit: u8, value: bool) {
        proof {
            lemma_i16_bit_ops(*self, 0, bit as u16);
            lemma_u16_set_bit(*self as u16, bit);
        }
        if value {
            *self |= 1 << bit;
        } else {
            *self &= !(1 << bit);
        }
    }

    fn set_bits(&mut self, bits: Range<u8>, value: Self) {
        let ghost before = *self;
        let width: u8 = 16;
        let mut taken: u8 = 0;
        let mut bit: u8 = bits.start;
        while bit < bits.end && taken < width
            invariant
                width == 16,
                bits.start < bits.end ==> (bits.end <= 16 || bits.start == 0),
                bits.start <= bit,
                bits.start < bits.end ==> bit <= bits.end,
                bits.start >= bits.end ==> bit == bits.start,
                taken == bit - bits.start,
                taken <= 16,
                forall|i: int|
                    0 <= i < 16 ==> self.bit(i) == if bits.start <= i < bit {
                        value.bit(i - bits.start)
                    } else {
                        before.bit(i)
                    },
            decreases bits.end - bit,
        {
            let mask = value.get_bit(taken);
            self.set_bit(bit, mask);
            taken += 1;
            bit += 1;
        }
    }
}

proof fn lemma_i32_bit_ops(x: i32, y: i32, k: u32)
    by (bit_vector)
    requires
        k < 32,
    ensures
        ((x & (1i32 << k)) != 0) == (((x as u32) & (1u32 << k)) != 0),
        ((x | (1i32 << k)) as u32) == ((x as u32) | (1u32 << k)),
        ((x & !(1i32 << k)) as u32) == ((x as u32) & !(1u32 << k)),
        (x as u32) == (y as u32) ==> x == y,
        (0i32 as u32) == 0u32,
{
}

impl BitField for i32 {
    open spec fn width() -> nat {
        32 as nat
    }

    /// The bits of a signed value are those of its two's complement
    /// representation.
    open spec fn bit(self, i: int) -> bool {
        (self as u32).bit(i)
    }

    proof fn lemma_bits_determine(a: Self, b: Self) {
        let ua = #[verifier::truncate] (a as u32);
        let ub = #[verifier::truncate] (b as u32);
        assert forall|i: int| 0 <= i < 32 implies ua.bit(i) == ub.bit(i) by {
            assert(a.bit(i) == b.bit(i));
        }
        <u32 as BitField>::lemma_bits_determine(ua, ub);
        lemma_i32_bit_ops(a, b, 0);
    }

    #[inline]
    fn bits(&self) -> (n: u8) {
        32
    }

    fn get_bit(&self, bit: u8) -> (b: bool) {
        proof {
            lemma_i32_bit_ops(*self, 0, bit as u32);
            lemma_u32_get_bit(*self as u32, bit);
        }
        (*self & (1 << bit)) != 0
    }

    fn get_bits(&self, bits: Range<u8>) -> (r: Self) {
        let mut ret: Self = 0;
        let mut bit: u8 = bits.start;
        proof {
            lemma_zero_has_no_bits();
            lemma_i32_bit_ops(0, 0, 0);
        }
        while bit < bits.end
            invariant
                bits.start < bits.end ==> bits.end <= 32,
                bits.start <= bit,
                bits.start < bits.end ==> bit <= bits.end,
                bits.start >= bits.end ==> bit == bits.start,
                forall|i: int|
                    0 <= i < 32 ==> ret.bit(i) == (bits.start <= i < bit && self.bit(i)),
            decreases bits.end - bit,
        {
            let b = self.get_bit(bit);
            ret.set_bit(bit, b);
            bit += 1;
        }
        ret
    }

    fn set_bit(&mut self, bit: u8, value: bool) {
        proof {
            lemma_i32_bit_ops(*self, 0, bit as u32);
            lemma_u32_set_bit(*self as u32, bit);
        }
        if value {
            *self |= 1 << bit;
        } else {
            *self &= !(1 << bit);
        }
    }

    fn set_bits(&mut self, bits: Range<u8>, value: Self) {
        let ghost before = *self;
        let width: u8 = 32;
        let mut taken: u8 = 0;
        let mut bit: u8 = bits.start;
        while bit < bits.end && taken < width
            invariant
                width == 32,
                bits.start < bits.end ==> (bits.end <= 32 || bits.start == 0),
                bits.start <= bit,
                bits.start < bits.end ==> bit <= bits.end,
                bits.start >= bits.end ==> bit == bits.start,
                taken == bit - bits.start,
                taken <= 32,
                forall|i: int|
                    0 <= i < 32 ==> self.bit(i) == if bits.start <= i < bit {
                        value.bit(i - bits.start)
                    } else {
                        before.bit(i)
                    },
            decreases bits.end - bit,
        {
            let mask = value.get_bit(taken);
            self.set_bit(bit, mask);
            taken += 1;
            bit += 1;
        }
    }
}

proof fn lemma_i64_bit_ops(x: i64, y: i64, k: u64)
    by (bit_vector)
    requires
        k < 64,
    ensures
        ((x & (1i64 << k)) != 0) == (((x as u64) & (1u64 << k)) != 0),
        ((x | (1i64 << k)) as u64) == ((x as u64) | (1u64 << k)),
        ((x & !(1i64 << k)) as u64) == ((x as u64) & !(1u64 << k)),
        (x as u64) == (y as u64) ==> x == y,
        (0i64 as u64) == 0u64,
{
}

impl BitField for i64 {
    open spec fn width() -> nat {
        64 as nat
    }

    /// The bits of a signed value are those of its two's complement
    /// representation.
    open spec fn bit(self, i: int) -> bool {
        (self as u64).bit(i)
    }

    proof fn lemma_bits_determine(a: Self, b: Self) {
        let ua = #[verifier::truncate] (a as u64);
        let ub = #[verifier::truncate] (b as u64);
        assert forall|i: int| 0 <= i < 64 implies ua.bit(i) == ub.bit(i) by {
            assert(a.bit(i) == b.bit(i));
        }
        <u64 as BitField>::lemma_bits_determine(ua, ub);
        lemma_i64_bit_ops(a, b, 0);
    }

    #[inline]
    fn bits(&self) -> (n: u8) {
        64
    }

    fn get_bit(&self, bit: u8) -> (b: bool) {
        proof {
            lemma_i64_bit_ops(*self, 0, bit as u64);
            lemma_u64_get_bit(*self as u64, bit);
        }
        (*self & (1 << bit)) != 0
    }

    fn get_bits(&self, bits: Range<u8>) -> (r: Self) {
        let mut ret: Self = 0;
        let mut bit: u8 = bits.start;
        proof {
            lemma_zero_has_no_bits();
            lemma_i64_bit_ops(0, 0, 0);
        }
        while bit < bits.end
            invariant
                bits.start < bits.end ==> bits.end <= 64,
                bits.start <= bit,
                bits.start < bits.end ==> bit <= bits.end,
                bits.start >= bits.end ==> bit == bits.start,
                forall|i: int|
                    0 <= i < 64 ==> ret.bit(i) == (bits.start <= i < bit && self.bit(i)),
            decreases bits.end - bit,
        {
            let b = self.get_bit(bit);
            ret.set_bit(bit, b);
            bit += 1;
        }
        ret
    }

    fn set_bit(&mut self, bit: u8, value: bool) {
        proof {
            lemma_i64_bit_ops(*self, 0, bit as u64);
            lemma_u64_set_bit(*self as u64, bit);
        }
        if value {
            *self |= 1 << bit;
        } else {
            *self &= !(1 << bit);
        }
    }

    fn set_bits(&mut self, bits: Range<u8>, value: Self) {
        let ghost before = *self;
        let width: u8 = 64;
        let mut taken: u8 = 0;
        let mut bit: u8 = bits.start;
        while bit < bits.end && taken < width
            invariant
                width == 64,
                bits.start < bits.end ==> (bits.end <= 64 || bits.start == 0),
                bits.start <= bit,
                bits.start < bits.end ==> bit <= bits.end,
                bits.start >= bits.end ==> bit == bits.start,
                taken == bit - bits.start,
                taken <= 64,
                forall|i: int|
                    0 <= i < 64 ==> self.bit(i) == if bits.start <= i < bit {
                        value.bit(i - bits.start)
                    } else {
                        before.bit(i)
                    },
            decreases bits.end - bit,
        {
            let mask = value.get_bit(taken);
            self.set_bit(bit, mask);
            taken += 1;
            bit += 1;
        }
    }
}

proof fn lemma_i128_bit_ops(x: i128, y: i128, k: u128)
    by (bit_vector)
    requires
        k < 128,
    ensures
        ((x & (1i128 << k)) != 0) == (((x as u128) & (1u128 << k)) != 0),
        ((x | (1i128 << k)) as u128) == ((x as u128) | (1u128 << k)),
        ((x & !(1i128 << k)) as u128) == ((x as u128) & !(1u128 << k)),
        (x as u128) == (y as u128) ==> x == y,
        (0i128 as u128) == 0u128,
{
}

impl BitField for i128 {
    open spec fn width() -> nat {
        128 as nat
    }

    /// The bits of a signed value are those of its two's complement
    /// representation.
    open spec fn bit(self, i: int) -> bool {
        (self as u128).bit(i)
    }

    proof fn lemma_bits_determine(a: Self, b: Self) {
        let ua = #[verifier::truncate] (a as u128);
        let ub = #[verifier::truncate] (b as u128);
        assert forall|i: int| 0 <= i < 128 implies ua.bit(i) == ub.bit(i) by {
            assert(a.bit(i) == b.bit(i));
        }
        <u128 as BitField>::lemma_bits_determine(ua, ub);
        lemma_i128_bit_ops(a, b, 0);
    }

    #[inline]
    fn bits(&self) -> (n: u8) {
        128
    }

    fn get_bit(&self, bit: u8) -> (b: bool) {
        proof {
            lemma_i128_bit_ops(*self, 0, bit as u128);
            lemma_u128_get_bit(*self as u128, bit);
        }
        (*self & (1 << bit)) != 0
    }

    fn get_bits(&self, bits: Range<u8>) -> (r: Self) {
        let mut ret: Self = 0;
        let mut bit: u8 = bits.start;
        proof {
            lemma_zero_has_no_bits();
            lemma_i128_bit_ops(0, 0, 0);
        }
        while bit < bits.end
            invariant
                bits.start < bits.end ==> bits.end <= 128,
                bits.start <= bit,
                bits.start < bits.end ==> bit <= bits.end,
                bits.start >= bits.end ==> bit == bits.start,
                forall|i: int|
                    0 <= i < 128 ==> ret.bit(i) == (bits.start <= i < bit && self.bit(i)),
            decreases bits.end - bit,
        {
            let b = self.get_bit(bit);
            ret.set_bit(bit, b);
            bit += 1;
        }
        ret
    }

    fn set_bit(&mut self, bit: u8, value: bool) {
        proof {
            lemma_i128_bit_ops(*self, 0, bit as u128);
            lemma_u128_set_bit(*self as u128, bit);
        }
        if value {
            *self |= 1 << bit;
        } else {
            *self &= !(1 << bit);
        }
    }

    fn set_bits(&mut self, bits: Range<u8>, value: Self) {
        let ghost before = *self;
        let width: u8 = 128;
        let mut taken: u8 = 0;
        let mut bit: u8 = bits.start;
        while bit < bits.end && taken < width
            invariant
                width == 128,
                bits.start < bits.end ==> (bits.end <= 128 || bits.start == 0),
                bits.start <= bit,
                bits.start < bits.end ==> bit <= bits.end,
                bits.start >= bits.end ==> bit == bits.start,
                taken == bit - bits.start,
                taken <= 128,
                forall|i: int|
                    0 <= i < 128 ==> self.bit(i) == if bits.start <= i < bit {
                        value.bit(i - bits.start)
                    } else {
                        before.bit(i)
                    },
            decreases bits.end - bit,
        {
            let mask = value.get_bit(taken);
            self.set_bit(bit, mask);
            taken += 1;
            bit += 1;
        }
    }
}

proof fn lemma_isize_bit_ops(x: isize, y: isize, k: usize)
    by (bit_vector)
    requires
        k < isize::BITS,
    ensures
        ((x & (1isize << k)) != 0) == (((x as usize) & (1usize << k)) != 0),
        ((x | (1isize << k)) as usize) == ((x as usize) | (1usize << k)),
        ((x & !(1isize << k)) as usize) == ((x as usize) & !(1usize << k)),
        (x as usize) == (y as usize) ==> x == y,
        (0isize as usize) == 0usize,
{
}

impl BitField for isize {
    open spec fn width() -> nat {
        isize::BITS as nat
    }

    /// The bits of a signed value are those of its two's complement
    /// representation.
    open spec fn bit(self, i: int) -> bool {
        (self as usize).bit(i)
    }

    proof fn lemma_bits_determine(a: Self, b: Self) {
        let ua = #[verifier::truncate] (a as usize);
        let ub = #[verifier::truncate] (b as usize);
        assert forall|i: int| 0 <= i < isize::BITS implies ua.bit(i) == ub.bit(i) by {
            assert(a.bit(i) == b.bit(i));
        }
        <usize as BitField>::lemma_bits_determine(ua, ub);
        lemma_isize_bit_ops(a, b, 0);
    }

    #[inline]
    fn bits(&self) -> (n: u8) {
        isize::BITS as u8
    }

    fn get_bit(&self, bit: u8) -> (b: bool) {
        proof {
            lemma_isize_bit_ops(*self, 0, bit as usize);
            lemma_usize_get_bit(*self as usize, bit);
        }
        (*self & (1 << bit)) != 0
    }

    fn get_bits(&self, bits: Range<u8>) -> (r: Self) {
        let mut ret: Self = 0;
        let mut bit: u8 = bits.start;
        proof {
            lemma_zero_has_no_bits();
            lemma_isize_bit_ops(0, 0, 0);
        }
        while bit < bits.end
            invariant
                bits.start < bits.end ==> bits.end <= isize::BITS,
                bits.start <= bit,
                bits.start < bits.end ==> bit <= bits.end,
                bits.start >= bits.end ==> bit == bits.start,
                forall|i: int|
                    0 <= i < isize::BITS ==> ret.bit(i) == (bits.start <= i < bit && self.bit(i)),
            decreases bits.end - bit,
        {
            let b = self.get_bit(bit);
            ret.set_bit(bit, b);
            bit += 1;
        }
        ret
    }

    fn set_bit(&mut self, bit: u8, value: bool) {
        proof {
            lemma_isize_bit_ops(*self, 0, bit as usize);
            lemma_usize_set_bit(*self as usize, bit);
        }
        if value {
            *self |= 1 << bit;
        } else {
            *self &= !(1 << bit);
        }
    }

    fn set_bits(&mut self, bits: Range<u8>, value: Self) {
        let ghost before = *self;
        let width: u8 = isize::BITS as u8;
        let mut taken: u8 = 0;
        let mut bit: u8 = bits.start;
        while bit < bits.end && taken < width
            invariant
                width == isize::BITS,
                bits.start < bits.end ==> (bits.end <= isize::BITS || bits.start == 0),
                bits.start <= bit,
                bits.start < bits.end ==> bit <= bits.end,
                bits.start >= bits.end ==> bit == bits.start,
                taken == bit - bits.start,
                taken <= isize::BITS,
                forall|i: int|
                    0 <= i < isize::BITS ==> self.bit(i) == if bits.start <= i < bit {
                        value.bit(i - bits.start)
                    } else {
                        before.bit(i)
                    },
            decreases bits.end - bit,
        {
            let mask = value.get_bit(taken);
            self.set_bit(bit, mask);
            taken += 1;
            bit += 1;
        }
    }
}

} // verus!
