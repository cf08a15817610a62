//! Bit-level access to the primitive integers.

use core::ops::Range;
use vstd::arithmetic::div_mod::{lemma_div_denominator, lemma_fundamental_div_mod};
use vstd::arithmetic::power2::{lemma_pow2_pos, lemma_pow2_unfold, pow2};
use vstd::prelude::*;

verus! {

/// Whether bit `i` of the natural number `n` is set, bit 0 being the least
/// significant.
pub open spec fn nat_bit(n: nat, i: nat) -> bool {
    (n / pow2(i)) % 2 == 1
}

/// Two natural numbers below `2^w` that agree on their `w` low bits are equal.
pub proof fn lemma_nat_bits_determine(a: nat, b: nat, w: nat)
    requires
        a < pow2(w),
        b < pow2(w),
        forall|i: nat| i < w ==> nat_bit(a, i) == nat_bit(b, i),
    ensures
        a == b,
    decreases w,
{
    if w == 0 {
        assert(pow2(0) == 1) by {
            lemma_pow2_unfold(1);
            lemma_pow2_pos(0);
            vstd::arithmetic::power2::lemma2_to64();
        }
    } else {
        let w1 = (w - 1) as nat;
        lemma_pow2_unfold(w);
        assert(pow2(w) == 2 * pow2(w1));
        assert forall|i: nat| i < w1 implies #[trigger] nat_bit(a / 2, i) == nat_bit(b / 2, i) by {
            lemma_pow2_pos(i);
            lemma_pow2_unfold(i + 1);
            lemma_div_denominator(a as int, 2, pow2(i) as int);
            lemma_div_denominator(b as int, 2, pow2(i) as int);
            assert(nat_bit(a, i + 1) == nat_bit(b, i + 1));
        }
        lemma_nat_bits_determine(a / 2, b / 2, w1);
        assert(nat_bit(a, 0) == nat_bit(b, 0));
        assert(pow2(0) == 1) by {
            vstd::arithmetic::power2::lemma2_to64();
        }
        lemma_fundamental_div_mod(a as int, 2);
        lemma_fundamental_div_mod(b as int, 2);
    }
}

/// An integer seen as a fixed number of bits.
pub trait BitField: Copy + Sized {
    /// The number of bits in a value of the type.
    spec fn width() -> nat;

    /// The state of bit `i`, bit 0 being the least significant. No bit is set
    /// outside `0..width()`.
    spec fn bit(self, i: int) -> bool;

    /// A value is determined by its bits.
    proof fn lemma_bits_determine(a: Self, b: Self)
        requires
            forall|i: int| 0 <= i < Self::width() ==> a.bit(i) == b.bit(i),
        ensures
            a == b,
    ;

    /// Return the number of bits in `self`.
    fn bits(&self) -> (n: u8)
        ensures
            n as nat == Self::width(),
            n >= 8,
    ;

    /// Get the boolean state of the given `bit` position.
    fn get_bit(&self, bit: u8) -> (b: bool)
        requires
            (bit as nat) < Self::width(),
        ensures
            b == self.bit(bit as int),
    ;

    /// Return `self` with every bit outside `bits` cleared.
    fn get_bits(&self, bits: Range<u8>) -> (r: Self)
        requires
            bits.start < bits.end ==> (bits.end as nat) <= Self::width(),
        ensures
            forall|i: int|
                0 <= i < Self::width() ==> r.bit(i) == (bits.start <= i < bits.end && self.bit(i)),
    ;

    /// Set the provided `bit` to a boolean value.
    fn set_bit(&mut self, bit: u8, value: bool)
        requires
            (bit as nat) < Self::width(),
        ensures
            forall|i: int|
                0 <= i < Self::width() ==> final(self).bit(i) == if i == bit {
                    value
                } else {
                    old(self).bit(i)
                },
    ;

    /// Fill in a range of `bits` from `value`: bit `bits.start + k` of `self`
    /// takes the state of bit `k` of `value`, for as long as both the range
    /// and the bits of `value` last.
    fn set_bits(&mut self, bits: Range<u8>, value: Self)
        requires
            bits.start < bits.end ==> ((bits.end as nat) <= Self::width() || bits.start == 0),
        ensures
            forall|i: int|
                0 <= i < Self::width() ==> final(self).bit(i) == if bits.start <= i < bits.end {
                    value.bit(i - bits.start)
                } else {
                    old(self).bit(i)
                },
    ;

    /// Return a [`BitfieldIterator`] over the bits in `self`.
    fn bit_iter(&self) -> (it: BitfieldIterator<Self>)
        ensures
            it.inner() == *self,
            it.front() == 0,
            it.back() == Some((Self::width() - 1) as int),
    {
        BitfieldIterator { inner: *self, fwd_bit: 0, rev_bit: Some(self.bits() - 1) }
    }
}

/// Walks the bits of a [`BitField`] value from either end. [`next`] yields
/// the least significant bits first and [`next_back`] the most significant
/// bits first. The two ends advance independently of each other, and
/// `next_back` stops above bit 0.
///
/// [`next`]: BitfieldIterator::next
/// [`next_back`]: BitfieldIterator::next_back
pub struct BitfieldIterator<T> {
    fwd_bit: u8,
    rev_bit: Option<u8>,
    inner: T,
}

impl<T> BitfieldIterator<T> {
    /// The value whose bits are walked.
    pub closed spec fn inner(self) -> T {
        self.inner
    }

    /// The position that `next` reads.
    pub closed spec fn front(self) -> int {
        self.fwd_bit as int
    }

    /// The position that `next_back` reads, if any is left.
    pub closed spec fn back(self) -> Option<int> {
        match self.rev_bit {
            Some(n) => Some(n as int),
            None => None,
        }
    }

}

impl<T: BitField> BitfieldIterator<T> {
    /// Both positions lie where the walk can read them.
    pub open spec fn wf(self) -> bool {
        &&& 0 <= self.front() <= T::width()
        &&& self.back() matches Some(n) ==> 1 <= n < T::width()
    }

    /// The next bit from the least significant end.
    pub fn next(&mut self) -> (r: Option<bool>)
        requires
            old(self).wf(),
        ensures
            final(self).wf(),
            final(self).inner() == old(self).inner(),
            final(self).back() == old(self).back(),
            old(self).front() < T::width() ==> r == Some(old(self).inner().bit(old(self).front()))
                && final(self).front() == old(self).front() + 1,
            old(self).front() >= T::width() ==> r.is_none() && final(self).front() == old(
                self,
            ).front(),
    {
        if self.fwd_bit < self.inner.bits() {
            let val = self.inner.get_bit(self.fwd_bit);
            self.fwd_bit += 1;
            Some(val)
        } else {
            None
        }
    }

    /// The next bit from the most significant end. Bit 1 is the last one
    /// that is handed out.
    pub fn next_back(&mut self) -> (r: Option<bool>)
        requires
            old(self).wf(),
        ensures
            final(self).wf(),
            final(self).inner() == old(self).inner(),
            final(self).front() == old(self).front(),
            match old(self).back() {
                Some(n) => r == Some(old(self).inner().bit(n)) && final(self).back() == if n == 1 {
                    None::<int>
                } else {
                    Some(n - 1)
                },
                None => r.is_none() && final(self).back().is_none(),
            },
    {
        match self.rev_bit.take() {
            Some(n) => {
                let val = self.inner.get_bit(n);
                self.rev_bit = if n == 1 {
                    None
                } else {
                    Some(n - 1)
                };
                Some(val)
            },
            None => None,
        }
    }

    /// The bits that `next` has yet to hand out, in the order in which it
    /// would.
    pub fn to_vec(self) -> (v: Vec<bool>)
        requires
            self.wf(),
        ensures
            v@.len() == T::width() - self.front(),
            forall|k: int| 0 <= k < v@.len() ==> v@[k] == self.inner().bit(self.front() + k),
    {
        let mut it = self;
        let mut v: Vec<bool> = Vec::new();
        let n = it.inner.bits();
        while it.fwd_bit < n
            invariant
                it.wf(),
                n as nat == T::width(),
                it.inner() == self.inner(),
                self.front() <= it.front() <= T::width(),
                v@.len() == it.front() - self.front(),
                forall|k: int| 0 <= k < v@.len() ==> v@[k] == self.inner().bit(self.front() + k),
            decreases T::width() - it.front(),
        {
            let r = it.next();
            v.push(r.unwrap());
        }
        v
    }
}

} // verus!
