//! A cursor that fills a borrowed byte buffer from the front.

use vstd::prelude::*;
use vstd::string::StringSliceAdditionalSpecFns;
use vstd::utf8::valid_utf8;

verus! {

/// The text did not fit into what is left of the buffer.
#[derive(Clone, Copy, Debug, PartialEq, Eq, Structural)]
pub struct WriteError;

/// The ASCII digit for `d`, which is below ten.
pub open spec fn digit(d: nat) -> u8
    recommends
        d < 10,
{
    (0x30 + d) as u8
}

/// The decimal digits of `n` in ASCII, most significant first, without
/// leading zeros.
pub open spec fn decimal(n: nat) -> Seq<u8>
    decreases n,
{
    if n < 10 {
        seq![digit(n)]
    } else {
        decimal(n / 10).push(digit(n % 10))
    }
}

/// A number has at least one decimal digit, and a `u64` at most twenty.
pub proof fn lemma_decimal_len(n: nat)
    ensures
        1 <= decimal(n).len(),
        n <= u64::MAX ==> decimal(n).len() <= 20,
{
    assert(pow10(20) == 100_000_000_000_000_000_000) by {
        reveal_with_fuel(pow10, 21);
    }
    lemma_decimal_len_bound(n, 20);
}

proof fn lemma_decimal_len_bound(n: nat, k: nat)
    ensures
        1 <= decimal(n).len(),
        k >= 1 && n < pow10(k) ==> decimal(n).len() <= k,
    decreases n,
{
    reveal_with_fuel(pow10, 2);
    if n >= 10 {
        if k >= 1 {
            lemma_decimal_len_bound(n / 10, (k - 1) as nat);
        } else {
            lemma_decimal_len_bound(n / 10, 0);
        }
    }
}

spec fn pow10(k: nat) -> nat
    decreases k,
{
    if k == 0 {
        1
    } else {
        10 * pow10((k - 1) as nat)
    }
}

/// `core::str::from_utf8`: the text that `bytes` spell. The standard library
/// hands it out exactly when the bytes are well-formed UTF-8, and the text
/// then consists of those bytes.
#[verifier::external_body]
fn utf8_text(bytes: &[u8]) -> (r: Option<&str>)
    ensures
        r.is_some() == valid_utf8(bytes@),
        r matches Some(s) ==> s.spec_bytes() == bytes@,
{
    core::str::from_utf8(bytes).ok()
}

/// Writes text into a borrowed buffer, front to back, and refuses what does
/// not fit.
pub struct BytesBuf<'a> {
    /// The whole buffer, written and unwritten part alike.
    pub buf: &'a mut [u8],
    /// The number of bytes written so far.
    pub offset: usize,
}

impl<'a> BytesBuf<'a> {
    /// The whole buffer as it stands.
    pub open spec fn bytes(self) -> Seq<u8> {
        self.buf@
    }

    /// The cursor lies inside the buffer.
    pub open spec fn wf(self) -> bool {
        self.offset <= self.buf@.len()
    }

    /// The bytes written so far.
    pub open spec fn written(self) -> Seq<u8> {
        self.buf@.subrange(0, self.offset as int)
    }

    /// The number of bytes that still fit.
    pub open spec fn remaining(self) -> int {
        self.buf@.len() - self.offset
    }

    /// The buffer after `src` has been written at the cursor.
    pub open spec fn spliced(self, src: Seq<u8>) -> Seq<u8> {
        self.buf@.subrange(0, self.offset as int) + src + self.buf@.subrange(
            self.offset + src.len(),
            self.buf@.len() as int,
        )
    }

    /// Start writing at the front of `slice`. The slice holds, once the
    /// buffer is given up, what the buffer held last.
    pub fn from_slice(slice: &'a mut [u8]) -> (b: BytesBuf<'a>)
        ensures
            b.wf(),
            b.offset == 0,
            b.bytes() == old(slice)@,
            final(b.buf)@ == final(slice)@,
    {
        BytesBuf { buf: slice, offset: 0 }
    }

    /// The whole buffer as text.
    pub fn as_str(&self) -> (s: &str)
        requires
            valid_utf8(self.bytes()),
        ensures
            s.spec_bytes() == self.bytes(),
    {
        utf8_text(self.buf).unwrap()
    }

    /// Write `src` at the cursor and advance past it, or change nothing and
    /// fail if it is longer than what is left.
    pub fn write_bytes(&mut self, src: &[u8]) -> (r: Result<(), WriteError>)
        requires
            old(self).wf(),
        ensures
            final(self).wf(),
            final(final(self).buf)@ == final(old(self).buf)@,
            r.is_ok() == (src@.len() <= old(self).remaining()),
            r.is_ok() ==> final(self).bytes() == old(self).spliced(src@),
            r.is_ok() ==> final(self).offset == old(self).offset + src@.len(),
            r.is_err() ==> final(self).bytes() == old(self).bytes(),
            r.is_err() ==> final(self).offset == old(self).offset,
    {
        let n = src.len();
        if self.buf.len() - self.offset < n {
            return Err(WriteError);
        }
        let start = self.offset;
        let ghost before = self.buf@;
        let mut i: usize = 0;
        while i < n
            invariant
                n == src@.len(),
                start + n <= self.buf@.len(),
                start + n <= usize::MAX,
                self.offset == start,
                i <= n,
                self.buf@.len() == before.len(),
                final(self.buf)@ == final(old(self).buf)@,
                forall|k: int| 0 <= k < start ==> self.buf@[k] == before[k],
                forall|k: int| start <= k < start + i ==> self.buf@[k] == src@[k - start],
                forall|k: int| start + i <= k < before.len() ==> self.buf@[k] == before[k],
            decreases n - i,
        {
            self.buf[start + i] = src[i];
            i += 1;
        }
        self.offset = start + n;
        assert(self.buf@ =~= old(self).spliced(src@));
        Ok(())
    }

    /// Write the bytes of `s` at the cursor, or change nothing and fail if
    /// they do not fit.
    pub fn write_str(&mut self, s: &str) -> (r: Result<(), WriteError>)
        requires
            old(self).wf(),
        ensures
            final(self).wf(),
            final(final(self).buf)@ == final(old(self).buf)@,
            r.is_ok() == (s.spec_bytes().len() <= old(self).remaining()),
            r.is_ok() ==> final(self).bytes() == old(self).spliced(s.spec_bytes()),
            r.is_ok() ==> final(self).offset == old(self).offset + s.spec_bytes().len(),
            r.is_err() ==> final(self).bytes() == old(self).bytes(),
            r.is_err() ==> final(self).offset == old(self).offset,
    {
        self.write_bytes(s.as_bytes())
    }

    /// Write `value` in decimal at the cursor, or change nothing and fail if
    /// its digits do not fit.
    pub fn write_decimal(&mut self, value: u64) -> (r: Result<(), WriteError>)
        requires
            old(self).wf(),
        ensures
            final(self).wf(),
            final(final(self).buf)@ == final(old(self).buf)@,
            r.is_ok() == (decimal(value as nat).len() <= old(self).remaining()),
            r.is_ok() ==> final(self).bytes() == old(self).spliced(decimal(value as nat)),
            r.is_ok() ==> final(self).offset == old(self).offset + decimal(value as nat).len(),
            r.is_err() ==> final(self).bytes() == old(self).bytes(),
            r.is_err() ==> final(self).offset == old(self).offset,
    {
        let digits = decimal_digits(value);
        self.write_bytes(digits.as_slice())
    }
}

/// The decimal digits of `value` in ASCII, most significant first.
pub fn decimal_digits(value: u64) -> (digits: Vec<u8>)
    ensures
        digits@ == decimal(value as nat),
{
    // Least significant digit first, then turned round.
    let mut low_first: Vec<u8> = Vec::new();
    let mut rest: u64 = value;
    while rest >= 10
        invariant
            decimal(value as nat) == decimal(rest as nat) + low_first@.reverse(),
        decreases rest,
    {
        let d: u8 = (rest % 10) as u8;
        proof {
            let ghost next = low_first@.push((0x30 + d) as u8);
            assert(next.reverse() =~= seq![(0x30 + d) as u8] + low_first@.reverse());
            assert(decimal(rest as nat) =~= decimal(rest as nat / 10) + seq![digit(rest as nat % 10)]);
        }
        low_first.push(0x30 + d);
        rest = rest / 10;
    }
    let d: u8 = rest as u8;
    proof {
        let ghost next = low_first@.push((0x30 + d) as u8);
        assert(next.reverse() =~= seq![(0x30 + d) as u8] + low_first@.reverse());
    }
    low_first.push(0x30 + d);
    let mut digits: Vec<u8> = Vec::new();
    let mut i: usize = low_first.len();
    while i > 0
        invariant
            i <= low_first@.len(),
            digits@.len() == low_first@.len() - i,
            forall|k: int| 0 <= k < digits@.len() ==> digits@[k] == low_first@[low_first@.len() - 1 - k],
        decreases i,
    {
        i -= 1;
        digits.push(low_first[i]);
    }
    assert(digits@ =~= low_first@.reverse());
    digits
}

} // verus!
