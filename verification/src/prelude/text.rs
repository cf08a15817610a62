//! Numbers as text, for the diagnostic output of the kernel.

use vstd::prelude::*;

verus! {

/// The upper-case hexadecimal digit for `d`, which is below sixteen.
pub open spec fn hex_digit(d: nat) -> char
    recommends
        d < 16,
{
    if d < 10 {
        (('0' as u8) + d) as u8 as char
    } else {
        (('A' as u8) + d - 10) as u8 as char
    }
}

/// The upper-case hexadecimal digits of `n`, most significant first,
/// without leading zeros.
pub open spec fn hex(n: nat) -> Seq<char>
    decreases n,
{
    if n < 16 {
        seq![hex_digit(n)]
    } else {
        hex(n / 16).push(hex_digit(n % 16))
    }
}

/// `count` zeros.
pub open spec fn zeros(count: nat) -> Seq<char> {
    Seq::new(count, |i: int| '0')
}

/// `n` in hexadecimal behind the prefix `0x`, filled up with zeros between
/// prefix and digits to sixteen characters in all. A number of more than
/// fourteen digits is not cut.
pub open spec fn hex_padded(n: nat) -> Seq<char> {
    seq!['0', 'x'] + zeros(padding(hex(n).len())) + hex(n)
}

/// The number of zeros that fill `digits` digits up to fourteen.
pub open spec fn padding(digits: nat) -> nat {
    if digits >= 14 {
        0
    } else {
        (14 - digits) as nat
    }
}

/// The decimal digits of `n`, most significant first, without leading
/// zeros.
pub open spec fn dec(n: nat) -> Seq<char>
    decreases n,
{
    if n < 10 {
        seq![hex_digit(n)]
    } else {
        dec(n / 10).push(hex_digit(n % 10))
    }
}

/// The text of one digit.
fn digit_str(d: u8) -> (s: &'static str)
    requires
        d < 16,
    ensures
        s@ == seq![hex_digit(d as nat)],
{
    proof {
        reveal_strlit("0");
        reveal_strlit("1");
        reveal_strlit("2");
        reveal_strlit("3");
        reveal_strlit("4");
        reveal_strlit("5");
        reveal_strlit("6");
        reveal_strlit("7");
        reveal_strlit("8");
        reveal_strlit("9");
        reveal_strlit("A");
        reveal_strlit("B");
        reveal_strlit("C");
        reveal_strlit("D");
        reveal_strlit("E");
        reveal_strlit("F");
    }
    let s = match d {
        0 => "0",
        1 => "1",
        2 => "2",
        3 => "3",
        4 => "4",
        5 => "5",
        6 => "6",
        7 => "7",
        8 => "8",
        9 => "9",
        10 => "A",
        11 => "B",
        12 => "C",
        13 => "D",
        14 => "E",
        _ => "F",
    };
    assert(s@ =~= seq![hex_digit(d as nat)]);
    s
}

/// The digits of `value` to the base `base`, least significant first, each
/// as its number.
fn digits_low_first(value: u64, base: u64) -> (digits: Vec<u8>)
    requires
        base == 10 || base == 16,
    ensures
        digits@.len() >= 1,
        digits@.len() == text_of(digits@).len(),
        forall|k: int| 0 <= k < digits@.len() ==> digits@[k] < base,
        text_of(digits@) == if base == 16 {
            hex(value as nat)
        } else {
            dec(value as nat)
        },
{
    let mut digits: Vec<u8> = Vec::new();
    let mut rest: u64 = value;
    while rest >= base
        invariant
            base == 10 || base == 16,
            forall|k: int| 0 <= k < digits@.len() ==> digits@[k] < base,
            base == 16 ==> hex(value as nat) == hex(rest as nat) + text_of(digits@),
            base == 10 ==> dec(value as nat) == dec(rest as nat) + text_of(digits@),
        decreases rest,
    {
        let d: u8 = (rest % base) as u8;
        proof {
            lemma_text_of_push(digits@, d);
            if base == 16 {
                assert(hex(rest as nat) =~= hex(rest as nat / 16) + seq![hex_digit(d as nat)]);
            } else {
                assert(dec(rest as nat) =~= dec(rest as nat / 10) + seq![hex_digit(d as nat)]);
            }
            assert(hex(rest as nat / 16) + seq![hex_digit(d as nat)] + text_of(digits@) =~= hex(
                rest as nat / 16,
            ) + (seq![hex_digit(d as nat)] + text_of(digits@)));
            assert(dec(rest as nat / 10) + seq![hex_digit(d as nat)] + text_of(digits@) =~= dec(
                rest as nat / 10,
            ) + (seq![hex_digit(d as nat)] + text_of(digits@)));
        }
        digits.push(d);
        rest = rest / base;
    }
    proof {
        lemma_text_of_push(digits@, rest as u8);
    }
    digits.push(rest as u8);
    proof {
        lemma_text_of_len(digits@);
    }
    digits
}

/// The text that a list of digits spells when it is read from its end.
pub open spec fn text_of(low_first: Seq<u8>) -> Seq<char>
    decreases low_first.len(),
{
    if low_first.len() == 0 {
        Seq::empty()
    } else {
        seq![hex_digit(low_first.last() as nat)] + text_of(low_first.drop_last())
    }
}

proof fn lemma_text_of_len(low_first: Seq<u8>)
    ensures
        text_of(low_first).len() == low_first.len(),
    decreases low_first.len(),
{
    if low_first.len() > 0 {
        lemma_text_of_len(low_first.drop_last());
    }
}

proof fn lemma_text_of_push(low_first: Seq<u8>, d: u8)
    ensures
        text_of(low_first.push(d)) == seq![hex_digit(d as nat)] + text_of(low_first),
{
    assert(low_first.push(d).drop_last() =~= low_first);
}

/// Append the text of `digits`, read from its end, to `out`.
fn append_digits(out: &mut String, digits: &Vec<u8>)
    requires
        forall|k: int| 0 <= k < digits@.len() ==> digits@[k] < 16,
    ensures
        final(out)@ == old(out)@ + text_of(digits@),
{
    let mut i: usize = digits.len();
    let ghost start = out@;
    assert(digits@.subrange(i as int, digits@.len() as int) =~= Seq::<u8>::empty());
    assert(digits@.take(digits@.len() as int) =~= digits@);
    while i > 0
        invariant
            i <= digits@.len(),
            forall|k: int| 0 <= k < digits@.len() ==> digits@[k] < 16,
            start + text_of(digits@) == out@ + text_of(digits@.take(i as int)),
        decreases i,
    {
        i -= 1;
        proof {
            let upto = digits@.take(i + 1);
            assert(upto.drop_last() =~= digits@.take(i as int));
            assert(upto.last() == digits@[i as int]);
            assert(out@ + (seq![hex_digit(digits@[i as int] as nat)] + text_of(
                digits@.take(i as int),
            )) =~= out@ + seq![hex_digit(digits@[i as int] as nat)] + text_of(
                digits@.take(i as int),
            ));
        }
        out.append(digit_str(digits[i]));
    }
    assert(digits@.take(0) =~= Seq::<u8>::empty());
    assert(out@ + Seq::<char>::empty() =~= out@);
}

/// Append `value` in upper-case hexadecimal, without prefix or padding.
pub fn append_hex(out: &mut String, value: u64)
    ensures
        final(out)@ == old(out)@ + hex(value as nat),
{
    let digits = digits_low_first(value, 16);
    append_digits(out, &digits);
}

/// Append `value` in decimal.
pub fn append_dec(out: &mut String, value: u64)
    ensures
        final(out)@ == old(out)@ + dec(value as nat),
{
    let digits = digits_low_first(value, 10);
    append_digits(out, &digits);
}

/// Append `value` in upper-case hexadecimal behind `0x`, padded with zeros
/// to sixteen characters in all.
pub fn append_hex_padded(out: &mut String, value: u64)
    ensures
        final(out)@ == old(out)@ + hex_padded(value as nat),
{
    let digits = digits_low_first(value, 16);
    let ghost start = out@;
    proof {
        reveal_strlit("0x");
        reveal_strlit("0");
    }
    out.append("0x");
    let mut n: usize = digits.len();
    assert(zeros(0) =~= Seq::<char>::empty());
    assert(start + seq!['0', 'x'] + Seq::<char>::empty() =~= start + seq!['0', 'x']);
    while n < 14
        invariant
            digits@.len() <= n,
            digits@.len() >= 14 ==> n == digits@.len(),
            digits@.len() <= 14 ==> n <= 14,
            out@ == start + seq!['0', 'x'] + zeros((n - digits@.len()) as nat),
        decreases 14 - n,
    {
        proof {
            reveal_strlit("0");
            assert(zeros((n - digits@.len()) as nat) + seq!['0'] =~= zeros(
                (n + 1 - digits@.len()) as nat,
            ));
            assert(start + seq!['0', 'x'] + zeros((n - digits@.len()) as nat) + seq!['0'] =~= start
                + seq!['0', 'x'] + (zeros((n - digits@.len()) as nat) + seq!['0']));
        }
        out.append("0");
        n += 1;
    }
    append_digits(out, &digits);
    proof {
        assert(n - digits@.len() == padding(hex(value as nat).len()));
        assert(start + seq!['0', 'x'] + zeros(padding(hex(value as nat).len())) + hex(value as nat)
            =~= start + (seq!['0', 'x'] + zeros(padding(hex(value as nat).len())) + hex(
            value as nat,
        )));
    }
}

} // verus!
