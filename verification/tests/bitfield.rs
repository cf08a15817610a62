use kernel::prelude::BitField;

#[test]
fn flip() {
    let mut f = 0b1110_0101u8;
    assert_eq!(f.bits(), 8);
    assert_eq!(f.get_bit(0), true);
    assert_eq!(f.get_bit(1), false);
    assert_eq!(f.get_bit(7), true);
    f.set_bit(7, false);
    assert_eq!(f, 0b0110_0101u8);
    assert_eq!(f.get_bit(7), false);
}

#[test]
fn set_bits() {
    let mut f = 0u16;
    f.set_bits(8..12, 0b1010u16);
    assert_eq!(f, 0b0000_1010_0000_0000);
    f.set_bits(8..12, 0b0101u16);
    assert_eq!(f, 0b0000_0101_0000_0000);
}

#[test]
fn bit_range() {
    let f = 0b0110_0111_0010_0000u16;
    assert_eq!(f.get_bits(5..10), 0b0011_0010_0000u16);
}

#[test]
fn bit_iter() {
    let f = 0b1110_0101u8;
    let r = vec![true, false, true, false, false, true, true, true];
    assert_eq!(f.bit_iter().to_vec(), r);
}

#[test]
fn widths_of_all_integers() {
    assert_eq!(0u8.bits(), 8);
    assert_eq!(0u16.bits(), 16);
    assert_eq!(0u32.bits(), 32);
    assert_eq!(0u64.bits(), 64);
    assert_eq!(0u128.bits(), 128);
    assert_eq!(0usize.bits() as u32, usize::BITS);
    assert_eq!(0i8.bits(), 8);
    assert_eq!(0i16.bits(), 16);
    assert_eq!(0i32.bits(), 32);
    assert_eq!(0i64.bits(), 64);
    assert_eq!(0i128.bits(), 128);
    assert_eq!(0isize.bits() as u32, isize::BITS);
}

#[test]
fn top_bit_of_each_width() {
    let mut a = 0u8;
    a.set_bit(7, true);
    assert_eq!(a, 0x80);
    let mut b = 0u32;
    b.set_bit(31, true);
    assert_eq!(b, 0x8000_0000);
    let mut c = 0u64;
    c.set_bit(63, true);
    assert_eq!(c, 0x8000_0000_0000_0000);
    let mut d = 0u128;
    d.set_bit(127, true);
    assert_eq!(d, 1u128 << 127);
    assert!(d.get_bit(127));
    assert!(!d.get_bit(126));
}

#[test]
fn signed_values_by_their_twos_complement() {
    let mut a = 0i8;
    a.set_bit(7, true);
    assert_eq!(a, i8::MIN);
    assert!(a.get_bit(7));
    let mut b = -1i16;
    assert!(b.get_bit(0) && b.get_bit(15));
    b.set_bit(15, false);
    assert_eq!(b, i16::MAX);
    let c = -2i32;
    assert!(!c.get_bit(0));
    assert_eq!(c.get_bits(0..4), 0b1110);
    let mut d = 0i64;
    d.set_bits(60..64, 0b1111);
    assert_eq!(d, -(1i64 << 60));
}

#[test]
fn get_bits_of_an_empty_range_is_zero() {
    let f = 0xFFFFu16;
    assert_eq!(f.get_bits(4..4), 0);
    assert_eq!(f.get_bits(9..3), 0);
    assert_eq!(f.get_bits(0..16), 0xFFFF);
}

#[test]
fn set_bits_of_an_empty_range_changes_nothing() {
    let mut f = 0xA5A5u16;
    f.set_bits(4..4, 0xFFFF);
    assert_eq!(f, 0xA5A5);
    f.set_bits(9..3, 0xFFFF);
    assert_eq!(f, 0xA5A5);
}

#[test]
fn set_bits_from_bit_zero_stops_at_the_width() {
    // A range that starts at bit 0 may reach beyond the width: the bits of
    // the value run out first.
    let mut f = 0u8;
    f.set_bits(0..20, 0b1010_0101);
    assert_eq!(f, 0b1010_0101);
}

#[test]
fn set_bits_takes_the_low_bits_of_the_value() {
    let mut f = 0xFFFF_FFFFu32;
    f.set_bits(4..12, 0xFFFF_FF00);
    assert_eq!(f, 0xFFFF_F00F);
}

#[test]
fn next_yields_every_bit_from_the_low_end() {
    let f = 0b0000_0110u8;
    let mut it = f.bit_iter();
    let mut seen = Vec::new();
    while let Some(bit) = it.next() {
        seen.push(bit);
    }
    assert_eq!(seen, vec![false, true, true, false, false, false, false, false]);
    assert_eq!(it.next(), None);
}

#[test]
fn next_back_stops_above_bit_zero() {
    let f = 0b1000_0011u8;
    let mut it = f.bit_iter();
    let mut seen = Vec::new();
    while let Some(bit) = it.next_back() {
        seen.push(bit);
    }
    // Bits 7 down to 1; bit 0 is never handed out from this end.
    assert_eq!(seen, vec![true, false, false, false, false, false, true]);
    assert_eq!(it.next_back(), None);
}

#[test]
fn the_two_ends_of_a_walk_are_independent() {
    let f = 0b1000_0001u8;
    let mut it = f.bit_iter();
    assert_eq!(it.next_back(), Some(true));
    assert_eq!(it.next(), Some(true));
    let rest = it.to_vec();
    assert_eq!(rest, vec![false, false, false, false, false, false, true]);
}

#[test]
fn bits_determine_the_value() {
    // Rebuilding a value bit by bit gives the value back.
    let f = 0xDEAD_BEEF_0BAD_F00Du64;
    let mut g = 0u64;
    for bit in 0..64u8 {
        g.set_bit(bit, f.get_bit(bit));
    }
    assert_eq!(g, f);
}
