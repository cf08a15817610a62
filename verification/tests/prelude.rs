use kernel::prelude::bytes::decimal_digits;
use kernel::prelude::text::{append_dec, append_hex, append_hex_padded};
use kernel::arch::idt::InterruptDescriptorTable;
use kernel::arch::Cpu;
use kernel::prelude::{print, print_critical, BytesBuf, WriteError};
use kernel::sync::Once;

#[test]
fn write_str_fills_the_buffer_from_the_front() {
    let mut storage = [b'.'; 8];
    {
        let mut buf = BytesBuf::from_slice(&mut storage);
        assert_eq!(buf.write_str("ab"), Ok(()));
        assert_eq!(buf.offset, 2);
        assert_eq!(buf.write_str("cde"), Ok(()));
        assert_eq!(buf.offset, 5);
        assert_eq!(buf.as_str(), "abcde...");
    }
    assert_eq!(&storage, b"abcde...");
}

#[test]
fn write_str_refuses_what_does_not_fit_and_changes_nothing() {
    let mut storage = [b' '; 4];
    let mut buf = BytesBuf::from_slice(&mut storage);
    assert_eq!(buf.write_str("abc"), Ok(()));
    assert_eq!(buf.write_str("de"), Err(WriteError));
    assert_eq!(buf.offset, 3);
    assert_eq!(buf.as_str(), "abc ");
    // What fits exactly is taken.
    assert_eq!(buf.write_str("d"), Ok(()));
    assert_eq!(buf.as_str(), "abcd");
    assert_eq!(buf.write_str(""), Ok(()));
    assert_eq!(buf.write_str("e"), Err(WriteError));
}

#[test]
fn write_decimal_writes_the_digits() {
    let mut storage = [b' '; 24];
    let mut buf = BytesBuf::from_slice(&mut storage);
    assert_eq!(buf.write_decimal(0), Ok(()));
    assert_eq!(buf.write_str(","), Ok(()));
    assert_eq!(buf.write_decimal(1193180), Ok(()));
    assert_eq!(buf.as_str().trim(), "0,1193180");
}

#[test]
fn write_decimal_of_the_largest_number() {
    let mut storage = [0u8; 20];
    let mut buf = BytesBuf::from_slice(&mut storage);
    assert_eq!(buf.write_decimal(u64::MAX), Ok(()));
    assert_eq!(buf.as_str(), "18446744073709551615");
    let mut small = [0u8; 19];
    let mut buf = BytesBuf::from_slice(&mut small);
    assert_eq!(buf.write_decimal(u64::MAX), Err(WriteError));
    assert_eq!(buf.offset, 0);
}

#[test]
fn decimal_digits_agree_with_the_standard_library() {
    for n in [0u64, 1, 9, 10, 11, 99, 100, 101, 65535, 1 << 32, u64::MAX - 1, u64::MAX] {
        assert_eq!(decimal_digits(n), n.to_string().into_bytes());
    }
}

#[test]
fn hexadecimal_text_agrees_with_the_standard_library() {
    for n in [
        0u64,
        1,
        9,
        10,
        15,
        16,
        255,
        256,
        0xDEAD_BEEF,
        0x00FF_FFFF_FFFF_FFFF,
        0x0100_0000_0000_0000,
        u64::MAX,
    ] {
        let mut plain = String::from(">");
        append_hex(&mut plain, n);
        assert_eq!(plain, format!(">{:0X}", n));

        let mut padded = String::new();
        append_hex_padded(&mut padded, n);
        assert_eq!(padded, format!("{:#016X}", n));

        let mut decimal = String::new();
        append_dec(&mut decimal, n);
        assert_eq!(decimal, format!("{}", n));
    }
}

#[test]
fn padded_hexadecimal_is_sixteen_characters_unless_the_number_is_longer() {
    let mut text = String::new();
    append_hex_padded(&mut text, 0xABC);
    assert_eq!(text, "0x00000000000ABC");
    assert_eq!(text.len(), 16);
    let mut long = String::new();
    append_hex_padded(&mut long, 0x1234_5678_9ABC_DEF0);
    assert_eq!(long, "0x123456789ABCDEF0");
}

#[test]
fn print_writes_to_the_last_line_of_the_screen() {
    let mut screen = Once::new();
    print(&mut screen, "hi\nyou");
    let terminal = screen.call_once(|| panic!("the cell is empty"));
    let guard = terminal.lock();
    let shown = terminal.get(&guard);
    let line = |n: usize| -> Vec<u8> { shown.buffer[n][..3].iter().map(|c| c.0.byte).collect() };
    assert_eq!(line(23), b"hi\0");
    assert_eq!(line(24), b"you");
    assert_eq!(shown.pos, 3);
}

#[test]
fn print_critical_ends_with_interrupts_on() {
    let mut cpu = Cpu::new();
    InterruptDescriptorTable::with_exception_handlers(&[0x1000; 32]).load(&mut cpu, 0x8000);
    let mut screen = Once::new();
    print_critical(&mut cpu, &mut screen, "abc");
    assert!(cpu.interrupts);
    let terminal = screen.call_once(|| panic!("the cell is empty"));
    assert!(!terminal.locked());
    let shown: Vec<u8> = terminal.force().buffer[24][..4].iter().map(|c| c.0.byte).collect();
    assert_eq!(shown, b"abc\0");
}
