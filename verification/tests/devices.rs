use kernel::arch::devices::init;
use kernel::arch::devices::pic::Intel8259;
use kernel::arch::devices::pit::Intel8253;
use kernel::io::{Io, Port, PortOp, Serial, Volatile};
use kernel::sync::{Global, Once, OnceState};

fn setup() -> Vec<PortOp> {
    vec![
        PortOp::Out8(0x21, 0xFF),
        PortOp::Out8(0xA2, 0xFF),
        PortOp::Out8(0x20, 0x11),
        PortOp::Out8(0x21, 0x20),
        PortOp::Out8(0x21, 0x04),
        PortOp::Out8(0x21, 0x03),
        PortOp::Out8(0xA0, 0x11),
        PortOp::Out8(0xA2, 0x28),
        PortOp::Out8(0xA2, 0x02),
        PortOp::Out8(0xA2, 0x03),
        PortOp::Out8(0x20, 0x68),
        PortOp::Out8(0x20, 0x0A),
        PortOp::Out8(0xA0, 0x68),
        PortOp::Out8(0xA0, 0x0A),
    ]
}

#[test]
fn the_controllers_start_masked_but_for_the_cascade() {
    let mut pic = Intel8259::default();
    assert_eq!(pic.mask, 0xFFFB);
    assert_eq!(pic.data1.port, 0x21);
    assert_eq!(pic.data2.port, 0xA2);
    assert_eq!(pic.take_queue(), setup());
    assert!(pic.queue.is_empty());
}

#[test]
fn enable_irq_clears_the_bit_of_the_line() {
    let mut pic = Intel8259::default();
    pic.take_queue();
    pic.enable_irq(0);
    assert_eq!(pic.mask, 0xFFFA);
    assert_eq!(pic.take_queue(), vec![PortOp::Out8(0x21, 0xFA), PortOp::Out8(0xA2, 0xFF)]);
    pic.enable_irq(15);
    assert_eq!(pic.mask, 0x7FFA);
    assert_eq!(pic.take_queue(), vec![PortOp::Out8(0x21, 0xFA), PortOp::Out8(0xA2, 0x7F)]);
    // Enabling an enabled line changes nothing but is said again.
    pic.enable_irq(0);
    assert_eq!(pic.mask, 0x7FFA);
    assert_eq!(pic.queue.len(), 2);
}

#[test]
fn disable_irq_sets_the_bit_of_the_line() {
    let mut pic = Intel8259::default();
    pic.take_queue();
    pic.disable_irq(2);
    assert_eq!(pic.mask, 0xFFFF);
    pic.enable_irq(9);
    assert_eq!(pic.mask, 0xFDFF);
    pic.disable_irq(9);
    assert_eq!(pic.mask, 0xFFFF);
    assert_eq!(pic.queue.len(), 6);
}

#[test]
fn disable_all_masks_every_line() {
    let mut pic = Intel8259::default();
    pic.enable_irq(0);
    pic.enable_irq(1);
    pic.take_queue();
    pic.disable_all();
    assert_eq!(pic.mask, 0xFFFF);
    assert_eq!(pic.take_queue(), vec![PortOp::Out8(0x21, 0xFF), PortOp::Out8(0xA2, 0xFF)]);
}

#[test]
fn set_mask_writes_the_low_byte_first() {
    let mut pic = Intel8259::default();
    pic.take_queue();
    pic.set_mask(0x1234);
    assert_eq!(pic.mask, 0x1234);
    assert_eq!(pic.take_queue(), vec![PortOp::Out8(0x21, 0x34), PortOp::Out8(0xA2, 0x12)]);
}

#[test]
fn the_timer_is_programmed_once() {
    let mut pit = Intel8253::new();
    pit.init(10_000);
    // 1193180 / 10000 = 119 = 0x77
    assert_eq!(
        pit.take_queue(),
        vec![
            PortOp::Out8(0x43, 0x34),
            PortOp::In8(0x43),
            PortOp::Out8(0x40, 0x77),
            PortOp::In8(0x40),
            PortOp::Out8(0x40, 0x00),
        ]
    );
    pit.init(100);
    assert!(pit.queue.is_empty());
    assert_eq!(pit.programmed.current(), OnceState::Finished);
    // A programmed timer is left alone whatever the frequency.
    pit.init(0);
    assert!(pit.queue.is_empty());
}

#[test]
fn the_divisor_of_the_timer_is_sent_in_two_bytes() {
    let mut pit = Intel8253::new();
    pit.init(100);
    // 1193180 / 100 = 11931 = 0x2E9B
    let ops = pit.take_queue();
    assert_eq!(ops[2], PortOp::Out8(0x40, 0x9B));
    assert_eq!(ops[4], PortOp::Out8(0x40, 0x2E));

    // A divisor of more than 16 bits loses what is above them.
    let mut slow = Intel8253::new();
    slow.init(1);
    // 1193180 = 0x1234DC
    let ops = slow.take_queue();
    assert_eq!(ops[2], PortOp::Out8(0x40, 0xDC));
    assert_eq!(ops[4], PortOp::Out8(0x40, 0x34));
}

#[test]
fn init_constructs_the_controller_and_programs_the_timer() {
    let mut controller = Once::new();
    let mut pit = Intel8253::new();
    init(&mut controller, &mut pit);
    assert_eq!(controller.current(), OnceState::Finished);
    let pic = Intel8259::global(&mut controller);
    assert!(pic.try_lock().is_some());
    assert_eq!(pic.force().mask, 0xFFFB);
    assert_eq!(pic.force().take_queue(), setup());
    assert_eq!(pit.queue.len(), 5);
    assert_eq!(pit.queue[2], PortOp::Out8(0x40, 0x77));
}

#[test]
fn init_twice_changes_nothing_the_second_time() {
    let mut controller = Once::new();
    let mut pit = Intel8253::new();
    init(&mut controller, &mut pit);
    Intel8259::global(&mut controller).force().enable_irq(0);
    pit.take_queue();
    init(&mut controller, &mut pit);
    assert_eq!(Intel8259::global(&mut controller).force().mask, 0xFFFA);
    assert!(pit.queue.is_empty());
}

#[test]
fn ports_name_their_accesses() {
    let mut byte: Port<u8> = Port::new(0x60);
    assert_eq!(byte.read(), PortOp::In8(0x60));
    assert_eq!(byte.write(0xAB), PortOp::Out8(0x60, 0xAB));
    let mut word: Port<u16> = Port::new(0x3D4);
    assert_eq!(word.read(), PortOp::In16(0x3D4));
    assert_eq!(word.write(0xABCD), PortOp::Out16(0x3D4, 0xABCD));
    let mut long: Port<u32> = Port::new(0xCF8);
    assert_eq!(long.read(), PortOp::In32(0xCF8));
    assert_eq!(long.write(0x8000_0000), PortOp::Out32(0xCF8, 0x8000_0000));
}

#[test]
fn a_volatile_cell_holds_what_was_written_last() {
    let mut cell = Volatile::new(1u16);
    assert_eq!(cell.read(), 1);
    cell.write(2);
    cell.write(3);
    assert_eq!(cell.read(), 3);
}

#[test]
fn the_serial_line_is_set_up_and_sends_one_byte_for_each_character() {
    let mut serial = Serial::default();
    assert_eq!(serial.input.port, 0x3FD);
    assert_eq!(serial.output.port, 0x3F8);
    assert_eq!(
        serial.take_queue(),
        vec![
            PortOp::Out8(0x3F9, 0x00),
            PortOp::Out8(0x3FB, 0x80),
            PortOp::Out8(0x3F8, 0x03),
            PortOp::Out8(0x3F9, 0x00),
            PortOp::Out8(0x3FB, 0x03),
            PortOp::Out8(0x3FA, 0xC7),
            PortOp::Out8(0x3FC, 0x00),
        ]
    );
    serial.write(b'!');
    serial.write_str("ok\u{E9}\u{20AC}");
    assert_eq!(
        serial.take_queue(),
        vec![
            PortOp::Out8(0x3F8, b'!'),
            PortOp::Out8(0x3F8, b'o'),
            PortOp::Out8(0x3F8, b'k'),
            PortOp::Out8(0x3F8, 0xE9),
            PortOp::Out8(0x3F8, 0xAC),
        ]
    );
}

#[test]
fn the_line_status_says_when_to_read_and_write() {
    assert!(!Serial::can_read(0x00));
    assert!(Serial::can_read(0x01));
    assert!(Serial::can_read(0x61));
    assert!(!Serial::can_read(0x60));
    assert!(!Serial::can_write(0x00));
    assert!(Serial::can_write(0x20));
    assert!(Serial::can_write(0x21));
    assert!(!Serial::can_write(0xDF));
}
