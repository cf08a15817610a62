use kernel::arch::idt::Entry;
use kernel::arch::interrupts::disable;
use kernel::arch::{Cpu, DescriptorTablePtr};
use kernel::io::{PortOp, Serial};
use kernel::memory::physical::{MemoryMap, MemoryMapInfo, RegionType};
use kernel::panic::{panic_report, Location};
use kernel::start::{global_idt, go, start, Kernel};
use kernel::sync::{Mutex, OnceState};
use kernel::term::{Terminal, TextColor};

fn handlers() -> [u64; 32] {
    let mut table = [0u64; 32];
    for (vector, slot) in table.iter_mut().enumerate() {
        *slot = 0x10_0000 + 0x100 * vector as u64;
    }
    table
}

fn text(t: &Terminal, n: usize) -> String {
    t.buffer[n]
        .iter()
        .map(|c| if c.0.byte == 0 { ' ' } else { c.0.byte as char })
        .collect::<String>()
        .trim_end()
        .to_string()
}

#[test]
fn the_kernel_comes_up_in_order() {
    let mut kernel = Kernel::new();
    assert!(!kernel.cpu.interrupts);
    assert_eq!(kernel.cpu.idtr, None);
    assert_eq!(kernel.idt.current(), OnceState::Empty);

    let info = MemoryMapInfo {
        regions: vec![MemoryMap {
            base: 0x10_0000,
            len: 0x2000,
            region_type: RegionType::Usable,
            acpi_attributes: 0,
        }],
        elf_ptr: 0x20_1000,
        elf_len: 0x4000,
    };
    let allocator = start(&mut kernel, &handlers(), 0x77_0000, 0x9000, &info);

    // Interrupts stay off until the kernel is let go.
    assert!(!kernel.cpu.interrupts);
    assert_eq!(kernel.cpu.idtr, Some(DescriptorTablePtr { limit: 4095, base: 0x9000 }));
    assert_eq!(allocator.first_frame.physical_addr, 0x10_0000);
    assert_eq!(allocator.last_frame.physical_addr, 0x10_2000);

    let idt = kernel.idt.call_once(|| panic!("the cell is empty")).force();
    assert_eq!(idt.handler(0x20), Some(0x77_0000));
    assert_eq!(idt.handler(0x00), Some(0x10_0000));
    assert_eq!(idt.handler(0x13), Some(0x10_1300));
    assert_eq!(idt.handler(0x0F), None);
    assert_eq!(idt.handler(0x21), None);
    assert_eq!(idt.entries[0x21], Entry::empty());

    assert_eq!(kernel.controller.current(), OnceState::Finished);
    assert_eq!(kernel.pit.queue.len(), 5);
    assert_eq!(kernel.pit.queue[2], PortOp::Out8(0x40, 0x77));
    assert_eq!(kernel.clock.current(), OnceState::Empty);
    assert_eq!(kernel.serial.current(), OnceState::Empty);

    {
        let screen = kernel.screen.call_once(|| panic!("the cell is empty")).force();
        assert_eq!(text(screen, 20), "kernel pages: level 4: 0");
        assert_eq!(text(screen, 21), "level 3: 0");
        assert_eq!(text(screen, 22), "level 2: 1");
        assert_eq!(text(screen, 23), "level 1: 1");
    }

    go(&mut kernel, 0x18_5000);
    assert!(kernel.cpu.interrupts);
    let screen = kernel.screen.call_once(|| panic!("the cell is empty")).force();
    assert_eq!(text(screen, 22), "cr3 = 0x0x00000000185000");
    assert_eq!(text(screen, 23), "Entering final loop");
    assert_eq!(text(screen, 24), "");
}

#[test]
fn the_table_of_the_kernel_is_constructed_once() {
    let mut kernel = Kernel::new();
    let first = handlers();
    global_idt(&mut kernel.idt, &first).force().register(0x30, 0xAAAA);
    let second = [0u64; 32];
    let idt = global_idt(&mut kernel.idt, &second).force();
    assert_eq!(idt.handler(0x30), Some(0xAAAA));
    assert_eq!(idt.handler(0x01), Some(first[1]));
}

#[test]
fn a_panic_is_reported_with_its_place() {
    let at = Location { file: "src/lib.rs", line: 42, column: 7 };
    assert_eq!(
        panic_report(Some(&at), Some("out of frames")),
        "\nPanic occured at file src/lib.rs 42:7: out of frames"
    );
    assert_eq!(panic_report(Some(&at), None), "\nPanic occured at file src/lib.rs 42:7: ");
    assert_eq!(panic_report(None, Some("oops")), "\nPanic occured at unknown location: oops");
    assert_eq!(panic_report(None, None), "\nPanic occured at unknown location: ");
}

#[test]
fn a_panic_writes_to_both_devices_whoever_holds_them() {
    let mut cpu = Cpu::new();
    cpu.interrupts = true;
    let mut serial = Mutex::new(Serial::default());
    serial.force().take_queue();
    let mut terminal = Mutex::new(Terminal::default());
    // Somebody holds both locks and will never release them.
    let _held_line = serial.lock();
    let _held_screen = terminal.lock();

    let at = Location { file: "a.rs", line: 1, column: 2 };
    let text = kernel::panic::panic(&mut cpu, &mut serial, &mut terminal, Some(&at), Some("stop"));
    assert_eq!(text, "\nPanic occured at file a.rs 1:2: stop");
    assert!(!cpu.interrupts);
    assert!(serial.try_lock().is_none());
    assert!(terminal.try_lock().is_none());

    let sent: Vec<u8> = serial
        .force()
        .take_queue()
        .iter()
        .map(|op| match op {
            PortOp::Out8(0x3F8, byte) => *byte,
            other => panic!("unexpected access {:?}", other),
        })
        .collect();
    assert_eq!(sent, text.as_bytes());

    let screen = terminal.force();
    assert_eq!(screen.color, TextColor(0x4F));
    let shown: Vec<u8> = screen.buffer[24][..34].iter().map(|c| c.0.byte).collect();
    assert_eq!(shown, &text.as_bytes()[1..35]);
    assert!(screen.buffer[24][..34].iter().all(|c| c.0.color == TextColor(0x4F)));
    disable(&mut cpu);
}
