use kernel::arch::idt::{Entry, EntryType, InterruptDescriptorTable};
use kernel::arch::{Cpu, DescriptorTablePtr, PrivilegeLevel};

fn handlers() -> [u64; 32] {
    let mut table = [0u64; 32];
    for (vector, slot) in table.iter_mut().enumerate() {
        *slot = 0xFFFF_8000_0010_0000 + 0x40 * vector as u64;
    }
    table
}

#[test]
fn a_new_type_word_has_only_the_fixed_bits_set() {
    let t = EntryType::new();
    assert_eq!(t.0, 0b0000_1110_0000_0000);
    assert!(!t.present());
    assert_eq!(t.privilege(), PrivilegeLevel::Ring0);
    assert!(!t.interrupt());
}

#[test]
fn set_present_sets_bit_15() {
    let mut t = EntryType::new();
    t.set_present(true);
    assert_eq!(t.0, 0x8E00);
    assert!(t.present());
    t.set_present(false);
    assert_eq!(t.0, 0x0E00);
}

#[test]
fn set_privilege_fills_both_bits_of_the_field() {
    let mut t = EntryType::new();
    t.set_privilege(PrivilegeLevel::Ring3);
    assert_eq!(t.0, 0x6E00);
    t.set_privilege(PrivilegeLevel::Ring2);
    assert_eq!(t.0, 0x4E00);
    t.set_privilege(PrivilegeLevel::Ring1);
    assert_eq!(t.0, 0x2E00);
    t.set_privilege(PrivilegeLevel::Ring0);
    assert_eq!(t.0, 0x0E00);
}

#[test]
fn set_interrupt_sets_bit_8() {
    let mut t = EntryType::new();
    t.set_interrupt(true);
    assert_eq!(t.0, 0x0F00);
    assert!(t.interrupt());
    t.set_interrupt(false);
    assert_eq!(t.0, 0x0E00);
}

#[test]
fn the_fields_of_a_type_word_round_trip_in_every_combination() {
    let levels = [
        PrivilegeLevel::Ring0,
        PrivilegeLevel::Ring1,
        PrivilegeLevel::Ring2,
        PrivilegeLevel::Ring3,
    ];
    for level in levels {
        for present in [false, true] {
            for interrupt in [false, true] {
                let mut t = EntryType::new();
                t.set_privilege(level);
                t.set_present(present);
                t.set_interrupt(interrupt);
                assert_eq!(t.privilege(), level);
                assert_eq!(t.present(), present);
                assert_eq!(t.interrupt(), interrupt);
                // The bits that must be zero are zero, bits 9 to 11 are set.
                assert_eq!(t.0 & 0x10FF, 0);
                assert_eq!(t.0 & 0x0E00, 0x0E00);
            }
        }
    }
}

#[test]
fn setting_one_field_leaves_the_others() {
    let mut t = EntryType::new();
    t.set_privilege(PrivilegeLevel::Ring2);
    t.set_present(true);
    t.set_interrupt(true);
    t.set_privilege(PrivilegeLevel::Ring1);
    assert!(t.present());
    assert!(t.interrupt());
    t.set_present(false);
    assert_eq!(t.privilege(), PrivilegeLevel::Ring1);
    assert!(t.interrupt());
}

#[test]
fn privilege_levels_and_their_numbers() {
    assert_eq!(PrivilegeLevel::Ring0.bits(), 0);
    assert_eq!(PrivilegeLevel::Ring1.bits(), 1);
    assert_eq!(PrivilegeLevel::Ring2.bits(), 2);
    assert_eq!(PrivilegeLevel::Ring3.bits(), 3);
    for n in 0..4u16 {
        assert_eq!(PrivilegeLevel::from_bits(n).bits(), n);
    }
}

#[test]
fn an_empty_entry_is_all_zero() {
    let e = Entry::empty();
    assert_eq!(e.offset_low, 0);
    assert_eq!(e.offset_mid, 0);
    assert_eq!(e.offset_high, 0);
    assert_eq!(e.segment_selector, 0);
    assert_eq!(e.reserved, 0);
    assert_eq!(e.ty, EntryType(0));
    assert!(!e.ty.present());
    assert_eq!(e.handler_address(), 0);
    assert_eq!(e.to_bytes(), [0u8; 16]);
}

#[test]
fn set_handler_makes_an_empty_entry_a_present_interrupt_gate() {
    let mut e = Entry::empty();
    e.set_handler(0x40_1000);
    assert_eq!(e.ty.0, 0x8E00);
    assert!(e.ty.present());
    assert_eq!(e.ty.privilege(), PrivilegeLevel::Ring0);
    assert!(!e.ty.interrupt());
    // Pointing the descriptor elsewhere changes the address only.
    e.set_handler(0x50_2000);
    assert_eq!(e.ty.0, 0x8E00);
    assert_eq!(e.handler_address(), 0x50_2000);
}

#[test]
fn set_gate_sets_the_three_type_bits_and_no_other() {
    let mut t = EntryType(0);
    t.set_gate();
    assert_eq!(t.0, 0x0E00);
    assert_eq!(t, EntryType::new());
    let mut u = EntryType(0xE100);
    u.set_gate();
    assert_eq!(u.0, 0xEF00);
    u.set_gate();
    assert_eq!(u.0, 0xEF00);
}

#[test]
fn set_handler_splits_the_address_over_three_fields() {
    let mut e = Entry::empty();
    e.set_handler(0x1234_5678_9ABC_DEF0);
    assert_eq!(e.offset_low, 0xDEF0);
    assert_eq!(e.offset_mid, 0x9ABC);
    assert_eq!(e.offset_high, 0x1234_5678);
    assert_eq!(e.segment_selector, 0x18);
    assert!(e.ty.present());
    assert_eq!(e.ty.0, 0x8E00);
    assert_eq!(e.reserved, 0);
    assert_eq!(e.handler_address(), 0x1234_5678_9ABC_DEF0);
}

#[test]
fn set_handler_keeps_privilege_and_type() {
    let mut e = Entry::empty();
    e.ty.set_privilege(PrivilegeLevel::Ring3);
    e.ty.set_interrupt(true);
    e.set_handler(0x0000_0000_0040_1000);
    assert_eq!(e.ty.privilege(), PrivilegeLevel::Ring3);
    assert!(e.ty.interrupt());
    assert!(e.ty.present());
}

#[test]
fn a_new_table_has_256_absent_entries() {
    let idt = InterruptDescriptorTable::new();
    assert_eq!(idt.entries.len(), 256);
    for vector in 0..=255u8 {
        assert_eq!(idt.entries[vector as usize], Entry::empty());
        assert_eq!(idt.handler(vector), None);
    }
}

#[test]
fn register_installs_a_present_ring_0_interrupt_gate() {
    let mut idt = InterruptDescriptorTable::new();
    idt.register(0x20, 0xFFFF_8000_0012_3450);
    let gate = idt.entries[0x20];
    assert!(gate.ty.present());
    assert_eq!(gate.ty.privilege(), PrivilegeLevel::Ring0);
    assert!(!gate.ty.interrupt());
    assert_eq!(gate.ty.0, 0x8E00);
    assert_eq!(gate.segment_selector, 0x18);
    assert_eq!(idt.handler(0x20), Some(0xFFFF_8000_0012_3450));
    // No other vector is touched.
    for vector in 0..=255u8 {
        if vector != 0x20 {
            assert_eq!(idt.entries[vector as usize], Entry::empty());
        }
    }
}

#[test]
fn registering_a_vector_again_overwrites_it() {
    let mut idt = InterruptDescriptorTable::new();
    idt.register(0x21, 0x1000);
    idt.entry(0x21).ty.set_privilege(PrivilegeLevel::Ring3);
    idt.register(0x21, 0x2000);
    assert_eq!(idt.handler(0x21), Some(0x2000));
    assert_eq!(idt.entries[0x21].ty.privilege(), PrivilegeLevel::Ring0);
}

#[test]
fn a_registered_address_appears_in_the_three_address_fields_after_load() {
    let addresses = [
        0u64,
        1,
        0xFFFF,
        0x1_0000,
        0xFFFF_FFFF,
        0x1_0000_0000,
        0xFFFF_8000_0010_0abc,
        u64::MAX,
    ];
    for (i, addr) in addresses.iter().enumerate() {
        let vector = 0x20 + i as u8;
        let mut cpu = Cpu::new();
        let mut idt = InterruptDescriptorTable::with_exception_handlers(&handlers());
        idt.register(vector, *addr);
        idt.load(&mut cpu, 0x7000);
        let gate = idt.entries[vector as usize];
        assert_eq!(gate.offset_low as u64, addr & 0xFFFF);
        assert_eq!(gate.offset_mid as u64, (addr >> 16) & 0xFFFF);
        assert_eq!(gate.offset_high as u64, addr >> 32);
        assert_eq!(cpu.idtr, Some(DescriptorTablePtr { limit: 4095, base: 0x7000 }));
    }
}

#[test]
fn registration_after_load_shows_in_the_same_table() {
    let mut cpu = Cpu::new();
    let mut idt = InterruptDescriptorTable::with_exception_handlers(&handlers());
    idt.load(&mut cpu, 0x7000);
    let loaded = cpu.idtr;
    idt.register(0x20, 0xABCD_0000);
    assert_eq!(idt.handler(0x20), Some(0xABCD_0000));
    assert_eq!(cpu.idtr, loaded);
}

#[test]
fn the_table_pointer_covers_all_256_entries() {
    let idt = InterruptDescriptorTable::new();
    let ptr = idt.pointer(0xDEAD_0000);
    assert_eq!(ptr.base, 0xDEAD_0000);
    assert_eq!(ptr.limit as usize, 256 * 16 - 1);
}

#[test]
fn the_exception_handlers_are_installed_at_their_vectors() {
    let table = handlers();
    let idt = InterruptDescriptorTable::with_exception_handlers(&table);
    for vector in 0..=255u8 {
        let registered = vector <= 0x0E || (0x10..=0x13).contains(&vector);
        if registered {
            assert_eq!(idt.handler(vector), Some(table[vector as usize]));
        } else {
            assert_eq!(idt.handler(vector), None);
            assert_eq!(idt.entries[vector as usize], Entry::empty());
        }
    }
}

#[test]
fn entry_hands_out_the_descriptor_in_place() {
    let mut idt = InterruptDescriptorTable::new();
    idt.entry(3).set_handler(0x4000);
    assert_eq!(idt.handler(3), Some(0x4000));
    idt.entry(255).set_handler(0x5000);
    assert_eq!(idt.handler(255), Some(0x5000));
}

#[test]
fn a_descriptor_as_the_processor_reads_it() {
    let mut e = Entry::empty();
    e.set_handler(0x1122_3344_5566_7788);
    assert_eq!(
        e.to_bytes(),
        [
            0x88, 0x77, // the low 16 bits of the address
            0x18, 0x00, // the code segment
            0x00, 0x8E, // the type word: present, ring 0, interrupt gate
            0x66, 0x55, // the middle 16 bits of the address
            0x44, 0x33, 0x22, 0x11, // the high 32 bits of the address
            0x00, 0x00, 0x00, 0x00, // reserved
        ]
    );
    assert_eq!(Entry::from_bytes(&e.to_bytes()), e);
    assert_eq!(Entry::empty().to_bytes(), [0u8; 16]);

    let raw = [1u8, 2, 3, 4, 5, 6, 7, 8, 9, 10, 11, 12, 13, 14, 15, 16];
    let read = Entry::from_bytes(&raw);
    assert_eq!(read.offset_low, 0x0201);
    assert_eq!(read.segment_selector, 0x0403);
    assert_eq!(read.ty.0, 0x0605);
    assert_eq!(read.offset_mid, 0x0807);
    assert_eq!(read.offset_high, 0x0C0B_0A09);
    assert_eq!(read.reserved, 0x100F_0E0D);
    assert_eq!(read.to_bytes(), raw);
}

#[test]
fn the_table_pointer_as_the_processor_reads_it() {
    let ptr = DescriptorTablePtr { limit: 0x0FFF, base: 0x1122_3344_5566_7788 };
    assert_eq!(ptr.to_bytes(), [0xFF, 0x0F, 0x88, 0x77, 0x66, 0x55, 0x44, 0x33, 0x22, 0x11]);
}
