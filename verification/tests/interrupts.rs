use kernel::arch::exceptions::{fault_report, page_fault_report, Exception, FaultPolicy};
use kernel::arch::interrupts::{
    deliver, disable, enable, interrupt, interrupt_error, iretq, pop_fs, pop_preserved,
    pop_scratch, push_fs, push_preserved, push_scratch, raise, HardwareFrame,
    InterruptErrorStack, InterruptStack, Preserved, Registers, Scratch,
};
use kernel::memory::physical::MemoryMapInfo;
use kernel::start::{go, start, Kernel, TIMER_VECTOR};
use kernel::sync::{Mutex, Once};
use kernel::timer::timer;

/// Read the singleton in `cell` under its lock.
fn locked<T, R>(cell: &mut Once<Mutex<T>>, read: impl FnOnce(&T) -> R) -> R {
    let mutex = cell.call_once(|| panic!("the cell is empty"));
    let guard = mutex.lock();
    let r = read(mutex.get(&guard));
    mutex.unlock(guard);
    r
}

const CANARY: u64 = 0xC0FF_EE00_DEAD_BEEF;

fn registers() -> Registers {
    Registers {
        rax: 0x0A,
        rbx: 0x0B,
        rcx: 0x0C,
        rdx: 0x0D,
        rsi: 0x51,
        rdi: 0xD1,
        rbp: 0xB9,
        r8: 8,
        r9: 9,
        r10: 10,
        r11: 11,
        r12: CANARY,
        r13: 13,
        r14: 14,
        r15: 15,
        fs: 0x10,
    }
}

fn place(n: u64) -> HardwareFrame {
    HardwareFrame { rip: 0x40_0000 + 4 * n, cs: 0x18, rflags: 0x0202, rsp: 0x7FFF_F000, ss: 0x10 }
}

fn handlers() -> [u64; 32] {
    let mut table = [0u64; 32];
    for (vector, slot) in table.iter_mut().enumerate() {
        *slot = 0x10_0000 + 0x100 * vector as u64;
    }
    table
}

fn preserved_text(p: &Preserved) -> String {
    format!(
        "rbx: {:#016X} rbp: {:#016X}\nr12: {:#016X} r13: {:#016X}\nr14: {:#016X} r15: {:#016X}\n",
        p.rbx, p.rbp, p.r12, p.r13, p.r14, p.r15
    )
}

#[test]
fn timer_ticks_are_counted_and_the_foreground_resumes_unchanged() {
    const TIMER_HANDLER: u64 = 0x20_0000;
    const TICKS: u64 = 64;

    let mut kernel = Kernel::new();
    let info = MemoryMapInfo { regions: Vec::new(), elf_ptr: 0x10_0000, elf_len: 0 };
    start(&mut kernel, &handlers(), TIMER_HANDLER, 0x9000, &info);
    go(&mut kernel, 0x1000);
    assert!(kernel.cpu.interrupts);

    let mut regs = registers();
    let mut stack: Vec<u64> = Vec::new();
    let mut served = 0u64;
    for n in 0..TICKS {
        // The foreground checks its canary before the interrupt.
        assert_eq!(regs.r12, CANARY);
        let before = regs;
        let at = place(n);

        // The processor finds the handler of the timer in its table.
        assert!(kernel.cpu.interrupts);
        let gate = locked(&mut kernel.idt, |idt| idt.handler(TIMER_VECTOR));
        assert_eq!(gate, Some(TIMER_HANDLER));

        raise(&mut kernel.cpu, &mut stack, at, None);
        assert!(!kernel.cpu.interrupts);
        let clock = &mut kernel.clock;
        let screen = &mut kernel.screen;
        interrupt(&mut regs, &mut stack, |frame| {
            timer(clock, screen);
            served += 1;
            frame
        });
        let resumed = iretq(&mut kernel.cpu, &mut stack);

        // Execution resumes where it was interrupted, with every register
        // as it was and interrupts on again.
        assert_eq!(resumed, at);
        assert_eq!(regs, before);
        assert_eq!(regs.r12, CANARY);
        assert!(stack.is_empty());
        assert!(kernel.cpu.interrupts);
    }
    assert_eq!(served, TICKS);
    assert_eq!(locked(&mut kernel.clock, |counter| counter.count()) as u64, TICKS);
}

#[test]
fn the_default_handler_reports_name_and_instruction_pointer() {
    let mut regs = registers();
    let mut stack: Vec<u64> = Vec::new();
    let mut cpu = kernel::arch::Cpu::new();
    let idt = kernel::arch::idt::InterruptDescriptorTable::with_exception_handlers(&handlers());
    idt.load(&mut cpu, 0x9000);
    enable(&mut cpu);

    let at = HardwareFrame {
        rip: 0xFFFF_8000_0012_3456,
        cs: 0x18,
        rflags: 0x0246,
        rsp: 0x7FFF_F000,
        ss: 0x10,
    };
    // Vector 6 carries no handler of its own: the default handler of the
    // exception serves it.
    let exception = Exception::from_vector(6).unwrap();
    assert_eq!(exception, Exception::InvalidOpcode);
    assert!(!exception.has_error_code());

    raise(&mut cpu, &mut stack, at, None);
    let mut report = None;
    interrupt(&mut regs, &mut stack, |frame| {
        let outcome = exception.handle(&frame, FaultPolicy::Halt);
        assert!(outcome.halt);
        report = outcome.report;
        frame
    });
    let text = report.unwrap();
    assert!(text.contains("invalid_opcode"));
    assert!(text.contains("FFFF800000123456"));
    assert!(text.starts_with("CPU fault: invalid_opcode\n"));
    assert_eq!(
        text,
        format!(
            "CPU fault: {}\nerror occurred at {:0X}:0x{:#016X} with flags {:#016X}!\n{}\n",
            "invalid_opcode",
            0x18,
            0xFFFF_8000_0012_3456u64,
            0x0246,
            preserved_text(&Preserved {
                r15: 15,
                r14: 14,
                r13: 13,
                r12: CANARY,
                rbp: 0xB9,
                rbx: 0x0B
            })
        )
    );
}

#[test]
fn the_frame_lists_its_fields_in_the_order_of_the_words_on_the_stack() {
    let mut regs = registers();
    let before = regs;
    let at = place(0);
    let mut stack = vec![0x5EED];
    stack.extend([at.ss, at.rsp, at.rflags, at.cs, at.rip]);

    push_preserved(&regs, &mut stack);
    push_scratch(&regs, &mut stack);
    push_fs(&mut regs, &mut stack);
    assert_eq!(regs.fs, 0x20);
    assert_eq!(regs.rax, 0x20);
    assert_eq!(
        stack,
        vec![
            0x5EED, at.ss, at.rsp, at.rflags, at.cs, at.rip, before.rbx, before.rbp, before.r12,
            before.r13, before.r14, before.r15, before.rax, before.rcx, before.rdx, before.rdi,
            before.rsi, before.r8, before.r9, before.r10, before.r11, before.fs
        ]
    );

    let frame = InterruptStack::read(&stack);
    assert_eq!(frame.fs, before.fs);
    assert_eq!(
        frame.scratch,
        Scratch {
            r11: before.r11,
            r10: before.r10,
            r9: before.r9,
            r8: before.r8,
            rsi: before.rsi,
            rdi: before.rdi,
            rdx: before.rdx,
            rcx: before.rcx,
            rax: before.rax
        }
    );
    assert!(
        frame.preserved
            == Preserved {
                r15: before.r15,
                r14: before.r14,
                r13: before.r13,
                r12: before.r12,
                rbp: before.rbp,
                rbx: before.rbx
            }
    );
    assert_eq!(
        (frame.rip, frame.cs, frame.rflags, frame.rsp, frame.ss),
        (at.rip, at.cs, at.rflags, at.rsp, at.ss)
    );

    pop_fs(&mut regs, &mut stack);
    pop_scratch(&mut regs, &mut stack);
    pop_preserved(&mut regs, &mut stack);
    assert_eq!(regs, before);
    assert_eq!(stack, vec![0x5EED, at.ss, at.rsp, at.rflags, at.cs, at.rip]);
}

#[test]
fn a_handler_can_change_what_is_restored() {
    let mut regs = registers();
    let at = place(3);
    let mut stack = vec![at.ss, at.rsp, at.rflags, at.cs, at.rip];
    let left = interrupt(&mut regs, &mut stack, |mut frame| {
        frame.scratch.rax = 0x1234;
        frame.preserved.r15 = 0x5678;
        frame.rip += 2;
        frame
    });
    assert_eq!(left.rip, at.rip + 2);
    assert_eq!(regs.rax, 0x1234);
    assert_eq!(regs.r15, 0x5678);
    assert_eq!(regs.r12, CANARY);
    assert_eq!(stack, vec![at.ss, at.rsp, at.rflags, at.cs, at.rip + 2]);
}

#[test]
fn the_error_code_lies_between_registers_and_return_address() {
    let mut regs = registers();
    let before = regs;
    let at = place(1);
    let mut cpu = kernel::arch::Cpu::new();
    let idt = kernel::arch::idt::InterruptDescriptorTable::with_exception_handlers(&handlers());
    idt.load(&mut cpu, 0x9000);
    let mut stack = Vec::new();
    raise(&mut cpu, &mut stack, at, Some(0xE7707));
    assert_eq!(stack.len(), 6);

    let mut seen = None;
    interrupt_error(&mut regs, &mut stack, |frame| {
        seen = Some(frame);
        frame
    });
    let frame = seen.unwrap();
    assert_eq!(frame.error_code, 0xE7707);
    assert_eq!(frame.rip, at.rip);
    assert_eq!(frame.fs, before.fs);
    assert_eq!(frame.scratch.rax, before.rax);
    assert!(frame.preserved.rbx == before.rbx);
    // The error code is gone when the processor returns.
    assert_eq!(stack.len(), 5);
    assert_eq!(regs, before);
    let resumed = iretq(&mut cpu, &mut stack);
    assert_eq!(resumed.rip, at.rip);
    assert!(stack.is_empty());
}

#[test]
fn raise_records_the_interrupt_flag_and_clears_it() {
    let mut cpu = kernel::arch::Cpu::new();
    let idt = kernel::arch::idt::InterruptDescriptorTable::with_exception_handlers(&handlers());
    idt.load(&mut cpu, 0x9000);
    enable(&mut cpu);
    let mut stack = Vec::new();
    let at = HardwareFrame { rip: 1, cs: 2, rflags: 0, rsp: 4, ss: 5 };
    raise(&mut cpu, &mut stack, at, None);
    assert!(!cpu.interrupts);
    assert_eq!(stack, vec![5, 4, 0x200, 2, 1]);
    let resumed = iretq(&mut cpu, &mut stack);
    assert!(cpu.interrupts);
    assert_eq!(resumed, HardwareFrame { rflags: 0x200, ..at });

    // With interrupts off, the recorded flag is clear, and stays so.
    disable(&mut cpu);
    let at = HardwareFrame { rip: 1, cs: 2, rflags: 0xFFFF, rsp: 4, ss: 5 };
    raise(&mut cpu, &mut stack, at, None);
    assert_eq!(stack, vec![5, 4, 0xFDFF, 2, 1]);
    iretq(&mut cpu, &mut stack);
    assert!(!cpu.interrupts);
}

#[test]
fn the_frames_as_text() {
    let preserved = Preserved { r15: 15, r14: 14, r13: 13, r12: 12, rbp: 0xB9, rbx: 0x0B };
    assert_eq!(preserved.describe(), preserved_text(&preserved));
    assert_eq!(
        preserved.describe(),
        "rbx: 0x0000000000000B rbp: 0x000000000000B9\nr12: 0x0000000000000C r13: 0x0000000000000D\nr14: 0x0000000000000E r15: 0x0000000000000F\n"
    );
    let scratch =
        Scratch { r11: 0, r10: 0, r9: 0, r8: 0, rsi: 0, rdi: 0, rdx: 0, rcx: 0, rax: 0 };
    let plain = InterruptStack {
        fs: 0,
        scratch,
        preserved,
        rip: 0xABCDEF,
        cs: 0x18,
        rflags: 0x202,
        rsp: 0x1000,
        ss: 0x10,
    };
    assert_eq!(
        plain.describe(),
        format!(
            "error occurred at {:0X}:0x{:#016X} with flags {:#016X}!\n{}",
            0x18,
            0xABCDEF,
            0x202,
            preserved_text(&preserved)
        )
    );
    let with_code = InterruptErrorStack {
        fs: 0,
        scratch,
        preserved,
        error_code: 0x1F,
        rip: u64::MAX,
        cs: 0x18,
        rflags: 0,
        rsp: 0x7FFF_FFFF_FFFF,
        ss: 0x10,
    };
    assert_eq!(
        with_code.describe(),
        format!(
            "error {:0X} occurred at {:0X}:0x{:#016X} with flags {:#016X}!\n{}\nrsp {:0X}:{:#016X}",
            0x1F,
            0x18,
            u64::MAX,
            0,
            preserved_text(&preserved),
            0x10,
            0x7FFF_FFFF_FFFFu64
        )
    );
}

#[test]
fn each_exception_has_its_vector_name_and_frame_shape() {
    let with_code = [8u8, 10, 11, 12, 13, 14, 17, 30];
    let names = [
        (0u8, "divide_by_zero"),
        (1, "debug"),
        (2, "nonmaskable"),
        (3, "breakpoint"),
        (4, "overflow"),
        (5, "bound_range"),
        (6, "invalid_opcode"),
        (7, "device_not_available"),
        (8, "double_fault"),
        (9, "coprocessor_segment"),
        (10, "invalid_tss"),
        (11, "segment_not_present"),
        (12, "stack_segment"),
        (13, "protection"),
        (14, "page"),
        (16, "fpu"),
        (17, "alignment_check"),
        (18, "machine_check"),
        (19, "simd"),
        (20, "virtualization"),
        (30, "security"),
    ];
    for (vector, name) in names {
        let e = Exception::from_vector(vector).unwrap();
        assert_eq!(e.vector(), vector);
        assert_eq!(e.name(), name);
        assert_eq!(e.has_error_code(), with_code.contains(&vector));
    }
    for vector in 0..=255u8 {
        if !names.iter().any(|(v, _)| *v == vector) {
            assert_eq!(Exception::from_vector(vector), None);
        }
    }
}

#[test]
fn faults_with_error_code_are_reported_by_kind() {
    let preserved = Preserved { r15: 0, r14: 0, r13: 0, r12: 0, rbp: 0, rbx: 0 };
    let scratch =
        Scratch { r11: 0, r10: 0, r9: 0, r8: 0, rsi: 0, rdi: 0, rdx: 0, rcx: 0, rax: 0 };
    let frame = InterruptErrorStack {
        fs: 0,
        scratch,
        preserved,
        error_code: 2,
        rip: 0x1000,
        cs: 0x18,
        rflags: 0x2,
        rsp: 0x2000,
        ss: 0x10,
    };
    let double = Exception::DoubleFault.handle_error(&frame, 0, FaultPolicy::Halt);
    assert_eq!(double.report, None);
    assert!(double.halt);
    // A double fault stops the processor under either policy.
    let double = Exception::DoubleFault.handle_error(&frame, 0, FaultPolicy::Resume);
    assert_eq!(double.report, None);
    assert!(double.halt);

    let page = Exception::Page.handle_error(&frame, 0xDEAD_B000, FaultPolicy::Resume);
    assert_eq!(page.report.unwrap(), format!("Page fault! {}\n", 0xDEAD_B000u64));
    assert!(!page.halt);
    assert_eq!(page_fault_report(0), "Page fault! 0\n");

    let protection = Exception::Protection.handle_error(&frame, 0, FaultPolicy::Resume);
    assert_eq!(
        protection.report.unwrap(),
        format!("CPU fault: protection\n{}\n", frame.describe())
    );
    assert!(!protection.halt);
    assert_eq!(fault_report("x", "y"), "CPU fault: x\ny\n");
}

#[test]
fn a_fault_without_error_code_follows_the_policy() {
    let preserved = Preserved { r15: 0, r14: 0, r13: 0, r12: 0, rbp: 0, rbx: 0 };
    let scratch =
        Scratch { r11: 0, r10: 0, r9: 0, r8: 0, rsi: 0, rdi: 0, rdx: 0, rcx: 0, rax: 0 };
    let frame = InterruptStack {
        fs: 0,
        scratch,
        preserved,
        rip: 0x1000,
        cs: 0x18,
        rflags: 0x2,
        rsp: 0x2000,
        ss: 0x10,
    };
    assert!(Exception::Breakpoint.handle(&frame, FaultPolicy::Halt).halt);
    let resumed = Exception::Breakpoint.handle(&frame, FaultPolicy::Resume);
    assert!(!resumed.halt);
    assert_eq!(resumed.report.unwrap(), format!("CPU fault: breakpoint\n{}\n", frame.describe()));
}

#[test]
fn deliver_runs_the_handler_with_interrupts_off_and_returns() {
    let mut cpu = kernel::arch::Cpu::new();
    let idt = kernel::arch::idt::InterruptDescriptorTable::with_exception_handlers(&handlers());
    idt.load(&mut cpu, 0x9000);
    enable(&mut cpu);
    let mut regs = registers();
    let before = regs;
    let mut stack = vec![1, 2, 3];
    let at = place(7);

    let mut calls = 0;
    let left = deliver(&mut cpu, &mut regs, &mut stack, at, |frame| {
        calls += 1;
        // The handler sees the registers of the interrupted code, the
        // place of the interruption, and the interrupt flag as recorded.
        assert_eq!(frame.preserved.r12, CANARY);
        assert_eq!(frame.scratch.rax, 0x0A);
        assert_eq!(frame.rip, at.rip);
        assert_eq!(frame.rflags & 0x200, 0x200);
        frame
    });
    assert_eq!(calls, 1);
    assert_eq!(left.rip, at.rip);
    assert_eq!(regs, before);
    assert_eq!(stack, vec![1, 2, 3]);
    assert!(cpu.interrupts);

    // A handler that clears the recorded flag returns with interrupts off.
    deliver(&mut cpu, &mut regs, &mut stack, at, |mut frame| {
        frame.rflags &= !0x200;
        frame
    });
    assert!(!cpu.interrupts);
    assert_eq!(regs, before);
}

#[test]
fn a_frame_and_its_words_from_the_stack_pointer_upwards() {
    let words: [u64; 21] = core::array::from_fn(|i| 100 + i as u64);
    let frame = InterruptStack::from_words(&words);
    assert_eq!(frame.fs, 100);
    assert_eq!(frame.scratch.r11, 101);
    assert_eq!(frame.scratch.rax, 109);
    assert!(frame.preserved.r15 == 110 && frame.preserved.rbx == 115);
    assert_eq!((frame.rip, frame.cs, frame.rflags, frame.rsp, frame.ss), (116, 117, 118, 119, 120));
    assert_eq!(frame.to_words(), words);

    // The words from the stack pointer upwards are the pushed words in
    // reverse.
    let mut pushed = words.to_vec();
    pushed.reverse();
    assert!(InterruptStack::read(&pushed) == frame);

    let words: [u64; 22] = core::array::from_fn(|i| 200 + i as u64);
    let frame = InterruptErrorStack::from_words(&words);
    assert_eq!(frame.fs, 200);
    assert!(frame.preserved.rbx == 215);
    assert_eq!(frame.error_code, 216);
    assert_eq!((frame.rip, frame.ss), (217, 221));
    assert_eq!(frame.to_words(), words);
    let mut pushed = words.to_vec();
    pushed.reverse();
    assert!(InterruptErrorStack::read(&pushed) == frame);
}
