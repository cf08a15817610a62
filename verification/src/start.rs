//! The singletons of the kernel and the order in which it brings them up.

use crate::arch::devices::pic::Intel8259;
use crate::arch::devices::pit::{timer_setup, Intel8253};
use crate::arch::devices::{init, TICK_FREQUENCY};
use crate::arch::idt::{
    is_exception_vector, Entry, InterruptDescriptorTable, TABLE_ALIGNMENT,
};
use crate::arch::interrupts::{disable, enable};
use crate::arch::Cpu;
use crate::io::Serial;
use crate::memory::physical::allocator::{allocator_over, BumpAllocator};
use crate::memory::physical::{MemoryMapInfo, RegionType};
use crate::paging::TableIndices;
use crate::prelude::text::{append_hex_padded, hex_padded};
use crate::prelude::{print, print_critical};
use crate::sync::{Global, Mutex, Once, OnceState};
use crate::term::{Terminal, TerminalState};
use crate::timer::Timer;
use vstd::prelude::*;
use vstd::string::StringSliceAdditionalSpecFns;
use vstd::utf8::encode_utf8;

verus! {

/// The vector of the timer interrupt.
pub const TIMER_VECTOR: u8 = 0x20;

/// The state of the processor and every singleton of the kernel, each in
/// the cell that holds it once it has been asked for.
pub struct Kernel {
    pub cpu: Cpu,
    pub idt: Once<Mutex<InterruptDescriptorTable>>,
    pub controller: Once<Mutex<Intel8259>>,
    pub pit: Intel8253,
    pub clock: Once<Mutex<Timer>>,
    pub screen: Once<Mutex<Terminal>>,
    pub serial: Once<Mutex<Serial>>,
}

impl Kernel {
    /// Nothing has been constructed.
    pub open spec fn fresh(self) -> bool {
        &&& self.idt.state() == OnceState::Empty && self.idt.wf()
        &&& self.controller.state() == OnceState::Empty && self.controller.wf()
        &&& self.pit.wf() && self.pit.programmed.state() == OnceState::Empty
        &&& self.pit.queue@.len() == 0
        &&& self.clock.state() == OnceState::Empty && self.clock.wf()
        &&& self.screen.state() == OnceState::Empty && self.screen.wf()
        &&& self.serial.state() == OnceState::Empty && self.serial.wf()
    }

    /// The kernel as the boot loader starts it: interrupts off, no
    /// descriptor table loaded, no singleton constructed.
    pub fn new() -> (kernel: Kernel)
        ensures
            kernel.fresh(),
            !kernel.cpu.interrupts,
            kernel.cpu.idtr.is_none(),
    {
        Kernel {
            cpu: Cpu::new(),
            idt: Once::new(),
            controller: Once::new(),
            pit: Intel8253::new(),
            clock: Once::new(),
            screen: Once::new(),
            serial: Once::new(),
        }
    }
}

/// The table of the kernel, constructed with the exception handlers at
/// `handlers` if nobody has asked for it yet.
pub fn global_idt<'a>(
    cell: &'a mut Once<Mutex<InterruptDescriptorTable>>,
    handlers: &[u64; 32],
) -> (instance: &'a mut Mutex<InterruptDescriptorTable>)
    requires
        old(cell).wf(),
        old(cell).state() != OnceState::Running,
    ensures
        old(cell).state() == OnceState::Finished ==> Some(*instance) == old(cell).value(),
        old(cell).state() == OnceState::Empty ==> !instance.is_locked()
            && instance.data().exceptions_registered() && instance.data().wf()
            && is_exception_table(instance.data()@, handlers@),
        final(cell).state() == OnceState::Finished,
        final(cell).value() == Some(*final(instance)),
{
    let construct = || -> (m: Mutex<InterruptDescriptorTable>)
        ensures
            !m.is_locked(),
            m.data().exceptions_registered(),
            m.data().wf(),
            is_exception_table(m.data()@, handlers@),
        {
            let table = InterruptDescriptorTable::with_exception_handlers(handlers);
            Mutex::new(table)
        };
    cell.call_once(construct)
}

/// Whether `table` holds the handlers at `handlers` for the exception
/// vectors and nothing else.
pub open spec fn is_exception_table(table: Seq<Entry>, handlers: Seq<u64>) -> bool {
    forall|v: int|
        0 <= v < 256 ==> #[trigger] table[v] == if is_exception_vector(v) {
            Entry::gate(handlers[v])
        } else {
            Entry::absent()
        }
}

/// The text that reports the page table indices of the kernel image.
pub open spec fn pages_text(info: MemoryMapInfo) -> Seq<char> {
    "kernel pages: "@ + TableIndices::of(info.elf_ptr as u64).text() + "\n"@
}

/// The text that reports the root of the page tables.
pub open spec fn root_text(cr3: u64) -> Seq<char> {
    "cr3 = 0x"@ + hex_padded(cr3 as nat) + "\n"@
}

/// Bring the kernel up, short of accepting interrupts.
///
/// The order is the one on which the singletons depend. Interrupts are
/// switched off first. The interrupt controller and the timer come next:
/// they raise no interrupt that the processor would accept by then. The
/// descriptor table is constructed with the handlers of the exceptions,
/// loaded, and given the handler of the timer in place. Only then is the
/// screen used, which handlers write to as well. The allocator over the
/// memory map is returned.
pub fn start(
    kernel: &mut Kernel,
    handlers: &[u64; 32],
    timer_handler: u64,
    idt_base: usize,
    info: &MemoryMapInfo,
) -> (allocator: BumpAllocator)
    requires
        old(kernel).fresh(),
        old(kernel).cpu.idtr.is_none(),
        idt_base % TABLE_ALIGNMENT == 0,
        forall|i: int|
            0 <= i < info.regions@.len() && info.regions@[i].region_type == RegionType::Usable
                ==> info.regions@[i].base + info.regions@[i].len <= usize::MAX,
    ensures
        !final(kernel).cpu.interrupts,
        final(kernel).cpu.idtr == Some(InterruptDescriptorTable::pointer_at(idt_base)),
        final(kernel).idt.value() matches Some(idt) && !idt.is_locked() && idt.data()@
            == Seq::new(
            256,
            |v: int|
                if v == TIMER_VECTOR {
                    Entry::gate(timer_handler)
                } else if is_exception_vector(v) {
                    Entry::gate(handlers@[v])
                } else {
                    Entry::absent()
                },
        ),
        final(kernel).controller.value() matches Some(pic) && !pic.is_locked()
            && Intel8259::initial(pic.data()),
        final(kernel).pit.queue@ == timer_setup(TICK_FREQUENCY),
        final(kernel).pit.programmed == old(kernel).pit.programmed.filled(()),
        final(kernel).screen.state() == OnceState::Finished,
        final(kernel).screen.wf(),
        final(kernel).screen.value() matches Some(terminal) && !terminal.is_locked()
            && terminal.data().wf() && terminal.data()@ == TerminalState::blank().put_bytes(
            encode_utf8(pages_text(*info)),
        ),
        final(kernel).idt.state() == OnceState::Finished,
        final(kernel).idt.wf(),
        final(kernel).controller.state() == OnceState::Finished,
        final(kernel).controller.wf(),
        final(kernel).pit.wf(),
        final(kernel).clock == old(kernel).clock,
        final(kernel).serial == old(kernel).serial,
        (allocator.first_frame, allocator.last_frame, allocator.next_frame) == allocator_over(
            info.regions@,
            info.regions@.len() as int,
        ),
{
    disable(&mut kernel.cpu);
    init(&mut kernel.controller, &mut kernel.pit);

    {
        let idt = global_idt(&mut kernel.idt, handlers);
        let mut guard = idt.lock();
        idt.get(&guard).load(&mut kernel.cpu, idt_base);
        idt.get_mut(&mut guard).register(TIMER_VECTOR, timer_handler);
        idt.unlock(guard);
        proof {
            assert(idt.data()@ =~= Seq::new(
                256,
                |v: int|
                    if v == TIMER_VECTOR {
                        Entry::gate(timer_handler)
                    } else if is_exception_vector(v) {
                        Entry::gate(handlers@[v])
                    } else {
                        Entry::absent()
                    },
            ));
        }
    }

    let mut text = String::new();
    text.append("kernel pages: ");
    let pages = TableIndices::from_virt(info.elf_ptr as u64).describe();
    text.append(pages.as_str());
    text.append("\n");
    assert(text@ =~= pages_text(*info));
    print(&mut kernel.screen, text.as_str());

    BumpAllocator::new(info)
}

/// Let the kernel run: report the root of the page tables, which the caller
/// has read from the processor, accept interrupts, and announce the final
/// loop, which the caller enters. The announcement is made while the timer
/// may interrupt already, so the screen is taken with interrupts off for
/// it.
pub fn go(kernel: &mut Kernel, cr3: u64)
    requires
        old(kernel).cpu.idtr.is_some(),
        old(kernel).screen.wf(),
        old(kernel).screen.state() == OnceState::Finished,
        !old(kernel).screen.value().unwrap().is_locked(),
        old(kernel).screen.value().unwrap().data().wf(),
    ensures
        final(kernel).cpu == old(kernel).cpu.with_interrupts(true),
        final(kernel).screen.state() == OnceState::Finished,
        final(kernel).screen.wf(),
        final(kernel).pit == old(kernel).pit,
        final(kernel).screen.value() matches Some(terminal) && !terminal.is_locked()
            && terminal.data().wf() && terminal.data()@ == old(
            kernel,
        ).screen.value().unwrap().data()@.put_bytes(encode_utf8(root_text(cr3))).put_bytes(
            "Entering final loop\n".spec_bytes(),
        ),
        final(kernel).idt == old(kernel).idt,
        final(kernel).controller == old(kernel).controller,
        final(kernel).clock == old(kernel).clock,
        final(kernel).serial == old(kernel).serial,
{
    let mut text = String::new();
    text.append("cr3 = 0x");
    append_hex_padded(&mut text, cr3);
    text.append("\n");
    assert(text@ =~= root_text(cr3));
    print(&mut kernel.screen, text.as_str());
    enable(&mut kernel.cpu);

    print_critical(&mut kernel.cpu, &mut kernel.screen, "Entering final loop\n");
}

} // verus!
