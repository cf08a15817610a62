//! Support types shared by the rest of the kernel.

pub mod bitfield;
pub mod bytes;
pub mod signed;
pub mod text;
pub mod unsigned;

pub use bitfield::{BitField, BitfieldIterator};
pub use bytes::{BytesBuf, WriteError};

use crate::arch::Cpu;
use crate::sync::{Global, Mutex, Once, OnceState};
use crate::term::{Terminal, TerminalState};
use vstd::prelude::*;
use vstd::string::StringSliceAdditionalSpecFns;

verus! {

/// Print `text` to the screen of the kernel, which is constructed first if
/// nobody has asked for it yet.
///
/// This function locks the terminal. A terminal that is held when the text
/// arrives is never released while the text waits for it, so the caller has
/// to find it free.
pub fn print(screen: &mut Once<Mutex<Terminal>>, text: &str)
    requires
        old(screen).wf(),
        old(screen).state() != OnceState::Running,
        old(screen).state() == OnceState::Finished ==> !old(screen).value().unwrap().is_locked()
            && old(screen).value().unwrap().data().wf(),
    ensures
        final(screen).wf(),
        final(screen).state() == OnceState::Finished,
        final(screen).value() matches Some(terminal) && !terminal.is_locked()
            && terminal.data().wf() && terminal.data()@ == (match old(screen).value() {
            Some(before) => before.data()@,
            None => TerminalState::blank(),
        }).put_bytes(text.spec_bytes()),
{
    let terminal = Terminal::global(screen);
    let mut guard = terminal.lock();
    terminal.get_mut(&mut guard).write_str(text);
    terminal.unlock(guard);
}

/// Print `text` to the screen from code that interrupts are allowed to
/// preempt.
///
/// The terminal is shared with handlers, so it is locked with interrupts
/// off, and interrupts are on once the text is written. A terminal that is
/// held when the text arrives is never released while the text waits for
/// it, so the caller has to find it free.
pub fn print_critical(cpu: &mut Cpu, screen: &mut Once<Mutex<Terminal>>, text: &str)
    requires
        old(cpu).idtr.is_some(),
        old(screen).wf(),
        old(screen).state() != OnceState::Running,
        old(screen).state() == OnceState::Finished ==> !old(screen).value().unwrap().is_locked()
            && old(screen).value().unwrap().data().wf(),
    ensures
        *final(cpu) == old(cpu).with_interrupts(true),
        final(screen).wf(),
        final(screen).state() == OnceState::Finished,
        final(screen).value() matches Some(terminal) && !terminal.is_locked()
            && terminal.data().wf() && terminal.data()@ == (match old(screen).value() {
            Some(before) => before.data()@,
            None => TerminalState::blank(),
        }).put_bytes(text.spec_bytes()),
{
    let terminal = Terminal::global(screen);
    let mut guard = terminal.critical(cpu);
    terminal.get_critical_mut(&mut guard).write_str(text);
    terminal.unlock_critical(cpu, guard);
}

} // verus!
