//! What the kernel does when it cannot go on.

use crate::arch::interrupts::disable;
use crate::arch::Cpu;
use crate::io::serial::{line_bytes, sends};
use crate::io::Serial;
use crate::prelude::text::{append_dec, dec};
use crate::sync::Mutex;
use crate::term::{Color, Terminal, TerminalState, TextColor};
use vstd::prelude::*;
use vstd::string::StringSliceAdditionalSpecFns;
use vstd::utf8::encode_utf8;

verus! {

/// Where in the source of the kernel a panic began.
pub struct Location<'a> {
    pub file: &'a str,
    pub line: u32,
    pub column: u32,
}

/// The first line of the report of a panic: where it began, if that is
/// known.
pub open spec fn panic_heading(location: Option<Location>) -> Seq<char> {
    match location {
        Some(at) => "\nPanic occured at file "@ + at.file@ + " "@ + dec(at.line as nat) + ":"@ + dec(
            at.column as nat,
        ) + ": "@,
        None => "\nPanic occured at unknown location: "@,
    }
}

/// The report of a panic: the heading, and the message if there is one.
pub open spec fn panic_text(location: Option<Location>, message: Option<&str>) -> Seq<char> {
    panic_heading(location) + match message {
        Some(text) => text@,
        None => Seq::<char>::empty(),
    }
}

/// The report of a panic that began at `location` with `message`.
pub fn panic_report(location: Option<&Location>, message: Option<&str>) -> (text: String)
    ensures
        text@ == panic_text(
            match location {
                Some(at) => Some(*at),
                None => None,
            },
            message,
        ),
{
    let mut text = String::new();
    match location {
        Some(at) => {
            text.append("\nPanic occured at file ");
            text.append(at.file);
            text.append(" ");
            append_dec(&mut text, at.line as u64);
            text.append(":");
            append_dec(&mut text, at.column as u64);
            text.append(": ");
            assert(text@ =~= panic_heading(Some(*at)));
        },
        None => {
            text.append("\nPanic occured at unknown location: ");
            assert(text@ =~= panic_heading(None));
        },
    }
    match message {
        Some(args) => {
            text.append(args);
        },
        None => {
            assert(text@ + Seq::<char>::empty() =~= text@);
        },
    }
    text
}

/// Report a panic on the serial line and on the screen.
///
/// Interrupts are switched off for good. Both devices are written to
/// whether or not somebody holds their locks, because the holder cannot
/// release them any more: the report goes to the serial line as it is, and
/// to the screen in white on red. The caller stops the processor
/// afterwards.
pub fn panic(
    cpu: &mut Cpu,
    serial: &mut Mutex<Serial>,
    terminal: &mut Mutex<Terminal>,
    location: Option<&Location>,
    message: Option<&str>,
) -> (text: String)
    requires
        old(terminal).data().wf(),
    ensures
        text@ == panic_text(
            match location {
                Some(at) => Some(*at),
                None => None,
            },
            message,
        ),
        *final(cpu) == old(cpu).with_interrupts(false),
        final(serial).is_locked() == old(serial).is_locked(),
        final(serial).data().queue@ == old(serial).data().queue@ + sends(
            old(serial).data().output.port,
            line_bytes(text@),
        ),
        final(terminal).is_locked() == old(terminal).is_locked(),
        final(terminal).data()@ == (TerminalState {
            color: TextColor::of(Color::White, Color::Red),
            ..old(terminal).data()@
        }).put_bytes(encode_utf8(text@)),
{
    disable(cpu);
    let text = panic_report(location, message);
    let line = serial.force();
    let screen = terminal.force();

    screen.set_color(Color::White, Color::Red);

    line.write_str(text.as_str());
    screen.write_str(text.as_str());
    text
}

} // verus!
