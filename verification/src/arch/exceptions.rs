//! The exceptions of the processor and what their default handlers report.

use super::interrupts::{InterruptErrorStack, InterruptStack, Preserved};
use crate::prelude::text::{append_dec, append_hex, append_hex_padded, dec, hex, hex_padded};
use vstd::prelude::*;

verus! {

/// The exceptions that the processor raises by itself, each with a vector
/// of its own in the range that the architecture reserves.
#[derive(Clone, Copy, Debug, PartialEq, Eq, Structural)]
pub enum Exception {
    DivideByZero,
    Debug,
    NonMaskable,
    Breakpoint,
    Overflow,
    BoundRange,
    InvalidOpcode,
    DeviceNotAvailable,
    DoubleFault,
    CoprocessorSegment,
    InvalidTss,
    SegmentNotPresent,
    StackSegment,
    Protection,
    Page,
    Fpu,
    AlignmentCheck,
    MachineCheck,
    Simd,
    Virtualization,
    Security,
}

/// What a default handler does once it has reported a fault.
#[derive(Clone, Copy, Debug, PartialEq, Eq, Structural)]
pub enum FaultPolicy {
    /// Stop the processor: the kernel cannot recover from the fault.
    Halt,
    /// Return to the interrupted code.
    Resume,
}

/// What a default handler has decided.
pub struct FaultOutcome {
    /// The text to write to the diagnostic output, if any.
    pub report: Option<String>,
    /// Whether to stop the processor instead of returning.
    pub halt: bool,
}

impl FaultOutcome {
    /// The text of the report, if there is a report.
    pub open spec fn spec_report(self) -> Option<Seq<char>> {
        match self.report {
            Some(text) => Some(text@),
            None => None,
        }
    }
}

impl Exception {
    /// The vector of the exception.
    pub open spec fn spec_vector(self) -> u8 {
        match self {
            Exception::DivideByZero => 0x00,
            Exception::Debug => 0x01,
            Exception::NonMaskable => 0x02,
            Exception::Breakpoint => 0x03,
            Exception::Overflow => 0x04,
            Exception::BoundRange => 0x05,
            Exception::InvalidOpcode => 0x06,
            Exception::DeviceNotAvailable => 0x07,
            Exception::DoubleFault => 0x08,
            Exception::CoprocessorSegment => 0x09,
            Exception::InvalidTss => 0x0A,
            Exception::SegmentNotPresent => 0x0B,
            Exception::StackSegment => 0x0C,
            Exception::Protection => 0x0D,
            Exception::Page => 0x0E,
            Exception::Fpu => 0x10,
            Exception::AlignmentCheck => 0x11,
            Exception::MachineCheck => 0x12,
            Exception::Simd => 0x13,
            Exception::Virtualization => 0x14,
            Exception::Security => 0x1E,
        }
    }

    /// Whether the processor pushes an error code for the exception, which
    /// decides the shape of the frame that its handler sees.
    pub open spec fn spec_has_error_code(self) -> bool {
        match self {
            Exception::DoubleFault => true,
            Exception::InvalidTss => true,
            Exception::SegmentNotPresent => true,
            Exception::StackSegment => true,
            Exception::Protection => true,
            Exception::Page => true,
            Exception::AlignmentCheck => true,
            Exception::Security => true,
            _ => false,
        }
    }

    /// The name of the exception in diagnostic output.
    pub open spec fn spec_name(self) -> Seq<char> {
        match self {
            Exception::DivideByZero => "divide_by_zero"@,
            Exception::Debug => "debug"@,
            Exception::NonMaskable => "nonmaskable"@,
            Exception::Breakpoint => "breakpoint"@,
            Exception::Overflow => "overflow"@,
            Exception::BoundRange => "bound_range"@,
            Exception::InvalidOpcode => "invalid_opcode"@,
            Exception::DeviceNotAvailable => "device_not_available"@,
            Exception::DoubleFault => "double_fault"@,
            Exception::CoprocessorSegment => "coprocessor_segment"@,
            Exception::InvalidTss => "invalid_tss"@,
            Exception::SegmentNotPresent => "segment_not_present"@,
            Exception::StackSegment => "stack_segment"@,
            Exception::Protection => "protection"@,
            Exception::Page => "page"@,
            Exception::Fpu => "fpu"@,
            Exception::AlignmentCheck => "alignment_check"@,
            Exception::MachineCheck => "machine_check"@,
            Exception::Simd => "simd"@,
            Exception::Virtualization => "virtualization"@,
            Exception::Security => "security"@,
        }
    }

    /// The vector of the exception.
    #[verifier::when_used_as_spec(spec_vector)]
    pub fn vector(self) -> (v: u8)
        ensures
            v == self.spec_vector(),
    {
        match self {
            Exception::DivideByZero => 0x00,
            Exception::Debug => 0x01,
            Exception::NonMaskable => 0x02,
            Exception::Breakpoint => 0x03,
            Exception::Overflow => 0x04,
            Exception::BoundRange => 0x05,
            Exception::InvalidOpcode => 0x06,
            Exception::DeviceNotAvailable => 0x07,
            Exception::DoubleFault => 0x08,
            Exception::CoprocessorSegment => 0x09,
            Exception::InvalidTss => 0x0A,
            Exception::SegmentNotPresent => 0x0B,
            Exception::StackSegment => 0x0C,
            Exception::Protection => 0x0D,
            Exception::Page => 0x0E,
            Exception::Fpu => 0x10,
            Exception::AlignmentCheck => 0x11,
            Exception::MachineCheck => 0x12,
            Exception::Simd => 0x13,
            Exception::Virtualization => 0x14,
            Exception::Security => 0x1E,
        }
    }

    /// The exception that has the vector `v`, if one has.
    pub fn from_vector(v: u8) -> (e: Option<Exception>)
        ensures
            e matches Some(x) ==> x.vector() == v,
            e.is_none() ==> forall|x: Exception| x.vector() != v,
    {
        match v {
            0x00 => Some(Exception::DivideByZero),
            0x01 => Some(Exception::Debug),
            0x02 => Some(Exception::NonMaskable),
            0x03 => Some(Exception::Breakpoint),
            0x04 => Some(Exception::Overflow),
            0x05 => Some(Exception::BoundRange),
            0x06 => Some(Exception::InvalidOpcode),
            0x07 => Some(Exception::DeviceNotAvailable),
            0x08 => Some(Exception::DoubleFault),
            0x09 => Some(Exception::CoprocessorSegment),
            0x0A => Some(Exception::InvalidTss),
            0x0B => Some(Exception::SegmentNotPresent),
            0x0C => Some(Exception::StackSegment),
            0x0D => Some(Exception::Protection),
            0x0E => Some(Exception::Page),
            0x10 => Some(Exception::Fpu),
            0x11 => Some(Exception::AlignmentCheck),
            0x12 => Some(Exception::MachineCheck),
            0x13 => Some(Exception::Simd),
            0x14 => Some(Exception::Virtualization),
            0x1E => Some(Exception::Security),
            _ => None,
        }
    }

    /// Whether the processor pushes an error code for the exception.
    #[verifier::when_used_as_spec(spec_has_error_code)]
    pub fn has_error_code(self) -> (b: bool)
        ensures
            b == self.spec_has_error_code(),
    {
        match self {
            Exception::DoubleFault => true,
            Exception::InvalidTss => true,
            Exception::SegmentNotPresent => true,
            Exception::StackSegment => true,
            Exception::Protection => true,
            Exception::Page => true,
            Exception::AlignmentCheck => true,
            Exception::Security => true,
            _ => false,
        }
    }

    /// The name of the exception in diagnostic output.
    pub fn name(self) -> (s: &'static str)
        ensures
            s@ == self.spec_name(),
    {
        match self {
            Exception::DivideByZero => "divide_by_zero",
            Exception::Debug => "debug",
            Exception::NonMaskable => "nonmaskable",
            Exception::Breakpoint => "breakpoint",
            Exception::Overflow => "overflow",
            Exception::BoundRange => "bound_range",
            Exception::InvalidOpcode => "invalid_opcode",
            Exception::DeviceNotAvailable => "device_not_available",
            Exception::DoubleFault => "double_fault",
            Exception::CoprocessorSegment => "coprocessor_segment",
            Exception::InvalidTss => "invalid_tss",
            Exception::SegmentNotPresent => "segment_not_present",
            Exception::StackSegment => "stack_segment",
            Exception::Protection => "protection",
            Exception::Page => "page",
            Exception::Fpu => "fpu",
            Exception::AlignmentCheck => "alignment_check",
            Exception::MachineCheck => "machine_check",
            Exception::Simd => "simd",
            Exception::Virtualization => "virtualization",
            Exception::Security => "security",
        }
    }

    /// What the default handler of an exception without error code does
    /// with the frame that it finds: it reports the fault, and stops the
    /// processor or returns as `policy` says.
    pub fn handle(self, frame: &InterruptStack, policy: FaultPolicy) -> (outcome: FaultOutcome)
        requires
            !self.has_error_code(),
        ensures
            outcome.spec_report() == Some(fault_text(self.spec_name(), frame.text())),
            outcome.halt == (policy == FaultPolicy::Halt),
    {
        let report = fault_report(self.name(), frame.describe().as_str());
        FaultOutcome { report: Some(report), halt: halts(policy) }
    }

    /// What the default handler of an exception with error code does with
    /// the frame that it finds. A page fault is reported with the faulting
    /// address, which the handler finds in `cr2`; a double fault is not
    /// reported at all; any other exception is reported with its frame.
    ///
    /// A double fault says that the state of the kernel is corrupt: it
    /// stops the processor whatever `policy` says.
    pub fn handle_error(
        self,
        frame: &InterruptErrorStack,
        cr2: u64,
        policy: FaultPolicy,
    ) -> (outcome: FaultOutcome)
        requires
            self.has_error_code(),
        ensures
            outcome.spec_report() == match self {
                Exception::DoubleFault => None,
                Exception::Page => Some(page_fault_text(cr2)),
                _ => Some(fault_text(self.spec_name(), frame.text())),
            },
            outcome.halt == (policy == FaultPolicy::Halt || self == Exception::DoubleFault),
    {
        let (report, fatal) = match self {
            Exception::DoubleFault => (None, true),
            Exception::Page => (Some(page_fault_report(cr2)), false),
            _ => (Some(fault_report(self.name(), frame.describe().as_str())), false),
        };
        FaultOutcome { report, halt: fatal || halts(policy) }
    }
}

/// Whether `policy` stops the processor after a fault.
fn halts(policy: FaultPolicy) -> (halt: bool)
    ensures
        halt == (policy == FaultPolicy::Halt),
{
    match policy {
        FaultPolicy::Halt => true,
        FaultPolicy::Resume => false,
    }
}

/// The line that announces a fault, followed by the frame and a line break.
pub open spec fn fault_text(name: Seq<char>, frame: Seq<char>) -> Seq<char> {
    "CPU fault: "@ + name + "\n"@ + frame + "\n"@
}

/// The report of a page fault at the address `cr2`.
pub open spec fn page_fault_text(cr2: u64) -> Seq<char> {
    "Page fault! "@ + dec(cr2 as nat) + "\n"@
}

/// The report of the fault `name` with the frame text `frame`.
pub fn fault_report(name: &str, frame: &str) -> (text: String)
    ensures
        text@ == fault_text(name@, frame@),
{
    let mut text = String::new();
    text.append("CPU fault: ");
    text.append(name);
    text.append("\n");
    text.append(frame);
    text.append("\n");
    assert(text@ =~= fault_text(name@, frame@));
    text
}

/// The report of a page fault at the address `cr2`.
pub fn page_fault_report(cr2: u64) -> (text: String)
    ensures
        text@ == page_fault_text(cr2),
{
    let mut text = String::new();
    text.append("Page fault! ");
    append_dec(&mut text, cr2);
    text.append("\n");
    assert(text@ =~= page_fault_text(cr2));
    text
}

impl Preserved {
    /// The registers as three lines of two registers each.
    pub open spec fn text(self) -> Seq<char> {
        "rbx: "@ + hex_padded(self.rbx as nat) + " rbp: "@ + hex_padded(self.rbp as nat) + "\nr12: "@
            + hex_padded(self.r12 as nat) + " r13: "@ + hex_padded(self.r13 as nat) + "\nr14: "@
            + hex_padded(self.r14 as nat) + " r15: "@ + hex_padded(self.r15 as nat) + "\n"@
    }

    /// The registers as text.
    pub fn describe(&self) -> (text: String)
        ensures
            text@ == self.text(),
    {
        let mut text = String::new();
        text.append("rbx: ");
        append_hex_padded(&mut text, self.rbx);
        text.append(" rbp: ");
        append_hex_padded(&mut text, self.rbp);
        text.append("\nr12: ");
        append_hex_padded(&mut text, self.r12);
        text.append(" r13: ");
        append_hex_padded(&mut text, self.r13);
        text.append("\nr14: ");
        append_hex_padded(&mut text, self.r14);
        text.append(" r15: ");
        append_hex_padded(&mut text, self.r15);
        text.append("\n");
        assert(text@ =~= self.text());
        text
    }
}

impl InterruptStack {
    /// Where the fault occurred and with which flags, followed by the
    /// preserved registers.
    pub open spec fn text(self) -> Seq<char> {
        "error occurred at "@ + hex(self.cs as nat) + ":0x"@ + hex_padded(self.rip as nat)
            + " with flags "@ + hex_padded(self.rflags as nat) + "!\n"@ + self.preserved.text()
    }

    /// The frame as text.
    pub fn describe(&self) -> (text: String)
        ensures
            text@ == self.text(),
    {
        let mut text = String::new();
        text.append("error occurred at ");
        append_hex(&mut text, self.cs);
        text.append(":0x");
        append_hex_padded(&mut text, self.rip);
        text.append(" with flags ");
        append_hex_padded(&mut text, self.rflags);
        text.append("!\n");
        let preserved = self.preserved.describe();
        text.append(preserved.as_str());
        assert(text@ =~= self.text());
        text
    }
}

impl InterruptErrorStack {
    /// The error code, where the fault occurred and with which flags, the
    /// preserved registers, and the stack of the interrupted code.
    pub open spec fn text(self) -> Seq<char> {
        "error "@ + hex(self.error_code as nat) + " occurred at "@ + hex(self.cs as nat) + ":0x"@
            + hex_padded(self.rip as nat) + " with flags "@ + hex_padded(self.rflags as nat)
            + "!\n"@ + self.preserved.text() + "\nrsp "@ + hex(self.ss as nat) + ":"@ + hex_padded(
            self.rsp as nat,
        )
    }

    /// The frame as text.
    pub fn describe(&self) -> (text: String)
        ensures
            text@ == self.text(),
    {
        let mut text = String::new();
        text.append("error ");
        append_hex(&mut text, self.error_code);
        text.append(" occurred at ");
        append_hex(&mut text, self.cs);
        text.append(":0x");
        append_hex_padded(&mut text, self.rip);
        text.append(" with flags ");
        append_hex_padded(&mut text, self.rflags);
        text.append("!\n");
        let preserved = self.preserved.describe();
        text.append(preserved.as_str());
        text.append("\nrsp ");
        append_hex(&mut text, self.ss);
        text.append(":");
        append_hex_padded(&mut text, self.rsp);
        assert(text@ =~= self.text());
        text
    }
}

} // verus!
