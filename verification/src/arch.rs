//! What the kernel knows of the x86_64 processor it runs on.
//!
//! [`Cpu`] holds the state of the processor that the kernel changes. The
//! functions of the modules below change a `Cpu` value where the kernel on
//! the machine executes a privileged instruction.

pub mod devices;
pub mod exceptions;
pub mod idt;
pub mod interrupts;

use vstd::prelude::*;

verus! {

/// The four protection rings of the processor, ring 0 being the most
/// privileged.
#[derive(Clone, Copy, Debug, PartialEq, Eq, Structural)]
pub enum PrivilegeLevel {
    Ring0,
    Ring1,
    Ring2,
    Ring3,
}

impl PrivilegeLevel {
    /// The number of the ring.
    pub open spec fn level(self) -> int {
        match self {
            PrivilegeLevel::Ring0 => 0,
            PrivilegeLevel::Ring1 => 1,
            PrivilegeLevel::Ring2 => 2,
            PrivilegeLevel::Ring3 => 3,
        }
    }

    /// The ring with the given number.
    pub open spec fn of_level(level: int) -> PrivilegeLevel {
        if level == 0 {
            PrivilegeLevel::Ring0
        } else if level == 1 {
            PrivilegeLevel::Ring1
        } else if level == 2 {
            PrivilegeLevel::Ring2
        } else {
            PrivilegeLevel::Ring3
        }
    }

    /// The number of the ring, as the two-bit field of a descriptor holds it.
    pub fn bits(self) -> (n: u16)
        ensures
            n == self.level(),
    {
        match self {
            PrivilegeLevel::Ring0 => 0,
            PrivilegeLevel::Ring1 => 1,
            PrivilegeLevel::Ring2 => 2,
            PrivilegeLevel::Ring3 => 3,
        }
    }

    /// The ring that a two-bit field names.
    pub fn from_bits(n: u16) -> (level: PrivilegeLevel)
        requires
            n < 4,
        ensures
            level == Self::of_level(n as int),
            level.level() == n,
    {
        if n == 0 {
            PrivilegeLevel::Ring0
        } else if n == 1 {
            PrivilegeLevel::Ring1
        } else if n == 2 {
            PrivilegeLevel::Ring2
        } else {
            PrivilegeLevel::Ring3
        }
    }
}

/// The operand of the instruction that loads a descriptor table: where the
/// table starts and the offset of its last byte.
#[derive(Clone, Copy, Debug, PartialEq, Eq, Structural)]
pub struct DescriptorTablePtr {
    pub limit: u16,
    pub base: usize,
}

impl DescriptorTablePtr {
    /// The ten bytes of the operand as the processor reads them: the limit
    /// and then the base, each least significant byte first, with nothing
    /// between them.
    pub open spec fn bytes(self) -> Seq<u8> {
        let base = self.base as u64;
        seq![
            (self.limit % 256) as u8,
            (self.limit / 256) as u8,
            (base % 256) as u8,
            (base / 0x100 % 256) as u8,
            (base / 0x1_0000 % 256) as u8,
            (base / 0x100_0000 % 256) as u8,
            (base / 0x1_0000_0000 % 256) as u8,
            (base / 0x100_0000_0000 % 256) as u8,
            (base / 0x1_0000_0000_0000 % 256) as u8,
            (base / 0x100_0000_0000_0000) as u8,
        ]
    }

    /// The bytes of the operand as the processor reads them.
    pub fn to_bytes(&self) -> (raw: [u8; 10])
        ensures
            raw@ == self.bytes(),
    {
        let base = self.base as u64;
        let raw = [
            (self.limit % 256) as u8,
            (self.limit / 256) as u8,
            (base % 256) as u8,
            (base / 0x100 % 256) as u8,
            (base / 0x1_0000 % 256) as u8,
            (base / 0x100_0000 % 256) as u8,
            (base / 0x1_0000_0000 % 256) as u8,
            (base / 0x100_0000_0000 % 256) as u8,
            (base / 0x1_0000_0000_0000 % 256) as u8,
            (base / 0x100_0000_0000_0000) as u8,
        ];
        assert(raw@ =~= self.bytes());
        raw
    }
}

/// The state of the processor that the kernel drives: whether it accepts
/// maskable interrupts, and the descriptor table that it was last told to
/// consult.
#[derive(Clone, Copy, Debug, PartialEq, Eq)]
pub struct Cpu {
    pub interrupts: bool,
    pub idtr: Option<DescriptorTablePtr>,
}

impl Cpu {
    /// A processor that accepts interrupts has been told of a descriptor
    /// table. Every processor is so that began as [`Cpu::new`] gives it and
    /// was changed by the functions of this library.
    pub open spec fn wf(self) -> bool {
        self.interrupts ==> self.idtr.is_some()
    }

    /// The processor with its interrupt flag forced to `on`.
    pub open spec fn with_interrupts(self, on: bool) -> Cpu {
        Cpu { interrupts: on, idtr: self.idtr }
    }

    /// The processor as the boot loader hands it over: interrupts off, no
    /// descriptor table loaded.
    pub fn new() -> (cpu: Cpu)
        ensures
            !cpu.interrupts,
            cpu.idtr.is_none(),
            cpu.wf(),
    {
        Cpu { interrupts: false, idtr: None }
    }
}

} // verus!
