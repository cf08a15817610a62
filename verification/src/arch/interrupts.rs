//! Switching maskable interrupts on and off, and the way into and out of
//! an interrupt handler.
//!
//! The processor enters a handler with nothing saved but the words that it
//! pushed itself. The entry code of a handler pushes every register that the
//! interrupted code may rely on, the handler works on the words on the stack
//! through a typed frame, and the exit code pops the registers in the
//! reverse order. The frame types list their fields in the order in which
//! the words lie above the stack pointer, so that a field and the register
//! of its name are the same word.

use super::Cpu;
use crate::prelude::bitfield::BitField;
use crate::prelude::unsigned::lemma_u64_set_bit;
use vstd::prelude::*;

verus! {

/// Let the processor accept maskable interrupts. A descriptor table has to
/// be loaded by then: an interrupt that finds none cannot be served.
pub fn enable(cpu: &mut Cpu)
    requires
        old(cpu).idtr.is_some(),
    ensures
        *final(cpu) == old(cpu).with_interrupts(true),
        final(cpu).wf(),
{
    cpu.interrupts = true;
}

/// Keep the processor from accepting maskable interrupts.
pub fn disable(cpu: &mut Cpu)
    ensures
        *final(cpu) == old(cpu).with_interrupts(false),
        final(cpu).wf(),
{
    cpu.interrupts = false;
}

/// Run a closure with interrupts disabled. Interrupts are on afterwards,
/// whatever they were before.
pub fn critical_section<T, F: FnOnce() -> T>(cpu: &mut Cpu, f: F) -> (r: T)
    requires
        old(cpu).idtr.is_some(),
        f.requires(()),
    ensures
        f.ensures((), r),
        *final(cpu) == old(cpu).with_interrupts(true),
{
    disable(cpu);
    let r = f();
    enable(cpu);
    r
}

/// The registers that the entry code saves last and that a called function
/// may change freely.
#[derive(Clone, Copy, Debug, PartialEq, Eq, Structural)]
pub struct Scratch {
    pub r11: u64,
    pub r10: u64,
    pub r9: u64,
    pub r8: u64,
    pub rsi: u64,
    pub rdi: u64,
    pub rdx: u64,
    pub rcx: u64,
    pub rax: u64,
}

/// The registers that the entry code saves first and that a called function
/// has to hand back unchanged.
#[derive(Clone, Copy, PartialEq, Eq, Structural)]
pub struct Preserved {
    pub r15: u64,
    pub r14: u64,
    pub r13: u64,
    pub r12: u64,
    pub rbp: u64,
    pub rbx: u64,
}

/// What a handler finds on the stack when the processor pushed no error
/// code, from the stack pointer upwards.
#[derive(Clone, Copy, PartialEq, Eq, Structural)]
pub struct InterruptStack {
    pub fs: u64,
    pub scratch: Scratch,
    pub preserved: Preserved,
    pub rip: u64,
    pub cs: u64,
    pub rflags: u64,
    pub rsp: u64,
    pub ss: u64,
}

/// What a handler finds on the stack when the processor pushed an error
/// code, from the stack pointer upwards.
#[derive(Clone, Copy, PartialEq, Eq, Structural)]
pub struct InterruptErrorStack {
    pub fs: u64,
    pub scratch: Scratch,
    pub preserved: Preserved,
    pub error_code: u64,
    pub rip: u64,
    pub cs: u64,
    pub rflags: u64,
    pub rsp: u64,
    pub ss: u64,
}

/// The registers of the interrupted code that entry and exit of a handler
/// touch.
#[derive(Clone, Copy, Debug, PartialEq, Eq, Structural)]
pub struct Registers {
    pub rax: u64,
    pub rbx: u64,
    pub rcx: u64,
    pub rdx: u64,
    pub rsi: u64,
    pub rdi: u64,
    pub rbp: u64,
    pub r8: u64,
    pub r9: u64,
    pub r10: u64,
    pub r11: u64,
    pub r12: u64,
    pub r13: u64,
    pub r14: u64,
    pub r15: u64,
    pub fs: u64,
}

/// Where the interrupted code stood: what the processor pushes when it
/// takes an interrupt, and pops when it returns from one.
#[derive(Clone, Copy, Debug, PartialEq, Eq, Structural)]
pub struct HardwareFrame {
    pub rip: u64,
    pub cs: u64,
    pub rflags: u64,
    pub rsp: u64,
    pub ss: u64,
}

/// The segment selector that a handler runs with in `fs`.
pub const HANDLER_FS: u64 = 0x20;

/// The bit of the flags register that lets the processor accept maskable
/// interrupts.
pub const INTERRUPT_FLAG: u8 = 9;

impl Registers {
    /// All registers zero.
    pub fn zeroed() -> (regs: Registers)
        ensures
            regs == (Registers {
                rax: 0,
                rbx: 0,
                rcx: 0,
                rdx: 0,
                rsi: 0,
                rdi: 0,
                rbp: 0,
                r8: 0,
                r9: 0,
                r10: 0,
                r11: 0,
                r12: 0,
                r13: 0,
                r14: 0,
                r15: 0,
                fs: 0,
            }),
    {
        Registers {
            rax: 0,
            rbx: 0,
            rcx: 0,
            rdx: 0,
            rsi: 0,
            rdi: 0,
            rbp: 0,
            r8: 0,
            r9: 0,
            r10: 0,
            r11: 0,
            r12: 0,
            r13: 0,
            r14: 0,
            r15: 0,
            fs: 0,
        }
    }

    /// The words that the entry code pushes for these registers, in the
    /// order in which it pushes them.
    pub open spec fn pushed(self) -> Seq<u64> {
        seq![
            self.rbx,
            self.rbp,
            self.r12,
            self.r13,
            self.r14,
            self.r15,
            self.rax,
            self.rcx,
            self.rdx,
            self.rdi,
            self.rsi,
            self.r8,
            self.r9,
            self.r10,
            self.r11,
            self.fs,
        ]
    }
}

impl HardwareFrame {
    /// The words that the processor pushes, in the order in which it pushes
    /// them.
    pub open spec fn pushed(self) -> Seq<u64> {
        seq![self.ss, self.rsp, self.rflags, self.cs, self.rip]
    }
}

impl InterruptStack {
    /// The frame that a handler sees when the code that it interrupts ran
    /// with `regs` at `at`.
    pub open spec fn of(regs: Registers, at: HardwareFrame) -> InterruptStack {
        InterruptStack {
            fs: regs.fs,
            scratch: Scratch {
                r11: regs.r11,
                r10: regs.r10,
                r9: regs.r9,
                r8: regs.r8,
                rsi: regs.rsi,
                rdi: regs.rdi,
                rdx: regs.rdx,
                rcx: regs.rcx,
                rax: regs.rax,
            },
            preserved: Preserved {
                r15: regs.r15,
                r14: regs.r14,
                r13: regs.r13,
                r12: regs.r12,
                rbp: regs.rbp,
                rbx: regs.rbx,
            },
            rip: at.rip,
            cs: at.cs,
            rflags: at.rflags,
            rsp: at.rsp,
            ss: at.ss,
        }
    }

    /// The registers that the exit code restores from this frame.
    pub open spec fn registers(self) -> Registers {
        Registers {
            rax: self.scratch.rax,
            rbx: self.preserved.rbx,
            rcx: self.scratch.rcx,
            rdx: self.scratch.rdx,
            rsi: self.scratch.rsi,
            rdi: self.scratch.rdi,
            rbp: self.preserved.rbp,
            r8: self.scratch.r8,
            r9: self.scratch.r9,
            r10: self.scratch.r10,
            r11: self.scratch.r11,
            r12: self.preserved.r12,
            r13: self.preserved.r13,
            r14: self.preserved.r14,
            r15: self.preserved.r15,
            fs: self.fs,
        }
    }

    /// Where the processor resumes when it returns through this frame.
    pub open spec fn resumes_at(self) -> HardwareFrame {
        HardwareFrame {
            rip: self.rip,
            cs: self.cs,
            rflags: self.rflags,
            rsp: self.rsp,
            ss: self.ss,
        }
    }

    /// The words of the frame from the bottom of the stack upwards, which is
    /// the order in which they were pushed.
    pub open spec fn pushed(self) -> Seq<u64> {
        self.resumes_at().pushed() + self.registers().pushed()
    }

    /// The words of the frame from the stack pointer upwards, which is the
    /// order of its fields.
    pub open spec fn words(self) -> Seq<u64> {
        seq![
            self.fs,
            self.scratch.r11,
            self.scratch.r10,
            self.scratch.r9,
            self.scratch.r8,
            self.scratch.rsi,
            self.scratch.rdi,
            self.scratch.rdx,
            self.scratch.rcx,
            self.scratch.rax,
            self.preserved.r15,
            self.preserved.r14,
            self.preserved.r13,
            self.preserved.r12,
            self.preserved.rbp,
            self.preserved.rbx,
            self.rip,
            self.cs,
            self.rflags,
            self.rsp,
            self.ss,
        ]
    }

    /// The frame whose words lie in `words` from the stack pointer upwards.
    pub fn from_words(words: &[u64; 21]) -> (frame: InterruptStack)
        ensures
            frame.words() == words@,
    {
        let frame = InterruptStack {
            fs: words[0],
            scratch: Scratch {
                r11: words[1],
                r10: words[2],
                r9: words[3],
                r8: words[4],
                rsi: words[5],
                rdi: words[6],
                rdx: words[7],
                rcx: words[8],
                rax: words[9],
            },
            preserved: Preserved {
                r15: words[10],
                r14: words[11],
                r13: words[12],
                r12: words[13],
                rbp: words[14],
                rbx: words[15],
            },
            rip: words[16],
            cs: words[17],
            rflags: words[18],
            rsp: words[19],
            ss: words[20],
        };
        assert(frame.words() =~= words@);
        frame
    }

    /// The words of the frame from the stack pointer upwards.
    pub fn to_words(&self) -> (words: [u64; 21])
        ensures
            words@ == self.words(),
    {
        let words = [
            self.fs,
            self.scratch.r11,
            self.scratch.r10,
            self.scratch.r9,
            self.scratch.r8,
            self.scratch.rsi,
            self.scratch.rdi,
            self.scratch.rdx,
            self.scratch.rcx,
            self.scratch.rax,
            self.preserved.r15,
            self.preserved.r14,
            self.preserved.r13,
            self.preserved.r12,
            self.preserved.rbp,
            self.preserved.rbx,
            self.rip,
            self.cs,
            self.rflags,
            self.rsp,
            self.ss,
        ];
        assert(words@ =~= self.words());
        words
    }

    /// The frame that the 21 words on top of `stack` form.
    pub open spec fn on(stack: Seq<u64>) -> InterruptStack {
        let n = stack.len();
        InterruptStack {
            fs: stack[n - 1],
            scratch: Scratch {
                r11: stack[n - 2],
                r10: stack[n - 3],
                r9: stack[n - 4],
                r8: stack[n - 5],
                rsi: stack[n - 6],
                rdi: stack[n - 7],
                rdx: stack[n - 8],
                rcx: stack[n - 9],
                rax: stack[n - 10],
            },
            preserved: Preserved {
                r15: stack[n - 11],
                r14: stack[n - 12],
                r13: stack[n - 13],
                r12: stack[n - 14],
                rbp: stack[n - 15],
                rbx: stack[n - 16],
            },
            rip: stack[n - 17],
            cs: stack[n - 18],
            rflags: stack[n - 19],
            rsp: stack[n - 20],
            ss: stack[n - 21],
        }
    }

    /// The frame that lies on top of `stack`.
    pub fn read(stack: &Vec<u64>) -> (frame: InterruptStack)
        requires
            stack@.len() >= 21,
        ensures
            frame == Self::on(stack@),
            frame.pushed() == stack@.subrange(stack@.len() - 21, stack@.len() as int),
    {
        let n = stack.len();
        let frame = InterruptStack {
            fs: stack[n - 1],
            scratch: Scratch {
                r11: stack[n - 2],
                r10: stack[n - 3],
                r9: stack[n - 4],
                r8: stack[n - 5],
                rsi: stack[n - 6],
                rdi: stack[n - 7],
                rdx: stack[n - 8],
                rcx: stack[n - 9],
                rax: stack[n - 10],
            },
            preserved: Preserved {
                r15: stack[n - 11],
                r14: stack[n - 12],
                r13: stack[n - 13],
                r12: stack[n - 14],
                rbp: stack[n - 15],
                rbx: stack[n - 16],
            },
            rip: stack[n - 17],
            cs: stack[n - 18],
            rflags: stack[n - 19],
            rsp: stack[n - 20],
            ss: stack[n - 21],
        };
        assert(frame.pushed() =~= stack@.subrange(stack@.len() - 21, stack@.len() as int));
        frame
    }

    /// Put this frame in the place of the one that lies on top of `stack`.
    pub fn write(&self, stack: &mut Vec<u64>)
        requires
            old(stack)@.len() >= 21,
        ensures
            final(stack)@ == old(stack)@.take(old(stack)@.len() - 21) + self.pushed(),
    {
        let n = stack.len();
        stack[n - 1] = self.fs;
        stack[n - 2] = self.scratch.r11;
        stack[n - 3] = self.scratch.r10;
        stack[n - 4] = self.scratch.r9;
        stack[n - 5] = self.scratch.r8;
        stack[n - 6] = self.scratch.rsi;
        stack[n - 7] = self.scratch.rdi;
        stack[n - 8] = self.scratch.rdx;
        stack[n - 9] = self.scratch.rcx;
        stack[n - 10] = self.scratch.rax;
        stack[n - 11] = self.preserved.r15;
        stack[n - 12] = self.preserved.r14;
        stack[n - 13] = self.preserved.r13;
        stack[n - 14] = self.preserved.r12;
        stack[n - 15] = self.preserved.rbp;
        stack[n - 16] = self.preserved.rbx;
        stack[n - 17] = self.rip;
        stack[n - 18] = self.cs;
        stack[n - 19] = self.rflags;
        stack[n - 20] = self.rsp;
        stack[n - 21] = self.ss;
        assert(stack@ =~= old(stack)@.take(old(stack)@.len() - 21) + self.pushed());
    }
}

impl InterruptErrorStack {
    /// The frame that a handler sees when the code that it interrupts ran
    /// with `regs` at `at` and the processor pushed `error_code`.
    pub open spec fn of(regs: Registers, at: HardwareFrame, error_code: u64) -> InterruptErrorStack {
        let plain = InterruptStack::of(regs, at);
        InterruptErrorStack {
            fs: plain.fs,
            scratch: plain.scratch,
            preserved: plain.preserved,
            error_code,
            rip: plain.rip,
            cs: plain.cs,
            rflags: plain.rflags,
            rsp: plain.rsp,
            ss: plain.ss,
        }
    }

    /// The frame without its error code.
    pub open spec fn plain(self) -> InterruptStack {
        InterruptStack {
            fs: self.fs,
            scratch: self.scratch,
            preserved: self.preserved,
            rip: self.rip,
            cs: self.cs,
            rflags: self.rflags,
            rsp: self.rsp,
            ss: self.ss,
        }
    }

    /// The registers that the exit code restores from this frame.
    pub open spec fn registers(self) -> Registers {
        self.plain().registers()
    }

    /// Where the processor resumes when it returns through this frame.
    pub open spec fn resumes_at(self) -> HardwareFrame {
        self.plain().resumes_at()
    }

    /// The words of the frame from the bottom of the stack upwards, which is
    /// the order in which they were pushed.
    pub open spec fn pushed(self) -> Seq<u64> {
        self.resumes_at().pushed() + seq![self.error_code] + self.registers().pushed()
    }

    /// The words of the frame from the stack pointer upwards, which is the
    /// order of its fields.
    pub open spec fn words(self) -> Seq<u64> {
        seq![
            self.fs,
            self.scratch.r11,
            self.scratch.r10,
            self.scratch.r9,
            self.scratch.r8,
            self.scratch.rsi,
            self.scratch.rdi,
            self.scratch.rdx,
            self.scratch.rcx,
            self.scratch.rax,
            self.preserved.r15,
            self.preserved.r14,
            self.preserved.r13,
            self.preserved.r12,
            self.preserved.rbp,
            self.preserved.rbx,
            self.error_code,
            self.rip,
            self.cs,
            self.rflags,
            self.rsp,
            self.ss,
        ]
    }

    /// The frame whose words lie in `words` from the stack pointer upwards.
    pub fn from_words(words: &[u64; 22]) -> (frame: InterruptErrorStack)
        ensures
            frame.words() == words@,
    {
        let frame = InterruptErrorStack {
            fs: words[0],
            scratch: Scratch {
                r11: words[1],
                r10: words[2],
                r9: words[3],
                r8: words[4],
                rsi: words[5],
                rdi: words[6],
                rdx: words[7],
                rcx: words[8],
                rax: words[9],
            },
            preserved: Preserved {
                r15: words[10],
                r14: words[11],
                r13: words[12],
                r12: words[13],
                rbp: words[14],
                rbx: words[15],
            },
            error_code: words[16],
            rip: words[17],
            cs: words[18],
            rflags: words[19],
            rsp: words[20],
            ss: words[21],
        };
        assert(frame.words() =~= words@);
        frame
    }

    /// The words of the frame from the stack pointer upwards.
    pub fn to_words(&self) -> (words: [u64; 22])
        ensures
            words@ == self.words(),
    {
        let words = [
            self.fs,
            self.scratch.r11,
            self.scratch.r10,
            self.scratch.r9,
            self.scratch.r8,
            self.scratch.rsi,
            self.scratch.rdi,
            self.scratch.rdx,
            self.scratch.rcx,
            self.scratch.rax,
            self.preserved.r15,
            self.preserved.r14,
            self.preserved.r13,
            self.preserved.r12,
            self.preserved.rbp,
            self.preserved.rbx,
            self.error_code,
            self.rip,
            self.cs,
            self.rflags,
            self.rsp,
            self.ss,
        ];
        assert(words@ =~= self.words());
        words
    }

    /// The frame that the 22 words on top of `stack` form.
    pub open spec fn on(stack: Seq<u64>) -> InterruptErrorStack {
        let n = stack.len();
        InterruptErrorStack {
            fs: stack[n - 1],
            scratch: Scratch {
                r11: stack[n - 2],
                r10: stack[n - 3],
                r9: stack[n - 4],
                r8: stack[n - 5],
                rsi: stack[n - 6],
                rdi: stack[n - 7],
                rdx: stack[n - 8],
                rcx: stack[n - 9],
                rax: stack[n - 10],
            },
            preserved: Preserved {
                r15: stack[n - 11],
                r14: stack[n - 12],
                r13: stack[n - 13],
                r12: stack[n - 14],
                rbp: stack[n - 15],
                rbx: stack[n - 16],
            },
            error_code: stack[n - 17],
            rip: stack[n - 18],
            cs: stack[n - 19],
            rflags: stack[n - 20],
            rsp: stack[n - 21],
            ss: stack[n - 22],
        }
    }

    /// The frame that lies on top of `stack`.
    pub fn read(stack: &Vec<u64>) -> (frame: InterruptErrorStack)
        requires
            stack@.len() >= 22,
        ensures
            frame == Self::on(stack@),
            frame.pushed() == stack@.subrange(stack@.len() - 22, stack@.len() as int),
    {
        let n = stack.len();
        let frame = InterruptErrorStack {
            fs: stack[n - 1],
            scratch: Scratch {
                r11: stack[n - 2],
                r10: stack[n - 3],
                r9: stack[n - 4],
                r8: stack[n - 5],
                rsi: stack[n - 6],
                rdi: stack[n - 7],
                rdx: stack[n - 8],
                rcx: stack[n - 9],
                rax: stack[n - 10],
            },
            preserved: Preserved {
                r15: stack[n - 11],
                r14: stack[n - 12],
                r13: stack[n - 13],
                r12: stack[n - 14],
                rbp: stack[n - 15],
                rbx: stack[n - 16],
            },
            error_code: stack[n - 17],
            rip: stack[n - 18],
            cs: stack[n - 19],
            rflags: stack[n - 20],
            rsp: stack[n - 21],
            ss: stack[n - 22],
        };
        assert(frame.pushed() =~= stack@.subrange(stack@.len() - 22, stack@.len() as int));
        frame
    }

    /// Put this frame in the place of the one that lies on top of `stack`.
    pub fn write(&self, stack: &mut Vec<u64>)
        requires
            old(stack)@.len() >= 22,
        ensures
            final(stack)@ == old(stack)@.take(old(stack)@.len() - 22) + self.pushed(),
    {
        let n = stack.len();
        stack[n - 1] = self.fs;
        stack[n - 2] = self.scratch.r11;
        stack[n - 3] = self.scratch.r10;
        stack[n - 4] = self.scratch.r9;
        stack[n - 5] = self.scratch.r8;
        stack[n - 6] = self.scratch.rsi;
        stack[n - 7] = self.scratch.rdi;
        stack[n - 8] = self.scratch.rdx;
        stack[n - 9] = self.scratch.rcx;
        stack[n - 10] = self.scratch.rax;
        stack[n - 11] = self.preserved.r15;
        stack[n - 12] = self.preserved.r14;
        stack[n - 13] = self.preserved.r13;
        stack[n - 14] = self.preserved.r12;
        stack[n - 15] = self.preserved.rbp;
        stack[n - 16] = self.preserved.rbx;
        stack[n - 17] = self.error_code;
        stack[n - 18] = self.rip;
        stack[n - 19] = self.cs;
        stack[n - 20] = self.rflags;
        stack[n - 21] = self.rsp;
        stack[n - 22] = self.ss;
        assert(stack@ =~= old(stack)@.take(old(stack)@.len() - 22) + self.pushed());
    }
}

/// A frame that is composed from registers and read back yields those
/// registers and the place of the interruption: the fields of the frame
/// types stand in the order in which entry and exit move the words, the
/// word that was pushed last being the first field.
pub proof fn lemma_frame_round_trip(regs: Registers, at: HardwareFrame, error_code: u64)
    ensures
        InterruptStack::of(regs, at).registers() == regs,
        InterruptStack::of(regs, at).resumes_at() == at,
        InterruptStack::of(regs, at).pushed() == at.pushed() + regs.pushed(),
        InterruptErrorStack::of(regs, at, error_code).registers() == regs,
        InterruptErrorStack::of(regs, at, error_code).resumes_at() == at,
        InterruptErrorStack::of(regs, at, error_code).error_code == error_code,
        InterruptErrorStack::of(regs, at, error_code).pushed() == at.pushed() + seq![error_code]
            + regs.pushed(),
        InterruptStack::of(regs, at).words() == InterruptStack::of(regs, at).pushed().reverse(),
        InterruptErrorStack::of(regs, at, error_code).words() == InterruptErrorStack::of(
            regs,
            at,
            error_code,
        ).pushed().reverse(),
{
    let plain = InterruptStack::of(regs, at);
    assert(plain.words() =~= plain.pushed().reverse());
    let with_code = InterruptErrorStack::of(regs, at, error_code);
    assert(with_code.words() =~= with_code.pushed().reverse());
}

/// Save the registers that a called function has to hand back unchanged.
pub fn push_preserved(regs: &Registers, stack: &mut Vec<u64>)
    ensures
        final(stack)@ == old(stack)@ + seq![
            regs.rbx,
            regs.rbp,
            regs.r12,
            regs.r13,
            regs.r14,
            regs.r15,
        ],
{
    stack.push(regs.rbx);
    stack.push(regs.rbp);
    stack.push(regs.r12);
    stack.push(regs.r13);
    stack.push(regs.r14);
    stack.push(regs.r15);
    assert(stack@ =~= old(stack)@ + seq![
        regs.rbx,
        regs.rbp,
        regs.r12,
        regs.r13,
        regs.r14,
        regs.r15,
    ]);
}

/// Restore the registers that [`push_preserved`] saved.
pub fn pop_preserved(regs: &mut Registers, stack: &mut Vec<u64>)
    requires
        old(stack)@.len() >= 6,
    ensures
        final(stack)@ == old(stack)@.take(old(stack)@.len() - 6),
        *final(regs) == (Registers {
            r15: old(stack)@[old(stack)@.len() - 1],
            r14: old(stack)@[old(stack)@.len() - 2],
            r13: old(stack)@[old(stack)@.len() - 3],
            r12: old(stack)@[old(stack)@.len() - 4],
            rbp: old(stack)@[old(stack)@.len() - 5],
            rbx: old(stack)@[old(stack)@.len() - 6],
            ..*old(regs)
        }),
{
    regs.r15 = stack.pop().unwrap();
    regs.r14 = stack.pop().unwrap();
    regs.r13 = stack.pop().unwrap();
    regs.r12 = stack.pop().unwrap();
    regs.rbp = stack.pop().unwrap();
    regs.rbx = stack.pop().unwrap();
    assert(stack@ =~= old(stack)@.take(old(stack)@.len() - 6));
}

/// Save the registers that a called function may change.
pub fn push_scratch(regs: &Registers, stack: &mut Vec<u64>)
    ensures
        final(stack)@ == old(stack)@ + seq![
            regs.rax,
            regs.rcx,
            regs.rdx,
            regs.rdi,
            regs.rsi,
            regs.r8,
            regs.r9,
            regs.r10,
            regs.r11,
        ],
{
    stack.push(regs.rax);
    stack.push(regs.rcx);
    stack.push(regs.rdx);
    stack.push(regs.rdi);
    stack.push(regs.rsi);
    stack.push(regs.r8);
    stack.push(regs.r9);
    stack.push(regs.r10);
    stack.push(regs.r11);
    assert(stack@ =~= old(stack)@ + seq![
        regs.rax,
        regs.rcx,
        regs.rdx,
        regs.rdi,
        regs.rsi,
        regs.r8,
        regs.r9,
        regs.r10,
        regs.r11,
    ]);
}

/// Restore the registers that [`push_scratch`] saved.
pub fn pop_scratch(regs: &mut Registers, stack: &mut Vec<u64>)
    requires
        old(stack)@.len() >= 9,
    ensures
        final(stack)@ == old(stack)@.take(old(stack)@.len() - 9),
        *final(regs) == (Registers {
            r11: old(stack)@[old(stack)@.len() - 1],
            r10: old(stack)@[old(stack)@.len() - 2],
            r9: old(stack)@[old(stack)@.len() - 3],
            r8: old(stack)@[old(stack)@.len() - 4],
            rsi: old(stack)@[old(stack)@.len() - 5],
            rdi: old(stack)@[old(stack)@.len() - 6],
            rdx: old(stack)@[old(stack)@.len() - 7],
            rcx: old(stack)@[old(stack)@.len() - 8],
            rax: old(stack)@[old(stack)@.len() - 9],
            ..*old(regs)
        }),
{
    regs.r11 = stack.pop().unwrap();
    regs.r10 = stack.pop().unwrap();
    regs.r9 = stack.pop().unwrap();
    regs.r8 = stack.pop().unwrap();
    regs.rsi = stack.pop().unwrap();
    regs.rdi = stack.pop().unwrap();
    regs.rdx = stack.pop().unwrap();
    regs.rcx = stack.pop().unwrap();
    regs.rax = stack.pop().unwrap();
    assert(stack@ =~= old(stack)@.take(old(stack)@.len() - 9));
}

/// Save the selector in `fs` and switch to the one that handlers run with.
/// The new selector travels through `rax`, which [`push_scratch`] has saved
/// by then.
pub fn push_fs(regs: &mut Registers, stack: &mut Vec<u64>)
    ensures
        final(stack)@ == old(stack)@.push(old(regs).fs),
        *final(regs) == (Registers { rax: HANDLER_FS, fs: HANDLER_FS, ..*old(regs) }),
{
    stack.push(regs.fs);
    regs.rax = HANDLER_FS;
    regs.fs = regs.rax;
}

/// Restore the selector that [`push_fs`] saved.
pub fn pop_fs(regs: &mut Registers, stack: &mut Vec<u64>)
    requires
        old(stack)@.len() >= 1,
    ensures
        final(stack)@ == old(stack)@.drop_last(),
        *final(regs) == (Registers { fs: old(stack)@.last(), ..*old(regs) }),
{
    regs.fs = stack.pop().unwrap();
}

/// What the processor does when it takes an interrupt at `at`: it pushes
/// the place of the interruption, with the interrupt flag in the pushed
/// flags as it stood, then the error code if the vector has one, and stops
/// accepting maskable interrupts.
pub fn raise(cpu: &mut Cpu, stack: &mut Vec<u64>, at: HardwareFrame, error_code: Option<u64>)
    requires
        old(cpu).idtr.is_some(),
    ensures
        *final(cpu) == old(cpu).with_interrupts(false),
        final(stack)@ == old(stack)@ + interrupted(*old(cpu), at).pushed() + match error_code {
            Some(code) => seq![code],
            None => Seq::<u64>::empty(),
        },
{
    let mut rflags = at.rflags;
    rflags.set_bit(INTERRUPT_FLAG, cpu.interrupts);
    proof {
        lemma_with_interrupt_flag(at.rflags, cpu.interrupts);
        <u64 as BitField>::lemma_bits_determine(
            rflags,
            with_interrupt_flag(at.rflags, cpu.interrupts),
        );
    }
    stack.push(at.ss);
    stack.push(at.rsp);
    stack.push(rflags);
    stack.push(at.cs);
    stack.push(at.rip);
    assert(stack@ =~= old(stack)@ + interrupted(*old(cpu), at).pushed());
    match error_code {
        Some(code) => {
            stack.push(code);
            assert(stack@ =~= old(stack)@ + interrupted(*old(cpu), at).pushed() + seq![code]);
        },
        None => {
            assert(stack@ =~= old(stack)@ + interrupted(*old(cpu), at).pushed() + Seq::<u64>::empty());
        },
    }
    cpu.interrupts = false;
}

/// The flags `rflags` with the interrupt flag forced to `on`.
pub open spec fn with_interrupt_flag(rflags: u64, on: bool) -> u64 {
    if on {
        rflags | (1u64 << INTERRUPT_FLAG)
    } else {
        rflags & !(1u64 << INTERRUPT_FLAG)
    }
}

/// The bits of [`with_interrupt_flag`]: bit 9 is `on`, the others are those
/// of `rflags`.
pub proof fn lemma_with_interrupt_flag(rflags: u64, on: bool)
    ensures
        forall|i: int|
            0 <= i < 64 ==> (#[trigger] with_interrupt_flag(rflags, on).bit(i)) == if i
                == INTERRUPT_FLAG {
                on
            } else {
                rflags.bit(i)
            },
{
    lemma_u64_set_bit(rflags, INTERRUPT_FLAG);
}

/// The place of an interruption as the processor records it: `at`, with the
/// interrupt flag of the recorded flags as it stands in `cpu`.
pub open spec fn interrupted(cpu: Cpu, at: HardwareFrame) -> HardwareFrame {
    HardwareFrame { rflags: with_interrupt_flag(at.rflags, cpu.interrupts), ..at }
}

/// What the processor does when it returns from an interrupt: it pops the
/// place of the interruption and accepts maskable interrupts again if the
/// popped flags say so.
pub fn iretq(cpu: &mut Cpu, stack: &mut Vec<u64>) -> (at: HardwareFrame)
    requires
        old(stack)@.len() >= 5,
    ensures
        final(stack)@ == old(stack)@.take(old(stack)@.len() - 5),
        at.pushed() == old(stack)@.subrange(old(stack)@.len() - 5, old(stack)@.len() as int),
        *final(cpu) == old(cpu).with_interrupts(at.rflags.bit(INTERRUPT_FLAG as int)),
{
    let rip = stack.pop().unwrap();
    let cs = stack.pop().unwrap();
    let rflags = stack.pop().unwrap();
    let rsp = stack.pop().unwrap();
    let ss = stack.pop().unwrap();
    cpu.interrupts = rflags.get_bit(INTERRUPT_FLAG);
    let at = HardwareFrame { rip, cs, rflags, rsp, ss };
    assert(stack@ =~= old(stack)@.take(old(stack)@.len() - 5));
    assert(at.pushed() =~= old(stack)@.subrange(old(stack)@.len() - 5, old(stack)@.len() as int));
    at
}

/// The place of an interruption that the five words on top of `stack`
/// record.
pub open spec fn recorded(stack: Seq<u64>) -> HardwareFrame {
    HardwareFrame {
        rip: stack[stack.len() - 1],
        cs: stack[stack.len() - 2],
        rflags: stack[stack.len() - 3],
        rsp: stack[stack.len() - 4],
        ss: stack[stack.len() - 5],
    }
}

/// Entry and exit around the handler of a vector for which the processor
/// pushes no error code. The frame that the handler hands back is returned.
///
/// The registers are saved on the stack, the handler is given the frame
/// that the saved words and the words of the processor form, and whatever
/// frame the handler hands back is restored: into the registers, and onto
/// the stack for the return of the processor. A handler that hands the
/// frame back as it got it leaves registers and stack exactly as they
/// were.
pub fn interrupt<F: FnOnce(InterruptStack) -> InterruptStack>(
    regs: &mut Registers,
    stack: &mut Vec<u64>,
    handler: F,
) -> (left: InterruptStack)
    requires
        old(stack)@.len() >= 5,
        handler.requires((InterruptStack::of(*old(regs), recorded(old(stack)@)),)),
    ensures
        handler.ensures((InterruptStack::of(*old(regs), recorded(old(stack)@)),), left),
        *final(regs) == left.registers(),
        final(stack)@ == old(stack)@.take(old(stack)@.len() - 5) + left.resumes_at().pushed(),
        left == InterruptStack::of(*old(regs), recorded(old(stack)@)) ==> *final(regs) == *old(regs)
            && final(stack)@ == old(stack)@,
{
    push_preserved(regs, stack);
    push_scratch(regs, stack);
    push_fs(regs, stack);

    let seen = InterruptStack::read(stack);
    assert(seen == InterruptStack::of(*old(regs), recorded(old(stack)@)));
    let left = handler(seen);
    left.write(stack);

    pop_fs(regs, stack);
    pop_scratch(regs, stack);
    pop_preserved(regs, stack);
    proof {
        assert(stack@ =~= old(stack)@.take(old(stack)@.len() - 5) + left.resumes_at().pushed());
        if left == seen {
            assert(stack@ =~= old(stack)@);
        }
    }
    left
}

/// Entry and exit around the handler of a vector for which the processor
/// pushes an error code. The frame that the handler hands back is
/// returned.
///
/// This is [`interrupt`] with the error code between the saved registers
/// and the words of the processor. The exit code takes the error code off
/// the stack before the processor returns.
pub fn interrupt_error<F: FnOnce(InterruptErrorStack) -> InterruptErrorStack>(
    regs: &mut Registers,
    stack: &mut Vec<u64>,
    handler: F,
) -> (left: InterruptErrorStack)
    requires
        old(stack)@.len() >= 6,
        handler.requires(
            (
                InterruptErrorStack::of(
                    *old(regs),
                    recorded(old(stack)@.drop_last()),
                    old(stack)@.last(),
                ),
            ),
        ),
    ensures
        handler.ensures(
            (
                InterruptErrorStack::of(
                    *old(regs),
                    recorded(old(stack)@.drop_last()),
                    old(stack)@.last(),
                ),
            ),
            left,
        ),
        *final(regs) == left.registers(),
        final(stack)@ == old(stack)@.take(old(stack)@.len() - 6) + left.resumes_at().pushed(),
        left.plain() == InterruptStack::of(*old(regs), recorded(old(stack)@.drop_last()))
            ==> *final(regs) == *old(regs) && final(stack)@ == old(stack)@.drop_last(),
{
    push_preserved(regs, stack);
    push_scratch(regs, stack);
    push_fs(regs, stack);

    let seen = InterruptErrorStack::read(stack);
    assert(seen == InterruptErrorStack::of(
        *old(regs),
        recorded(old(stack)@.drop_last()),
        old(stack)@.last(),
    ));
    let left = handler(seen);
    left.write(stack);

    pop_fs(regs, stack);
    pop_scratch(regs, stack);
    pop_preserved(regs, stack);
    // pop off error code
    let _ = stack.pop();
    proof {
        assert(stack@ =~= old(stack)@.take(old(stack)@.len() - 6) + left.resumes_at().pushed());
        if left.plain() == seen.plain() {
            assert(stack@ =~= old(stack)@.drop_last());
        }
    }
    left
}

/// One maskable interrupt from the moment at which the processor takes it
/// to the moment at which it has returned: the processor records where it
/// was and stops accepting interrupts, the handler runs between entry and
/// exit, and the processor returns through the frame that the handler
/// handed back, which is returned.
///
/// The processor takes a maskable interrupt only while it accepts them.
pub fn deliver<F: FnOnce(InterruptStack) -> InterruptStack>(
    cpu: &mut Cpu,
    regs: &mut Registers,
    stack: &mut Vec<u64>,
    at: HardwareFrame,
    handler: F,
) -> (left: InterruptStack)
    requires
        old(cpu).idtr.is_some(),
        old(cpu).interrupts,
        handler.requires((InterruptStack::of(*old(regs), interrupted(*old(cpu), at)),)),
    ensures
        handler.ensures((InterruptStack::of(*old(regs), interrupted(*old(cpu), at)),), left),
        *final(regs) == left.registers(),
        final(stack)@ == old(stack)@,
        *final(cpu) == old(cpu).with_interrupts(left.rflags.bit(INTERRUPT_FLAG as int)),
        left == InterruptStack::of(*old(regs), interrupted(*old(cpu), at)) ==> *final(regs) == *old(
            regs,
        ) && *final(cpu) == *old(cpu),
{
    raise(cpu, stack, at, None);
    proof {
        lemma_interrupt_returns(*old(cpu), *old(regs), at, old(stack)@);
    }
    let left = interrupt(regs, stack, handler);
    let resumed = iretq(cpu, stack);
    proof {
        assert(resumed.pushed() =~= left.resumes_at().pushed());
        assert(resumed.rflags == left.resumes_at().pushed()[2]);
    }
    left
}

/// An interrupt whose handler leaves the frame alone returns to the
/// interrupted code: the words that the processor pushes are read back as
/// the place of the interruption, the frame that the handler sees is read
/// back as the registers, the stack below the pushed words is untouched, and
/// the interrupt flag that the processor restores is the one that it
/// recorded. Where the flags of the interrupted code say what the processor
/// does, that it accepts interrupts or does not, the place that is
/// recorded is the place of the interruption itself.
pub proof fn lemma_interrupt_returns(cpu: Cpu, regs: Registers, at: HardwareFrame, stack: Seq<u64>)
    ensures
        ({
            let pushed = stack + interrupted(cpu, at).pushed();
            &&& recorded(pushed) == interrupted(cpu, at)
            &&& pushed.take(pushed.len() - 5) == stack
            &&& InterruptStack::of(regs, recorded(pushed)).registers() == regs
            &&& InterruptStack::of(regs, recorded(pushed)).resumes_at() == interrupted(cpu, at)
            &&& interrupted(cpu, at).rflags.bit(INTERRUPT_FLAG as int) == cpu.interrupts
            &&& at.rflags.bit(INTERRUPT_FLAG as int) == cpu.interrupts ==> interrupted(cpu, at)
                == at
        }),
{
    let pushed = stack + interrupted(cpu, at).pushed();
    assert(pushed.take(pushed.len() - 5) =~= stack);
    lemma_with_interrupt_flag(at.rflags, cpu.interrupts);
    if at.rflags.bit(INTERRUPT_FLAG as int) == cpu.interrupts {
        <u64 as BitField>::lemma_bits_determine(
            with_interrupt_flag(at.rflags, cpu.interrupts),
            at.rflags,
        );
    }
}

} // verus!
