//! The pair of Intel 8259A interrupt controllers.

use crate::io::{Port, PortOp};
use crate::prelude::bitfield::BitField;
use crate::prelude::unsigned::{lemma_with_bit, with_bit};
use crate::sync::{Global, Mutex, Once, OnceState};
use vstd::prelude::*;

verus! {

pub const PIC1_CMD: u16 = 0x20;

pub const PIC2_CMD: u16 = 0xA0;

pub const PIC1_DATA: u16 = 0x21;

pub const PIC2_DATA: u16 = 0xA2;

/// The line of the first controller at which the second one hangs.
pub const IRQ_SLAVE: u8 = 0x02;

/// The vector of the first interrupt line.
pub const IRQ_ZERO: u8 = 0x20;

/// The mask with which the controllers start: every line masked but the one
/// between the two controllers.
pub const INITIAL_MASK: u16 = 0xFFFB;

/// Intel 8259A Programmable Interrupt Controller.
///
/// A set bit of the mask keeps the line of its number from raising
/// interrupts. The low byte of the mask belongs to the first controller and
/// the high byte to the second.
pub struct Intel8259 {
    pub mask: u16,
    pub data1: Port<u8>,
    pub data2: Port<u8>,
    /// The port accesses that have been decided and not yet carried out.
    pub queue: Vec<PortOp>,
}

/// The accesses that bring the two controllers into use: every line masked,
/// then for each controller the start of the set-up, the vector of its
/// first line, its place in the cascade and its mode, and at last the
/// special mask mode and the choice of the register to read.
pub open spec fn controller_setup() -> Seq<PortOp> {
    seq![
        PortOp::Out8(0x21, 0xFF),
        PortOp::Out8(0xA2, 0xFF),
        PortOp::Out8(0x20, 0x11),
        PortOp::Out8(0x21, 0x20),
        PortOp::Out8(0x21, 0x04),
        PortOp::Out8(0x21, 0x03),
        PortOp::Out8(0xA0, 0x11),
        PortOp::Out8(0xA2, 0x28),
        PortOp::Out8(0xA2, 0x02),
        PortOp::Out8(0xA2, 0x03),
        PortOp::Out8(0x20, 0x68),
        PortOp::Out8(0x20, 0x0A),
        PortOp::Out8(0xA0, 0x68),
        PortOp::Out8(0xA0, 0x0A),
    ]
}

/// The two accesses that tell the controllers of the mask `mask`.
pub open spec fn mask_writes(mask: u16) -> Seq<PortOp> {
    seq![
        PortOp::Out8(PIC1_DATA, (mask % 0x100) as u8),
        PortOp::Out8(PIC2_DATA, (mask / 0x100) as u8),
    ]
}

proof fn lemma_mask_bytes(mask: u16)
    by (bit_vector)
    ensures
        (mask & 0x00FF) == mask % 0x100,
        (mask >> 8) == mask / 0x100,
        (mask & 0x00FF) < 0x100,
        (mask >> 8) < 0x100,
{
}

impl Intel8259 {
    /// The data ports are those of the two controllers.
    pub open spec fn wf(self) -> bool {
        self.data1.port == PIC1_DATA && self.data2.port == PIC2_DATA
    }

    /// The controllers as they are constructed, with the accesses queued
    /// that bring them into use.
    pub fn default() -> (pic: Intel8259)
        ensures
            pic.wf(),
            pic.mask == INITIAL_MASK,
            pic.queue@ == controller_setup(),
    {
        let mut data1 = Port::<u8>::new(PIC1_DATA);
        let mut data2 = Port::<u8>::new(PIC2_DATA);
        let mut cmd1 = Port::<u8>::new(PIC1_CMD);
        let mut cmd2 = Port::<u8>::new(PIC2_CMD);
        let mut queue: Vec<PortOp> = Vec::new();

        queue.push(data1.write(0xFF));
        queue.push(data2.write(0xFF));

        // Setup master 8259A
        queue.push(cmd1.write(0x11));

        // set IRQ vector offset
        // 0x20 is IRQ zero
        queue.push(data1.write(IRQ_ZERO));
        queue.push(data1.write(1 << IRQ_SLAVE));
        queue.push(data1.write(0x03));

        // Setup slave 8259A-2
        queue.push(cmd2.write(0x11));
        queue.push(data2.write(IRQ_ZERO + 8));
        queue.push(data2.write(IRQ_SLAVE));
        queue.push(data2.write(0x03));

        queue.push(cmd1.write(0x68));
        queue.push(cmd1.write(0x0A));
        queue.push(cmd2.write(0x68));
        queue.push(cmd2.write(0x0A));

        proof {
            assert(1u8 << 2u8 == 4u8) by (bit_vector);
            assert(0xFFFFu16 & !(1u16 << 2u8) == 0xFFFBu16) by (bit_vector);
            assert(queue@ =~= controller_setup());
        }
        Intel8259 { mask: 0xFFFF & !(1 << IRQ_SLAVE), data1, data2, queue }
    }

    /// Remember `mask` and queue the accesses that tell the controllers of
    /// it, the low byte first.
    pub fn set_mask(&mut self, mask: u16)
        requires
            old(self).wf(),
        ensures
            final(self).wf(),
            final(self).mask == mask,
            final(self).queue@ == old(self).queue@ + mask_writes(mask),
            final(self).data1 == old(self).data1,
            final(self).data2 == old(self).data2,
    {
        proof {
            lemma_mask_bytes(mask);
        }
        self.mask = mask;
        // write low word
        let low = self.data1.write((mask & 0x00FF) as u8);
        self.queue.push(low);
        // and high word
        let high = self.data2.write((mask >> 8) as u8);
        self.queue.push(high);
        assert(self.queue@ =~= old(self).queue@ + mask_writes(mask));
    }

    /// Let the line `irq` raise interrupts.
    pub fn enable_irq(&mut self, irq: u8)
        requires
            old(self).wf(),
            irq < 16,
        ensures
            final(self).wf(),
            final(self).mask == with_bit(old(self).mask, irq, false),
            !final(self).mask.bit(irq as int),
            forall|i: int| 0 <= i < 16 && i != irq ==> final(self).mask.bit(i) == old(self).mask.bit(i),
            final(self).queue@ == old(self).queue@ + mask_writes(final(self).mask),
    {
        self.set_mask(self.mask & !(1 << irq));
        proof {
            lemma_with_bit(old(self).mask, irq, false);
            assert(self.mask == with_bit(old(self).mask, irq, false));
            assert forall|i: int| 0 <= i < 16 implies self.mask.bit(i) == (i != irq && old(
                self,
            ).mask.bit(i)) by {
                assert(with_bit(old(self).mask, irq, false).bit(i) == (i != irq && old(
                    self,
                ).mask.bit(i)));
            }
        }
    }

    /// Keep the line `irq` from raising interrupts.
    pub fn disable_irq(&mut self, irq: u8)
        requires
            old(self).wf(),
            irq < 16,
        ensures
            final(self).wf(),
            final(self).mask == with_bit(old(self).mask, irq, true),
            final(self).mask.bit(irq as int),
            forall|i: int| 0 <= i < 16 && i != irq ==> final(self).mask.bit(i) == old(self).mask.bit(i),
            final(self).queue@ == old(self).queue@ + mask_writes(final(self).mask),
    {
        self.set_mask(self.mask | (1 << irq));
        proof {
            lemma_with_bit(old(self).mask, irq, true);
            assert(self.mask == with_bit(old(self).mask, irq, true));
            assert forall|i: int| 0 <= i < 16 implies self.mask.bit(i) == (i == irq || old(
                self,
            ).mask.bit(i)) by {
                assert(with_bit(old(self).mask, irq, true).bit(i) == (i == irq || old(
                    self,
                ).mask.bit(i)));
            }
        }
    }

    /// Keep every line from raising interrupts.
    pub fn disable_all(&mut self)
        requires
            old(self).wf(),
        ensures
            final(self).wf(),
            final(self).mask == 0xFFFF,
            final(self).queue@ == old(self).queue@ + mask_writes(0xFFFF),
    {
        self.set_mask(0xFFFF)
    }

    /// Hand over the accesses that have been queued, in the order in which
    /// they are to be carried out.
    pub fn take_queue(&mut self) -> (ops: Vec<PortOp>)
        ensures
            ops@ == old(self).queue@,
            final(self).queue@.len() == 0,
            final(self).mask == old(self).mask,
            final(self).data1 == old(self).data1,
            final(self).data2 == old(self).data2,
    {
        let mut ops: Vec<PortOp> = Vec::new();
        core::mem::swap(&mut ops, &mut self.queue);
        ops
    }
}

impl Intel8259 {
    /// Whether `value` is the controllers as [`Intel8259::default`] constructs
    /// them.
    pub open spec fn initial(value: Self) -> bool {
        value.wf() && value.mask == INITIAL_MASK && value.queue@ == controller_setup()
    }
}

impl Global for Intel8259 {
    /// A new instance is free and [`initial`](Intel8259::initial).
    fn global(cell: &mut Once<Mutex<Self>>) -> (instance: &mut Mutex<Self>)
        ensures
            old(cell).state() == OnceState::Empty ==> !instance.is_locked() && Self::initial(
                instance.data(),
            ),
    {
        cell.call_once(construct)
    }
}

/// The mutex around freshly constructed controllers.
fn construct() -> (m: Mutex<Intel8259>)
    ensures
        !m.is_locked(),
        Intel8259::initial(m.data()),
{
    Mutex::new(Intel8259::default())
}

} // verus!
