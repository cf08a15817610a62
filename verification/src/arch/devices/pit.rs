//! The Intel 8253 interval timer.

use crate::io::{Port, PortOp};
use crate::sync::init::{lemma_once_under_any_schedule, Caller, Race};
use crate::sync::{Once, OnceState};
use vstd::prelude::*;

verus! {

/// The rate at which the timer counts, in cycles per second.
pub const INPUT_FREQUENCY: u32 = 1193180;

pub const PIT_CMD: u16 = 0x43;

pub const PIT_DATA: u16 = 0x40;

/// Intel 8253 programmable interval timer.
pub struct Intel8253 {
    /// Filled once the timer has been programmed.
    pub programmed: Once<()>,
    /// The port accesses that have been decided and not yet carried out.
    pub queue: Vec<PortOp>,
}

/// The accesses that make the first counter of the timer raise `frequency`
/// interrupts a second: the mode, then the low and the high byte of the
/// number of cycles between two interrupts, each of the three followed by a
/// read of the same port but the last.
pub open spec fn timer_setup(frequency: u32) -> Seq<PortOp> {
    let divisor = INPUT_FREQUENCY / frequency;
    seq![
        PortOp::Out8(PIT_CMD, 0x34),
        PortOp::In8(PIT_CMD),
        PortOp::Out8(PIT_DATA, (divisor % 0x100) as u8),
        PortOp::In8(PIT_DATA),
        PortOp::Out8(PIT_DATA, ((divisor / 0x100) % 0x100) as u8),
    ]
}

proof fn lemma_divisor_bytes(divisor: u32)
    by (bit_vector)
    ensures
        (divisor & 0xFF) == divisor % 0x100,
        ((divisor >> 8) as u8) == (divisor / 0x100) % 0x100,
        (divisor & 0xFF) < 0x100,
{
}

impl Intel8253 {
    /// The timer is either untouched or programmed.
    pub open spec fn wf(self) -> bool {
        self.programmed.wf() && self.programmed.state() != OnceState::Running
    }

    /// The queue after a call of [`init`](Intel8253::init) with `frequency`:
    /// the accesses that program the timer are added if it was not
    /// programmed before.
    pub open spec fn queue_after_init(self, frequency: u32) -> Seq<PortOp> {
        if self.programmed.state() == OnceState::Empty {
            self.queue@ + timer_setup(frequency)
        } else {
            self.queue@
        }
    }

    /// A timer that has not been programmed.
    pub fn new() -> (timer: Intel8253)
        ensures
            timer.wf(),
            timer.programmed.state() == OnceState::Empty,
            timer.queue@.len() == 0,
    {
        Intel8253 { programmed: Once::new(), queue: Vec::new() }
    }

    /// Program the timer to raise `frequency` interrupts a second. Only the
    /// first call does so, and the frequency has to be above zero for it;
    /// every later call leaves the timer alone, whatever the frequency.
    pub fn init(&mut self, frequency: u32)
        requires
            old(self).wf(),
            old(self).programmed.state() == OnceState::Empty ==> frequency > 0,
        ensures
            final(self).wf(),
            final(self).programmed == old(self).programmed.filled(()),
            final(self).queue@ == old(self).queue_after_init(frequency),
    {
        if let OnceState::Empty = self.programmed.current() {
            let divisor: u32 = INPUT_FREQUENCY / frequency;
            proof {
                lemma_divisor_bytes(divisor);
            }

            let mut cmd = Port::<u8>::new(PIT_CMD);
            let mut data = Port::<u8>::new(PIT_DATA);

            self.queue.push(cmd.write(0x34));
            self.queue.push(cmd.read());
            self.queue.push(data.write((divisor & 0xFF) as u8));
            self.queue.push(data.read());
            self.queue.push(data.write(#[verifier::truncate] ((divisor >> 8) as u8)));
            assert(self.queue@ =~= old(self).queue@ + timer_setup(frequency));
        }
        let _ = self.programmed.call_once(|| ());
        proof {
            old(self).programmed.lemma_filled(());
        }
    }

    /// Hand over the accesses that have been queued, in the order in which
    /// they are to be carried out.
    pub fn take_queue(&mut self) -> (ops: Vec<PortOp>)
        ensures
            ops@ == old(self).queue@,
            final(self).queue@.len() == 0,
            final(self).programmed == old(self).programmed,
    {
        let mut ops: Vec<PortOp> = Vec::new();
        core::mem::swap(&mut ops, &mut self.queue);
        ops
    }
}

/// The accesses that the callers of `ran` queue when each of them programs
/// the timer with its own frequency, one after the other.
pub open spec fn programmed_by(ran: Seq<int>, frequencies: Seq<u32>) -> Seq<PortOp>
    decreases ran.len(),
{
    if ran.len() == 0 {
        Seq::empty()
    } else {
        programmed_by(ran.drop_last(), frequencies) + timer_setup(frequencies[ran.last()])
    }
}

/// However the calls of [`Intel8253::init`] by several callers interleave on
/// a timer that is not programmed, the timer is programmed at most once,
/// with the frequency of the one caller whose claim of the cell succeeded,
/// and it has been programmed in full when any of the calls has returned.
/// The callers step as those of a [`Race`] do, and the closure of each
/// queues the accesses for its frequency.
pub proof fn lemma_programmed_once(frequencies: Seq<u32>, schedule: Seq<int>, a: int)
    requires
        0 <= a < frequencies.len(),
    ensures
        ({
            let race = Race::<()>::start(Seq::new(frequencies.len(), |i: int| ())).run(schedule);
            let queued = programmed_by(race.ran, frequencies);
            &&& race.runs() <= 1
            &&& race.runs() == 0 ==> queued == Seq::<PortOp>::empty()
            &&& race.runs() == 1 ==> 0 <= race.ran[0] < frequencies.len() && race.owner == Some(
                race.ran[0],
            ) && queued == timer_setup(frequencies[race.ran[0]])
            &&& (race.callers[a] matches Caller::Done(_) ==> race.runs() == 1)
        }),
{
    let closures = Seq::new(frequencies.len(), |i: int| ());
    lemma_once_under_any_schedule(closures, schedule, Seq::empty(), a, a);
    let race = Race::<()>::start(closures).run(schedule);
    if race.runs() == 1 {
        assert(race.ran.drop_last().len() == 0);
        assert(programmed_by(race.ran.drop_last(), frequencies) =~= Seq::<PortOp>::empty());
        assert(race.ran.last() == race.ran[0]);
        assert(programmed_by(race.ran, frequencies) =~= timer_setup(frequencies[race.ran[0]]));
    }
}

} // verus!
