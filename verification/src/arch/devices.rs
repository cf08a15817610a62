//! The devices that raise the interrupts of the kernel.

pub mod pic;
pub mod pit;

use crate::sync::mutex::lemma_try_lock_sequence;
use crate::sync::{Global, Mutex, Once, OnceState};
use pic::Intel8259;
use pit::Intel8253;
use vstd::prelude::*;

verus! {

/// The rate, in interrupts per second, that [`init`] asks of the timer.
pub const TICK_FREQUENCY: u32 = 10_000;

/// Bring the interrupt controller and the interval timer into use: the
/// controller is constructed if nobody has asked for it yet, and the timer
/// is programmed unless it was programmed before. Both queue the port
/// accesses that this takes.
pub fn init(controller: &mut Once<Mutex<Intel8259>>, timer: &mut Intel8253)
    requires
        old(controller).wf(),
        old(controller).state() != OnceState::Running,
        old(controller).state() == OnceState::Finished ==> !old(controller).value().unwrap().is_locked(),
        old(timer).wf(),
    ensures
        final(controller).state() == OnceState::Finished,
        match (old(controller).value(), final(controller).value()) {
            (Some(before), Some(after)) => after == before,
            (None, Some(after)) => !after.is_locked() && Intel8259::initial(after.data()),
            _ => false,
        },
        final(timer).wf(),
        final(timer).programmed == old(timer).programmed.filled(()),
        final(timer).queue@ == old(timer).queue_after_init(TICK_FREQUENCY),
{
    let pic = Intel8259::global(controller);
    proof {
        lemma_try_lock_sequence(*pic);
    }
    let guard = pic.lock();
    pic.unlock(guard);
    timer.init(TICK_FREQUENCY);
}

} // verus!
