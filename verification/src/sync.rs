//! The synchronisation primitives of the kernel: a cell that is filled
//! once, a spinlock, and the singletons built from the two.

pub mod init;
pub mod mutex;

pub use init::{Once, OnceState};
pub use mutex::{CriticalMutexGuard, Mutex, MutexGuard};

use vstd::prelude::*;

verus! {

/// A type of which the kernel keeps a single instance behind a mutex, built
/// when it is first asked for.
///
/// The instance lives in a cell that the caller owns. Whoever asks first
/// causes the construction; the order in which the singletons of a kernel
/// come to life is therefore the order in which its start-up code asks for
/// them.
pub trait Global: Sized {
    /// The mutex around the single instance, which is constructed first if
    /// `cell` is empty. A filled cell hands out the instance that it holds.
    /// Each singleton says for itself what a new instance is.
    fn global(cell: &mut Once<Mutex<Self>>) -> (instance: &mut Mutex<Self>)
        requires
            old(cell).wf(),
            old(cell).state() != OnceState::Running,
        ensures
            old(cell).state() == OnceState::Finished ==> Some(*instance) == old(cell).value(),
            final(cell).state() == OnceState::Finished,
            final(cell).value() == Some(*final(instance)),
            final(cell).wf(),
    ;
}

/// However the first calls of [`Global::global`] by several callers
/// interleave on an empty cell, one instance is constructed, by the one
/// caller whose claim of the cell succeeded, and every caller that has
/// returned holds that instance. The callers step as those of a
/// [`init::Race`] do, and `built` names what the constructor of each of them
/// returns if it runs.
pub proof fn lemma_global_built_once<T>(built: Seq<Mutex<T>>, schedule: Seq<int>, a: int, b: int)
    requires
        0 <= a < built.len(),
        0 <= b < built.len(),
    ensures
        ({
            let race = init::Race::<Mutex<T>>::start(built).run(schedule);
            &&& race.runs() <= 1
            &&& (race.callers[a] matches init::Caller::Done(x) ==> {
                &&& race.runs() == 1
                &&& race.owner == Some(race.ran[0])
                &&& x == built[race.ran[0]]
                &&& (race.callers[b] matches init::Caller::Done(y) ==> y == x)
            })
        }),
{
    init::lemma_once_under_any_schedule(built, schedule, Seq::empty(), a, b);
}

} // verus!
