//! A spinlock that owns what it protects.
//!
//! The kernel runs on one processor and has no scheduler. Code that finds a
//! mutex held has therefore interrupted the holder, and the holder does not
//! run again before that code returns. A [`Mutex`] records this as plain
//! state, the flag and the value, which its operations change through
//! `&mut`. An attempt to take the flag and a read of the flag, each a single
//! instruction of the processor, are single steps here, and [`Acquiring`]
//! says in which order a waiting caller takes them.

use crate::arch::interrupts::{disable, enable};
use crate::arch::Cpu;
use vstd::prelude::*;

verus! {

/// Where a caller that waits for a mutex stands.
///
/// A waiting caller alternates between one atomic attempt to take the flag
/// and, after a failed attempt, reading the flag without writing it until it
/// appears free. A critical acquisition has interrupts off for each attempt
/// and while it holds the mutex, and on while it spins.
#[derive(Clone, Copy, Debug, PartialEq, Eq, Structural)]
pub enum Acquiring {
    /// The caller tries to take the flag in one atomic step.
    Attempt,
    /// The flag was held: the caller reads it until it appears free.
    Spin,
    /// The caller holds the mutex.
    Held,
}

impl Acquiring {
    /// The state after an attempt that found the flag as `held_before`.
    pub open spec fn attempted(held_before: bool) -> Acquiring {
        if held_before {
            Acquiring::Spin
        } else {
            Acquiring::Held
        }
    }

    /// The state after the flag was read as `held` while spinning.
    pub open spec fn observed(held: bool) -> Acquiring {
        if held {
            Acquiring::Spin
        } else {
            Acquiring::Attempt
        }
    }

    /// Whether a critical acquisition has interrupts off in this state.
    pub open spec fn masked(self) -> bool {
        self != Acquiring::Spin
    }

    /// Where the caller stands after an attempt that found the flag as
    /// `held_before`: it holds the mutex if the flag was free, and spins
    /// otherwise.
    pub fn after_attempt(held_before: bool) -> (next: Acquiring)
        ensures
            next == Self::attempted(held_before),
    {
        if held_before {
            Acquiring::Spin
        } else {
            Acquiring::Held
        }
    }

    /// Where the caller stands after it read the flag as `held` while
    /// spinning: it spins on if the flag is held, and attempts again
    /// otherwise.
    pub fn after_read(held: bool) -> (next: Acquiring)
        ensures
            next == Self::observed(held),
    {
        if held {
            Acquiring::Spin
        } else {
            Acquiring::Attempt
        }
    }

    /// Whether a critical acquisition has interrupts off in this state.
    pub fn masks_interrupts(self) -> (off: bool)
        ensures
            off == self.masked(),
    {
        match self {
            Acquiring::Spin => false,
            _ => true,
        }
    }
}

/// Mutual exclusion over one owned value.
///
/// The value is reached through a guard, which only a successful
/// acquisition creates and which the release takes back, so that at most one
/// guard of a mutex is live at any time. A guard names the mutex that it
/// was taken from, and only that mutex accepts it.
pub struct Mutex<T> {
    lock: bool,
    inner: T,
    id: Ghost<int>,
}

/// Witness of an acquisition by [`Mutex::try_lock`] or [`Mutex::lock`].
/// Hand it back with [`Mutex::unlock`] to release the mutex.
pub struct MutexGuard {
    held: (),
    of: Ghost<int>,
}

/// Witness of an acquisition by [`Mutex::try_critical`] or
/// [`Mutex::critical`]: maskable interrupts stay off while it is held. Hand
/// it back with [`Mutex::unlock_critical`], which releases the mutex first
/// and then switches interrupts on.
pub struct CriticalMutexGuard {
    held: (),
    of: Ghost<int>,
}

impl MutexGuard {
    /// The identity of the mutex that the guard was taken from.
    pub closed spec fn mutex(self) -> int {
        self.of@
    }
}

impl CriticalMutexGuard {
    /// The identity of the mutex that the guard was taken from.
    pub closed spec fn mutex(self) -> int {
        self.of@
    }
}

/// An identity for a new mutex. Nothing is said of it, so that no two
/// mutexes are known to share one.
proof fn new_identity() -> (id: int) {
    0
}

impl<T> Mutex<T> {
    /// Whether a guard of this mutex is live.
    pub closed spec fn is_locked(self) -> bool {
        self.lock
    }

    /// The value that the mutex protects.
    pub closed spec fn data(self) -> T {
        self.inner
    }

    /// The identity of the mutex, which it keeps for as long as it lives and
    /// which its guards carry.
    pub closed spec fn id(self) -> int {
        self.id@
    }

    /// The mutex after a successful acquisition, and just as well after a
    /// failed one: held, with the same value.
    pub closed spec fn acquired(self) -> Mutex<T> {
        Mutex { lock: true, inner: self.inner, id: self.id }
    }

    /// The mutex after its release: free, with the same value.
    pub closed spec fn released(self) -> Mutex<T> {
        Mutex { lock: false, inner: self.inner, id: self.id }
    }

    /// What `acquired` and `released` say of the mutex.
    pub proof fn lemma_transitions(self)
        ensures
            self.acquired().is_locked(),
            self.acquired().data() == self.data(),
            self.acquired().id() == self.id(),
            !self.released().is_locked(),
            self.released().data() == self.data(),
            self.released().id() == self.id(),
            self.is_locked() ==> self.acquired() == self,
            !self.is_locked() ==> self.released() == self,
    {
    }

    /// Initialize a new [`Mutex`] wrapping `data`.
    pub fn new(data: T) -> (m: Mutex<T>)
        ensures
            !m.is_locked(),
            m.data() == data,
    {
        let ghost id = new_identity();
        Mutex { inner: data, lock: false, id: Ghost(id) }
    }

    /// Whether a guard of this mutex is live.
    pub fn locked(&self) -> (held: bool)
        ensures
            held == self.is_locked(),
    {
        self.lock
    }

    /// Consume the [`Mutex`], returning the interior data.
    pub fn into_inner(self) -> (data: T)
        ensures
            data == self.data(),
    {
        self.inner
    }

    /// Set the flag to `new` if it holds `current`, in one step, and return
    /// what it held before.
    fn compare_and_swap(&mut self, current: bool, new: bool) -> (previous: bool)
        ensures
            previous == old(self).lock,
            final(self).inner == old(self).inner,
            final(self).id == old(self).id,
            final(self).lock == if old(self).lock == current {
                new
            } else {
                old(self).lock
            },
    {
        let previous = self.lock;
        if previous == current {
            self.lock = new;
        }
        previous
    }

    /// Spin until the lock is acquired. Nothing else runs while this
    /// function waits, so it returns only from a mutex that is free: there
    /// the first attempt succeeds.
    fn acquire(&mut self)
        requires
            !old(self).is_locked(),
        ensures
            *final(self) == old(self).acquired(),
    {
        let state = Acquiring::after_attempt(self.compare_and_swap(false, true));
        assert(state == Acquiring::Held);
    }

    /// Release the [`Mutex`]. Only the code that hands a guard back does
    /// so.
    fn release(&mut self)
        ensures
            *final(self) == old(self).released(),
    {
        self.lock = false;
    }

    /// Forcefully obtain a mutable reference to the interior data,
    /// regardless of whether the [`Mutex`] is currently locked. This is for
    /// code that has to write while the holder can no longer release, such
    /// as a panic handler: it bypasses the exclusion that the guards stand
    /// for.
    pub fn force(&mut self) -> (data: &mut T)
        ensures
            *data == old(self).data(),
            final(self).data() == *final(data),
            final(self).is_locked() == old(self).is_locked(),
            final(self).id() == old(self).id(),
    {
        &mut self.inner
    }

    /// Attempt to lock the `Mutex`, returning a new [`MutexGuard`] if the
    /// [`Mutex`] was successfully locked by the caller. The guard is one of
    /// this mutex.
    ///
    /// This function will not block.
    pub fn try_lock(&mut self) -> (guard: Option<MutexGuard>)
        ensures
            guard.is_some() == !old(self).is_locked(),
            guard matches Some(g) ==> g.mutex() == old(self).id(),
            *final(self) == old(self).acquired(),
            final(self).is_locked(),
            final(self).data() == old(self).data(),
            final(self).id() == old(self).id(),
    {
        // If lock was not held we just acquired it
        if self.compare_and_swap(false, true) == false {
            Some(MutexGuard { held: (), of: self.id })
        } else {
            None
        }
    }

    /// Block until the [`Mutex`] can be locked. Nothing else runs while
    /// this function waits, so it returns only from a mutex that is free.
    /// The guard is one of this mutex.
    pub fn lock(&mut self) -> (guard: MutexGuard)
        requires
            !old(self).is_locked(),
        ensures
            guard.mutex() == old(self).id(),
            *final(self) == old(self).acquired(),
            final(self).is_locked(),
            final(self).data() == old(self).data(),
            final(self).id() == old(self).id(),
    {
        match self.try_lock() {
            Some(guard) => guard,
            None => {
                self.acquire();
                MutexGuard { held: (), of: self.id }
            },
        }
    }

    /// Release the mutex that `guard` holds, which has to be this one.
    pub fn unlock(&mut self, guard: MutexGuard)
        requires
            old(self).is_locked(),
            guard.mutex() == old(self).id(),
        ensures
            *final(self) == old(self).released(),
            !final(self).is_locked(),
            final(self).data() == old(self).data(),
            final(self).id() == old(self).id(),
    {
        let MutexGuard { held: _, of: _ } = guard;
        self.release();
    }

    /// The protected value, read through a guard of this mutex.
    pub fn get(&self, guard: &MutexGuard) -> (data: &T)
        requires
            self.is_locked(),
            guard.mutex() == self.id(),
        ensures
            *data == self.data(),
    {
        &self.inner
    }

    /// The protected value, to change through a guard of this mutex.
    pub fn get_mut(&mut self, guard: &mut MutexGuard) -> (data: &mut T)
        requires
            old(self).is_locked(),
            old(guard).mutex() == old(self).id(),
        ensures
            *data == old(self).data(),
            final(self).data() == *final(data),
            final(self).is_locked(),
            final(self).id() == old(self).id(),
            final(guard).mutex() == old(guard).mutex(),
    {
        &mut self.inner
    }

    /// Attempt to lock the [`Mutex`] with interrupts off, returning a new
    /// [`CriticalMutexGuard`] of this mutex if the [`Mutex`] was successfully
    /// locked by the caller.
    ///
    /// Interrupts are switched off before the attempt. They stay off if it
    /// succeeds, and are switched on if it fails, for which a descriptor
    /// table has to be loaded.
    ///
    /// This function will not block.
    pub fn try_critical(&mut self, cpu: &mut Cpu) -> (guard: Option<CriticalMutexGuard>)
        requires
            old(self).is_locked() ==> old(cpu).idtr.is_some(),
        ensures
            guard.is_some() == !old(self).is_locked(),
            guard matches Some(g) ==> g.mutex() == old(self).id(),
            *final(self) == old(self).acquired(),
            final(self).is_locked(),
            final(self).data() == old(self).data(),
            final(self).id() == old(self).id(),
            *final(cpu) == old(cpu).with_interrupts(old(self).is_locked()),
    {
        disable(cpu);
        if self.compare_and_swap(false, true) == false {
            Some(CriticalMutexGuard { held: (), of: self.id })
        } else {
            enable(cpu);
            None
        }
    }

    /// Block until the [`Mutex`] can be locked with interrupts off. Nothing
    /// else runs while this function waits, so it returns only from a mutex
    /// that is free. The guard is one of this mutex.
    pub fn critical(&mut self, cpu: &mut Cpu) -> (guard: CriticalMutexGuard)
        requires
            !old(self).is_locked(),
        ensures
            guard.mutex() == old(self).id(),
            *final(self) == old(self).acquired(),
            final(self).is_locked(),
            final(self).data() == old(self).data(),
            final(self).id() == old(self).id(),
            *final(cpu) == old(cpu).with_interrupts(false),
    {
        match self.try_critical(cpu) {
            Some(guard) => guard,
            None => {
                // Each further attempt is made with interrupts off as well.
                disable(cpu);
                self.acquire();
                CriticalMutexGuard { held: (), of: self.id }
            },
        }
    }

    /// Release the mutex that `guard` holds, which has to be this one, then
    /// switch interrupts on.
    pub fn unlock_critical(&mut self, cpu: &mut Cpu, guard: CriticalMutexGuard)
        requires
            old(self).is_locked(),
            guard.mutex() == old(self).id(),
            old(cpu).idtr.is_some(),
        ensures
            *final(self) == old(self).released(),
            !final(self).is_locked(),
            final(self).data() == old(self).data(),
            final(self).id() == old(self).id(),
            *final(cpu) == old(cpu).with_interrupts(true),
    {
        let CriticalMutexGuard { held: _, of: _ } = guard;
        self.release();
        enable(cpu);
    }

    /// The protected value, read through a critical guard of this mutex.
    pub fn get_critical(&self, guard: &CriticalMutexGuard) -> (data: &T)
        requires
            self.is_locked(),
            guard.mutex() == self.id(),
        ensures
            *data == self.data(),
    {
        &self.inner
    }

    /// The protected value, to change through a critical guard of this
    /// mutex.
    pub fn get_critical_mut(&mut self, guard: &mut CriticalMutexGuard) -> (data: &mut T)
        requires
            old(self).is_locked(),
            old(guard).mutex() == old(self).id(),
        ensures
            *data == old(self).data(),
            final(self).data() == *final(data),
            final(self).is_locked(),
            final(self).id() == old(self).id(),
            final(guard).mutex() == old(guard).mutex(),
    {
        &mut self.inner
    }
}

impl<T> From<T> for Mutex<T> {
    /// Creates a new mutex in an unlocked state ready for use.
    /// This is equivalent to [`Mutex::new`].
    fn from(t: T) -> (m: Self)
        ensures
            !m.is_locked(),
            m.data() == t,
    {
        Mutex::new(t)
    }
}

impl<T> vstd::std_specs::convert::FromSpecImpl<T> for Mutex<T> {
    /// A new mutex has an identity of its own, so that the value that it
    /// wraps does not determine it.
    open spec fn obeys_from_spec() -> bool {
        false
    }

    open spec fn from_spec(t: T) -> Self {
        arbitrary()
    }
}

impl<T: Default> Default for Mutex<T> {
    /// Creates a `Mutex<T>`, with the `Default` value for T.
    fn default() -> (m: Mutex<T>)
        ensures
            !m.is_locked(),
            T::default.ensures((), m.data()),
    {
        Mutex::new(Default::default())
    }
}

/// Of two attempts to lock a free mutex with no release between them, the
/// first succeeds and the second fails; once the guard of the first is
/// handed back, the next attempt succeeds again. The protected value is the
/// same throughout.
///
/// [`Mutex::try_lock`] succeeds exactly on a mutex that is not locked,
/// leaves the mutex [`acquired`](Mutex::acquired) either way, and
/// [`Mutex::unlock`] leaves it [`released`](Mutex::released).
pub proof fn lemma_try_lock_sequence<T>(free: Mutex<T>)
    requires
        !free.is_locked(),
    ensures
        ({
            let first = free.acquired();
            let second = first.acquired();
            let dropped = second.released();
            &&& first.is_locked()
            &&& second == first
            &&& !dropped.is_locked()
            &&& dropped.data() == free.data()
            &&& dropped == free
        }),
{
    free.lemma_transitions();
    free.acquired().lemma_transitions();
    free.acquired().acquired().lemma_transitions();
}

/// A critical guard that is acquired with interrupts on keeps them off from
/// its acquisition to its release, and the release restores the state from
/// before the acquisition.
///
/// The acquisition leaves the processor as `before.with_interrupts(false)`
/// and the release turns that into `with_interrupts(true)`. A processor that
/// accepted interrupts before the acquisition has been told of a descriptor
/// table, which is what the release asks for. Where interrupts were off
/// before the acquisition, the release switches them on all the same.
pub proof fn lemma_critical_guard_restores(before: Cpu)
    requires
        before.wf(),
        before.interrupts,
    ensures
        !before.with_interrupts(false).interrupts,
        before.with_interrupts(false).wf(),
        before.with_interrupts(false).idtr.is_some(),
        before.with_interrupts(false).with_interrupts(true) == before,
{
}

/// What happens to a mutex that the interrupted code shares with a
/// handler.
pub enum Event {
    /// The interrupted code acquires the mutex, with
    /// [`critical`](Mutex::critical) or with [`lock`](Mutex::lock).
    Acquire { critical: bool },
    /// The interrupted code hands its guard back.
    Release,
    /// An interrupt arrives. Its handler locks the mutex, releases it and
    /// returns, if it gets that far.
    Interrupt,
}

/// A mutex that the interrupted code shares with a handler, and the
/// processor that runs both.
pub struct Shared<T> {
    pub mutex: Mutex<T>,
    pub cpu: Cpu,
    /// The guard that the interrupted code holds, by whether it is a
    /// critical one.
    pub guard: Option<bool>,
    /// Whether a handler waits for the mutex, which the code that it has
    /// interrupted holds and cannot release while the handler runs.
    pub stuck: bool,
}

impl<T> Shared<T> {
    /// A free mutex on a processor that accepts interrupts.
    pub open spec fn start(mutex: Mutex<T>, cpu: Cpu) -> Shared<T> {
        Shared { mutex: mutex.released(), cpu: cpu.with_interrupts(true), guard: None, stuck: false }
    }

    /// The state after `event`. Nothing happens any more once a handler is
    /// stuck. The processor takes an interrupt only while it accepts them,
    /// and returns from it to the state in which it took it.
    pub open spec fn step(self, event: Event) -> Shared<T> {
        if self.stuck {
            self
        } else {
            match event {
                Event::Acquire { critical } => if self.guard.is_some() {
                    self
                } else {
                    Shared {
                        mutex: self.mutex.acquired(),
                        cpu: if critical {
                            self.cpu.with_interrupts(false)
                        } else {
                            self.cpu
                        },
                        guard: Some(critical),
                        stuck: false,
                    }
                },
                Event::Release => match self.guard {
                    Some(critical) => Shared {
                        mutex: self.mutex.released(),
                        cpu: if critical {
                            self.cpu.with_interrupts(true)
                        } else {
                            self.cpu
                        },
                        guard: None,
                        stuck: false,
                    },
                    None => self,
                },
                Event::Interrupt => if !self.cpu.interrupts {
                    self
                } else if self.mutex.is_locked() {
                    Shared { stuck: true, ..self }
                } else {
                    self
                },
            }
        }
    }

    /// The state after the events of `events` in order.
    pub open spec fn run(self, events: Seq<Event>) -> Shared<T>
        decreases events.len(),
    {
        if events.len() == 0 {
            self
        } else {
            self.run(events.drop_last()).step(events.last())
        }
    }

    /// While the interrupted code holds the mutex, interrupts are off.
    pub open spec fn safe(self) -> bool {
        &&& !self.stuck
        &&& self.mutex.is_locked() == self.guard.is_some()
        &&& self.guard.is_some() ==> !self.cpu.interrupts
    }
}

/// Code that shares a mutex with a handler and takes it only with
/// [`critical`](Mutex::critical) never leaves a handler stuck: the mutex is
/// held only while interrupts are off, so that no handler runs while it is
/// held.
pub proof fn lemma_critical_sharing_never_sticks<T>(mutex: Mutex<T>, cpu: Cpu, events: Seq<Event>)
    requires
        forall|i: int|
            0 <= i < events.len() ==> (#[trigger] events[i] matches Event::Acquire { critical }
                ==> critical),
    ensures
        Shared::start(mutex, cpu).run(events).safe(),
    decreases events.len(),
{
    mutex.lemma_transitions();
    if events.len() > 0 {
        lemma_critical_sharing_never_sticks(mutex, cpu, events.drop_last());
        let before = Shared::start(mutex, cpu).run(events.drop_last());
        before.mutex.lemma_transitions();
        assert(events.last() == events[events.len() - 1]);
    }
}

/// Code that takes the mutex with [`lock`](Mutex::lock) while interrupts are
/// on can be interrupted while it holds it, and the handler is stuck then.
pub proof fn lemma_plain_sharing_can_stick<T>(mutex: Mutex<T>, cpu: Cpu)
    ensures
        Shared::start(mutex, cpu).step(Event::Acquire { critical: false }).step(
            Event::Interrupt,
        ).stuck,
{
    mutex.lemma_transitions();
    mutex.released().lemma_transitions();
}

} // verus!
