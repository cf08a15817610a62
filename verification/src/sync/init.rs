//! A cell whose value is computed by the first caller and which no later
//! caller fills again.
//!
//! [`Once`] is the cell as one caller at a time sees it. What each caller
//! does with the state that it reads is decided by [`OnceState`], and
//! [`Race`] lets any number of callers take those decisions in any
//! interleaving, one access to the cell at a time.

use vstd::prelude::*;

verus! {

/// How far the initialisation of a [`Once`] has come.
#[derive(Clone, Copy, Debug, PartialEq, Eq, Structural)]
pub enum OnceState {
    /// Nobody has started to compute the value.
    Empty,
    /// One caller computes the value; the others wait for it.
    Running,
    /// The value is there.
    Finished,
}

/// What a caller of [`Once::call_once`] does next.
#[derive(Clone, Copy, Debug, PartialEq, Eq, Structural)]
pub enum OnceAction {
    /// Try to move the state from `Empty` to `Running` in one atomic step.
    Claim,
    /// Compute the value, store it, and then publish `Finished`.
    Initialize,
    /// Read the state again.
    Wait,
    /// Return the stored value.
    Ready,
}

/// The word that stands for [`OnceState::Empty`] in the cell.
pub const EMPTY: usize = 0;

/// The word that stands for [`OnceState::Running`] in the cell.
pub const RUNNING: usize = 1;

/// The word that stands for [`OnceState::Finished`] in the cell.
pub const FINISH: usize = 2;

impl OnceState {
    /// The word that stands for this state in the cell.
    pub open spec fn spec_code(self) -> usize {
        match self {
            OnceState::Empty => EMPTY,
            OnceState::Running => RUNNING,
            OnceState::Finished => FINISH,
        }
    }

    /// The word that stands for this state in the cell.
    #[verifier::when_used_as_spec(spec_code)]
    pub fn code(self) -> (word: usize)
        ensures
            word == self.spec_code(),
    {
        match self {
            OnceState::Empty => EMPTY,
            OnceState::Running => RUNNING,
            OnceState::Finished => FINISH,
        }
    }

    /// The state that `word` stands for, if it stands for one.
    pub fn from_code(word: usize) -> (state: Option<OnceState>)
        ensures
            state matches Some(s) ==> s.code() == word,
            state.is_none() ==> word > FINISH,
    {
        if word == EMPTY {
            Some(OnceState::Empty)
        } else if word == RUNNING {
            Some(OnceState::Running)
        } else if word == FINISH {
            Some(OnceState::Finished)
        } else {
            None
        }
    }

    /// The action of a caller that has just read this state for the first
    /// time.
    pub open spec fn loaded(self) -> OnceAction {
        match self {
            OnceState::Empty => OnceAction::Claim,
            OnceState::Running => OnceAction::Wait,
            OnceState::Finished => OnceAction::Ready,
        }
    }

    /// The action of a caller whose attempt to claim the cell found this
    /// state in it: the attempt succeeded exactly if the cell was `Empty`.
    pub open spec fn claimed(self) -> OnceAction {
        match self {
            OnceState::Empty => OnceAction::Initialize,
            OnceState::Running => OnceAction::Wait,
            OnceState::Finished => OnceAction::Ready,
        }
    }

    /// The action of a caller that waited and has read this state.
    pub open spec fn waited(self) -> OnceAction
        recommends
            self != OnceState::Empty,
    {
        match self {
            OnceState::Finished => OnceAction::Ready,
            _ => OnceAction::Wait,
        }
    }

    /// What to do after the first read of the state.
    #[verifier::when_used_as_spec(loaded)]
    pub fn after_load(self) -> (action: OnceAction)
        ensures
            action == self.loaded(),
    {
        match self {
            OnceState::Empty => OnceAction::Claim,
            OnceState::Running => OnceAction::Wait,
            OnceState::Finished => OnceAction::Ready,
        }
    }

    /// What to do after an attempt to claim the cell, `self` being the state
    /// that the attempt found.
    #[verifier::when_used_as_spec(claimed)]
    pub fn after_claim(self) -> (action: OnceAction)
        ensures
            action == self.claimed(),
    {
        match self {
            OnceState::Empty => OnceAction::Initialize,
            OnceState::Running => OnceAction::Wait,
            OnceState::Finished => OnceAction::Ready,
        }
    }

    /// What to do after another read of the state while waiting. A cell that
    /// somebody claimed is never seen empty again.
    #[verifier::when_used_as_spec(waited)]
    pub fn after_wait(self) -> (action: OnceAction)
        requires
            self != OnceState::Empty,
        ensures
            action == self.waited(),
    {
        match self {
            OnceState::Finished => OnceAction::Ready,
            _ => OnceAction::Wait,
        }
    }
}

/// A cell that holds nothing until the first call of [`call_once`] fills it.
/// No later call fills it again: every call hands out the value that the
/// first one stored.
///
/// The value is handed out by `&mut`, because the singletons that the cell
/// holds change their state through `&mut`. The cell itself never replaces
/// its value, but whoever holds the reference can, and the next caller finds
/// what that code left: it is on the callers not to assign through the
/// reference.
///
/// [`call_once`]: Once::call_once
pub struct Once<T> {
    state: OnceState,
    inner: Option<T>,
}

impl<T> Once<T> {
    /// How far the initialisation has come.
    pub closed spec fn state(self) -> OnceState {
        self.state
    }

    /// The stored value, if there is one.
    pub closed spec fn value(self) -> Option<T> {
        self.inner
    }

    /// The value is there exactly when the state says so.
    pub open spec fn wf(self) -> bool {
        (self.state() == OnceState::Finished) == self.value().is_some()
    }

    /// The cell once it holds `value`.
    pub closed spec fn filled(self, value: T) -> Once<T> {
        Once { state: OnceState::Finished, inner: Some(value) }
    }

    /// What `filled` says of the cell, and that a filled cell is determined
    /// by its value.
    pub proof fn lemma_filled(self, value: T)
        ensures
            self.filled(value).state() == OnceState::Finished,
            self.filled(value).value() == Some(value),
            self.filled(value).wf(),
            self.state() == OnceState::Finished && self.value() == Some(value) ==> self
                == self.filled(value),
    {
    }

    /// An empty cell.
    pub fn new() -> (cell: Once<T>)
        ensures
            cell.state() == OnceState::Empty,
            cell.value().is_none(),
            cell.wf(),
    {
        Once { state: OnceState::Empty, inner: None }
    }

    /// How far the initialisation has come.
    pub fn current(&self) -> (state: OnceState)
        ensures
            state == self.state(),
    {
        self.state
    }

    /// The stored value. The cell has to be filled.
    pub fn get(&self) -> (value: &T)
        requires
            self.state() == OnceState::Finished,
            self.wf(),
        ensures
            self.value() == Some(*value),
    {
        self.inner.as_ref().unwrap()
    }

    /// Set the state to `new` if it is `current`, in one step, and return
    /// what it was before.
    fn compare_and_swap(&mut self, current: OnceState, new: OnceState) -> (previous: OnceState)
        ensures
            previous == old(self).state,
            final(self).inner == old(self).inner,
            final(self).state == if old(self).state == current {
                new
            } else {
                old(self).state
            },
    {
        let previous = self.state;
        if previous == current {
            self.state = new;
        }
        previous
    }

    /// Return the value of the cell, computing it with `func` if the cell is
    /// empty. A filled cell keeps its value and `func` is not called. The
    /// cell holds afterwards whatever the caller leaves behind the reference
    /// that it gets.
    ///
    /// A caller that finds the cell `Running` would wait for the value
    /// without end, because nothing else can run while it waits: that state
    /// is left out.
    pub fn call_once<F: FnOnce() -> T>(&mut self, func: F) -> (value: &mut T)
        requires
            old(self).wf(),
            old(self).state() != OnceState::Running,
            old(self).state() == OnceState::Empty ==> func.requires(()),
        ensures
            old(self).state() == OnceState::Finished ==> Some(*value) == old(self).value(),
            old(self).state() == OnceState::Empty ==> func.ensures((), *value),
            final(self).state() == OnceState::Finished,
            final(self).value() == Some(*final(value)),
            *final(self) == old(self).filled(*final(value)),
    {
        let mut action = self.state.after_load();
        if let OnceAction::Claim = action {
            let found = self.compare_and_swap(OnceState::Empty, OnceState::Running);
            action = found.after_claim();
        }
        if let OnceAction::Initialize = action {
            self.inner = Some(func());
            self.state = OnceState::Finished;
        }
        self.inner.as_mut().unwrap()
    }
}

/// Where one of several concurrent callers of [`Once::call_once`] stands.
pub enum Caller<T> {
    /// The caller has not read the state yet.
    Start,
    /// The caller is about to take the given action.
    Next(OnceAction),
    /// The caller has stored the value and is about to publish `Finished`.
    Publish,
    /// The caller has returned the given value.
    Done(T),
    /// The caller has found the cell in a state that the protocol rules
    /// out.
    Failed,
}

/// A cell together with the callers that race to fill it. Each caller
/// brings a closure, each step of a caller is one access to the cell, and
/// the steps of different callers interleave in any order.
pub struct Race<T> {
    /// The state word of the cell.
    pub state: OnceState,
    /// The payload of the cell.
    pub inner: Option<T>,
    /// What the closure of each caller returns if it runs.
    pub closures: Seq<T>,
    /// The callers whose closures have run, in the order in which they ran.
    pub ran: Seq<int>,
    /// The caller whose claim succeeded, if any did.
    pub owner: Option<int>,
    /// Where each caller stands.
    pub callers: Seq<Caller<T>>,
}

impl<T> Race<T> {
    /// An empty cell and one caller for each closure of `closures`, none of
    /// whom has begun.
    pub open spec fn start(closures: Seq<T>) -> Race<T> {
        Race {
            state: OnceState::Empty,
            inner: None,
            closures,
            ran: Seq::empty(),
            owner: None,
            callers: Seq::new(closures.len(), |i: int| Caller::Start),
        }
    }

    /// How many closures have run.
    pub open spec fn runs(self) -> nat {
        self.ran.len()
    }

    /// The race after caller `who` has taken its next step.
    pub open spec fn step(self, who: int) -> Race<T> {
        if !(0 <= who < self.callers.len()) {
            self
        } else {
            match self.callers[who] {
                Caller::Start => Race {
                    callers: self.callers.update(who, Caller::Next(self.state.loaded())),
                    ..self
                },
                Caller::Next(OnceAction::Claim) => Race {
                    state: if self.state == OnceState::Empty {
                        OnceState::Running
                    } else {
                        self.state
                    },
                    owner: if self.state == OnceState::Empty {
                        Some(who)
                    } else {
                        self.owner
                    },
                    callers: self.callers.update(who, Caller::Next(self.state.claimed())),
                    ..self
                },
                Caller::Next(OnceAction::Initialize) => Race {
                    inner: Some(self.closures[who]),
                    ran: self.ran.push(who),
                    callers: self.callers.update(who, Caller::Publish),
                    ..self
                },
                Caller::Publish => Race {
                    state: OnceState::Finished,
                    callers: self.callers.update(
                        who,
                        match self.inner {
                            Some(value) => Caller::Done(value),
                            None => Caller::Failed,
                        },
                    ),
                    ..self
                },
                Caller::Next(OnceAction::Wait) => Race {
                    callers: self.callers.update(
                        who,
                        if self.state == OnceState::Empty {
                            Caller::Failed
                        } else {
                            Caller::Next(self.state.waited())
                        },
                    ),
                    ..self
                },
                Caller::Next(OnceAction::Ready) => Race {
                    callers: self.callers.update(
                        who,
                        match self.inner {
                            Some(value) => Caller::Done(value),
                            None => Caller::Failed,
                        },
                    ),
                    ..self
                },
                Caller::Done(_) => self,
                Caller::Failed => self,
            }
        }
    }

    /// The race after the steps of `schedule`, taken in order. Each entry
    /// names the caller that steps.
    pub open spec fn run(self, schedule: Seq<int>) -> Race<T>
        decreases schedule.len(),
    {
        if schedule.len() == 0 {
            self
        } else {
            self.run(schedule.drop_last()).step(schedule.last())
        }
    }

    /// What holds of the caller `i` in every race that began with an empty
    /// cell.
    pub open spec fn caller_inv(self, i: int) -> bool {
        let c = self.callers[i];
        let wins = c == Caller::<T>::Next(OnceAction::Initialize) || c == Caller::<T>::Publish;
        &&& c != Caller::<T>::Failed
        &&& wins <==> (self.state == OnceState::Running && self.owner == Some(i))
        &&& c == Caller::<T>::Next(OnceAction::Initialize) ==> self.inner.is_none()
            && self.ran.len() == 0
        &&& c == Caller::<T>::Publish ==> self.inner.is_some() && self.ran.len() == 1
        &&& c == Caller::<T>::Next(OnceAction::Claim) || c == Caller::<T>::Start || wins
            || self.state != OnceState::Empty
        &&& c == Caller::<T>::Next(OnceAction::Ready) ==> self.state == OnceState::Finished
        &&& (c matches Caller::Done(value) ==> self.state == OnceState::Finished && self.inner
            == Some(value))
    }

    /// What holds of every race that began with an empty cell.
    pub open spec fn inv(self) -> bool {
        &&& self.closures.len() == self.callers.len()
        &&& self.ran.len() <= 1
        &&& self.state == OnceState::Empty ==> self.inner.is_none() && self.ran.len() == 0
            && self.owner.is_none()
        &&& self.state != OnceState::Empty ==> (self.owner matches Some(w) && 0 <= w
            < self.callers.len())
        &&& self.state == OnceState::Finished ==> self.inner.is_some() && self.ran.len() == 1
        &&& self.ran.len() == 1 ==> self.owner == Some(self.ran[0]) && self.inner == Some(
            self.closures[self.ran[0]],
        )
        &&& self.ran.len() == 0 ==> self.inner.is_none()
        &&& forall|i: int| 0 <= i < self.callers.len() ==> self.caller_inv(i)
    }

    /// A step keeps what holds of every race. Once a closure has run, no
    /// step runs another or changes the value.
    pub proof fn lemma_step_keeps_inv(self, who: int)
        requires
            self.inv(),
        ensures
            self.step(who).inv(),
            self.step(who).callers.len() == self.callers.len(),
            self.step(who).closures == self.closures,
            self.ran.len() == 1 ==> self.step(who).inner == self.inner && self.step(who).ran
                == self.ran,
    {
        let next = self.step(who);
        if 0 <= who < self.callers.len() {
            assert(self.caller_inv(who));
            assert forall|i: int| 0 <= i < next.callers.len() implies next.caller_inv(i) by {
                assert(self.caller_inv(i));
                if self.state != OnceState::Empty {
                    assert(self.caller_inv(self.owner.unwrap()));
                }
            }
        }
    }

    /// Every schedule keeps what holds of every race. Once a closure has
    /// run, no schedule runs another or changes the value.
    pub proof fn lemma_run_keeps_inv(self, schedule: Seq<int>)
        requires
            self.inv(),
        ensures
            self.run(schedule).inv(),
            self.run(schedule).callers.len() == self.callers.len(),
            self.run(schedule).closures == self.closures,
            self.ran.len() == 1 ==> self.run(schedule).inner == self.inner && self.run(
                schedule,
            ).ran == self.ran,
        decreases schedule.len(),
    {
        if schedule.len() > 0 {
            self.lemma_run_keeps_inv(schedule.drop_last());
            self.run(schedule.drop_last()).lemma_step_keeps_inv(schedule.last());
        }
    }
}

/// However the steps of concurrent callers of one cell interleave, at most
/// one of their closures runs, and it is the closure of the one caller whose
/// claim succeeded. It has run when any caller has returned, every caller
/// that has returned holds what that closure returned, which is the value
/// that the cell stores, and so any two of them hold the same value. No
/// caller finds the cell in a state that the protocol rules out, and no
/// later step runs another closure or replaces the stored value.
pub proof fn lemma_once_under_any_schedule<T>(
    closures: Seq<T>,
    schedule: Seq<int>,
    later: Seq<int>,
    a: int,
    b: int,
)
    requires
        0 <= a < closures.len(),
        0 <= b < closures.len(),
    ensures
        ({
            let race = Race::<T>::start(closures).run(schedule);
            &&& race.callers.len() == closures.len()
            &&& race.runs() <= 1
            &&& race.runs() == 1 ==> 0 <= race.ran[0] < closures.len() && race.owner == Some(
                race.ran[0],
            ) && race.inner == Some(closures[race.ran[0]])
            &&& race.runs() == 0 ==> race.inner.is_none()
            &&& race.callers[a] != Caller::<T>::Failed
            &&& (race.callers[a] matches Caller::Done(x) ==> {
                &&& race.runs() == 1
                &&& x == closures[race.ran[0]]
                &&& (race.callers[b] matches Caller::Done(y) ==> x == y)
            })
            &&& race.runs() == 1 ==> race.run(later).inner == race.inner && race.run(later).ran
                == race.ran
        }),
{
    let first = Race::<T>::start(closures);
    assert(first.inv());
    first.lemma_run_keeps_inv(schedule);
    let race = first.run(schedule);
    assert(race.caller_inv(a));
    assert(race.caller_inv(b));
    race.lemma_run_keeps_inv(later);
}

} // verus!
