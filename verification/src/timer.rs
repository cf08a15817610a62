//! The tick counter that the timer interrupt drives.

use crate::prelude::bytes::{decimal, lemma_decimal_len, BytesBuf};
use crate::sync::{Global, Mutex, Once, OnceState};
use crate::term::{first_break, Terminal, TerminalState};
use vstd::prelude::*;

verus! {

/// Counts the ticks of the timer and shows the count in the top right
/// corner of the screen.
pub struct Timer {
    ticks: usize,
    buf: [u8; 80],
}

/// `count` blanks.
pub open spec fn blanks(count: nat) -> Seq<u8> {
    Seq::new(count, |i: int| 0x20u8)
}

/// A decimal number contains no line break.
pub proof fn lemma_decimal_has_no_break(n: nat)
    ensures
        first_break(decimal(n)) == decimal(n).len(),
        forall|k: int| 0 <= k < decimal(n).len() ==> 0x30 <= #[trigger] decimal(n)[k] <= 0x39,
    decreases n,
{
    if n >= 10 {
        lemma_decimal_has_no_break(n / 10);
    }
    lemma_no_break(decimal(n));
}

proof fn lemma_no_break(text: Seq<u8>)
    requires
        forall|k: int| 0 <= k < text.len() ==> #[trigger] text[k] != 0x0A,
    ensures
        first_break(text) == text.len(),
    decreases text.len(),
{
    if text.len() > 0 {
        assert(text[0] != 0x0A);
        assert forall|k: int| 0 <= k < text.drop_first().len() implies #[trigger] text.drop_first()[k]
            != 0x0A by {
            assert(text.drop_first()[k] == text[k + 1]);
        }
        lemma_no_break(text.drop_first());
    }
}

impl Timer {
    /// The number of ticks counted so far.
    pub closed spec fn ticks(self) -> nat {
        self.ticks as nat
    }

    /// The text of the counter: the digits of the count, or nothing before
    /// the first tick, filled up with blanks to 80 bytes.
    pub closed spec fn text(self) -> Seq<u8> {
        self.buf@
    }

    /// The text of a counter that has counted `ticks` ticks.
    pub open spec fn text_of(ticks: nat) -> Seq<u8> {
        if ticks == 0 {
            blanks(80)
        } else {
            decimal(ticks) + blanks((80 - decimal(ticks).len()) as nat)
        }
    }

    /// The text shows the count.
    pub open spec fn wf(self) -> bool {
        self.text() == Self::text_of(self.ticks())
    }

    /// A counter at zero.
    pub fn default() -> (timer: Timer)
        ensures
            timer.ticks() == 0,
            timer.wf(),
    {
        let timer = Timer { ticks: 0, buf: [0x20u8; 80] };
        assert(timer.buf@ =~= blanks(80));
        timer
    }

    /// The number of ticks counted so far.
    pub fn count(&self) -> (n: usize)
        ensures
            n == self.ticks(),
    {
        self.ticks
    }

    /// Count one tick and show the new count on `screen`, right-aligned in
    /// the first line and short of its last column.
    ///
    /// The terminal is locked for the time of the update. A terminal that is
    /// held when the tick arrives is never released while the tick waits
    /// for it, so the caller has to find it free. The count has to fit into
    /// the counter.
    pub fn tick(&mut self, screen: &mut Once<Mutex<Terminal>>)
        requires
            old(self).wf(),
            old(self).ticks() < usize::MAX,
            old(screen).wf(),
            old(screen).state() == OnceState::Finished ==> !old(screen).value().unwrap().is_locked()
                && old(screen).value().unwrap().data().wf(),
            old(screen).state() != OnceState::Running,
        ensures
            final(self).wf(),
            final(self).ticks() == old(self).ticks() + 1,
            final(screen).state() == OnceState::Finished,
            final(screen).wf(),
            final(screen).value() matches Some(terminal) && !terminal.is_locked()
                && terminal.data().wf() && terminal.data()@ == shown(
                match old(screen).value() {
                    Some(before) => before.data()@,
                    None => TerminalState::blank(),
                },
                final(self).ticks(),
            ),
    {
        self.ticks += 1;
        proof {
            lemma_decimal_len(self.ticks as nat);
            lemma_decimal_has_no_break(self.ticks as nat);
            lemma_decimal_grows(old(self).ticks as nat, self.ticks as nat);
        }
        let mut s = BytesBuf::from_slice(&mut self.buf);
        let _ = s.write_decimal(self.ticks as u64);
        let len = s.offset;
        assert(s.bytes() =~= Self::text_of(self.ticks as nat)) by {
            let digits = decimal(self.ticks as nat);
            let before = Self::text_of(old(self).ticks as nat);
            assert forall|k: int| 0 <= k < 80 implies s.bytes()[k] == Self::text_of(
                self.ticks as nat,
            )[k] by {
                if k >= digits.len() {
                    assert(before[k] == 0x20u8);
                }
            }
        }
        let digits = crate::prelude::bytes::decimal_digits(self.ticks as u64);

        let terminal = Terminal::global(screen);
        let mut guard = terminal.lock();
        terminal.get_mut(&mut guard).write_bytes_at(digits.as_slice(), 0, 79 - len);
        terminal.unlock(guard);
    }
}

/// The digits of a larger number are at least as many.
pub proof fn lemma_decimal_grows(a: nat, b: nat)
    requires
        a <= b,
    ensures
        decimal(a).len() <= decimal(b).len(),
    decreases b,
{
    if a >= 10 {
        lemma_decimal_grows(a / 10, b / 10);
    }
}

/// The screen of a terminal after the count `ticks` has been shown on it.
pub open spec fn shown(before: TerminalState, ticks: nat) -> TerminalState {
    before.write_at(decimal(ticks), 0, (79 - decimal(ticks).len()) as usize)
}

impl Timer {
    /// Whether `value` is a counter at zero.
    pub open spec fn initial(value: Self) -> bool {
        value.ticks() == 0 && value.wf()
    }
}

impl Global for Timer {
    /// A new instance is free and [`initial`](Timer::initial).
    fn global(cell: &mut Once<Mutex<Self>>) -> (instance: &mut Mutex<Self>)
        ensures
            old(cell).state() == OnceState::Empty ==> !instance.is_locked() && Self::initial(
                instance.data(),
            ),
    {
        cell.call_once(construct)
    }
}

/// The mutex around a counter at zero.
fn construct() -> (m: Mutex<Timer>)
    ensures
        !m.is_locked(),
        Timer::initial(m.data()),
{
    Mutex::new(Timer::default())
}

/// The count after the next tick of the counter in a cell that holds
/// `counter`: an empty cell gets a counter at zero first.
pub open spec fn ticks_after(counter: Option<Mutex<Timer>>) -> nat {
    match counter {
        Some(before) => before.data().ticks() + 1,
        None => 1,
    }
}

/// What the handler of the timer interrupt does: it counts a tick on the
/// kernel's counter, which is constructed first if nobody has asked for it
/// yet.
pub fn timer(clock: &mut Once<Mutex<Timer>>, screen: &mut Once<Mutex<Terminal>>)
    requires
        old(clock).wf(),
        old(clock).state() != OnceState::Running,
        old(clock).state() == OnceState::Finished ==> {
            let counter = old(clock).value().unwrap();
            !counter.is_locked() && counter.data().wf() && counter.data().ticks() < usize::MAX
        },
        old(screen).wf(),
        old(screen).state() == OnceState::Finished ==> !old(screen).value().unwrap().is_locked()
            && old(screen).value().unwrap().data().wf(),
        old(screen).state() != OnceState::Running,
    ensures
        final(clock).state() == OnceState::Finished,
        final(clock).value() matches Some(counter) && !counter.is_locked() && counter.data().wf()
            && counter.data().ticks() == ticks_after(old(clock).value()),
        final(screen).state() == OnceState::Finished,
        final(screen).wf(),
        final(screen).value() matches Some(terminal) && !terminal.is_locked()
            && terminal.data().wf() && terminal.data()@ == shown(
            match old(screen).value() {
                Some(before) => before.data()@,
                None => TerminalState::blank(),
            },
            ticks_after(old(clock).value()),
        ),
{
    let counter = Timer::global(clock);
    let mut guard = counter.lock();
    counter.get_mut(&mut guard).tick(screen);
    counter.unlock(guard);
}

} // verus!
