use kernel::arch::idt::InterruptDescriptorTable;
use kernel::arch::Cpu;
use kernel::sync::init::{OnceAction, EMPTY, FINISH, RUNNING};
use kernel::sync::mutex::Acquiring;
use kernel::sync::{Global, Mutex, Once, OnceState};
use std::sync::atomic::{AtomicUsize, Ordering};

fn loaded_cpu() -> Cpu {
    let mut cpu = Cpu::new();
    let handlers = [0x1000u64; 32];
    let idt = InterruptDescriptorTable::with_exception_handlers(&handlers);
    idt.load(&mut cpu, 0x8000);
    cpu
}

#[test]
fn try_lock() {
    let mut mutex = Mutex::new(42);

    // First lock succeeds
    let a = mutex.try_lock();
    assert_eq!(a.as_ref().map(|r| *mutex.get(r)), Some(42));

    // Additional lock failes
    let b = mutex.try_lock();
    assert!(b.is_none());

    // After dropping lock, it succeeds again
    mutex.unlock(a.unwrap());
    let c = mutex.try_lock();
    assert_eq!(c.as_ref().map(|r| *mutex.get(r)), Some(42));
}

static ATOMIC: AtomicUsize = AtomicUsize::new(0);

struct GlobalTester;

impl Global for GlobalTester {
    fn global(cell: &mut Once<Mutex<GlobalTester>>) -> &mut Mutex<GlobalTester> {
        cell.call_once(|| {
            ATOMIC.fetch_add(1, Ordering::Relaxed);
            Mutex::new(GlobalTester)
        })
    }
}

#[test]
fn call_once_only() {
    let mut cell = Once::new();
    assert_eq!(ATOMIC.load(Ordering::SeqCst), 0);
    let _ = GlobalTester::global(&mut cell);

    assert_eq!(ATOMIC.load(Ordering::SeqCst), 1);

    for _ in 0..100 {
        let mutex = GlobalTester::global(&mut cell);
        let guard = mutex.lock();
        mutex.unlock(guard);
    }

    assert_eq!(ATOMIC.load(Ordering::SeqCst), 1);
}

#[test]
fn multiple() {
    let mut init = Once::new();
    init.call_once(|| 10);
    assert_eq!(init.call_once(|| 12), &10);
    assert_eq!(init.call_once(|| 22), &10);
    assert_eq!(init.call_once(|| 32), &10);
}

#[test]
fn a_new_cell_is_empty_and_a_filled_one_finished() {
    let mut cell: Once<u32> = Once::new();
    assert_eq!(cell.current(), OnceState::Empty);
    cell.call_once(|| 7);
    assert_eq!(cell.current(), OnceState::Finished);
    assert_eq!(*cell.get(), 7);
}

#[test]
fn every_caller_sees_the_first_value() {
    let mut cell = Once::new();
    let mut runs = 0;
    for caller in 0..50u32 {
        let value = *cell.call_once(|| {
            runs += 1;
            caller + 100
        });
        assert_eq!(value, 100);
    }
    assert_eq!(runs, 1);
}

#[test]
fn the_once_protocol_decides_by_the_state_that_was_read() {
    assert_eq!(OnceState::Empty.after_load(), OnceAction::Claim);
    assert_eq!(OnceState::Running.after_load(), OnceAction::Wait);
    assert_eq!(OnceState::Finished.after_load(), OnceAction::Ready);

    assert_eq!(OnceState::Empty.after_claim(), OnceAction::Initialize);
    assert_eq!(OnceState::Running.after_claim(), OnceAction::Wait);
    assert_eq!(OnceState::Finished.after_claim(), OnceAction::Ready);

    assert_eq!(OnceState::Running.after_wait(), OnceAction::Wait);
    assert_eq!(OnceState::Finished.after_wait(), OnceAction::Ready);
}

#[test]
fn lock_and_unlock_keep_the_value() {
    let mut mutex = Mutex::new(String::from("kept"));
    let mut guard = mutex.lock();
    mutex.get_mut(&mut guard).push_str(" and changed");
    mutex.unlock(guard);
    assert_eq!(mutex.into_inner(), "kept and changed");
}

#[test]
fn into_inner_after_a_guarded_update() {
    let mut m = Mutex::new(10u64);
    {
        let mut g = m.lock();
        *m.get_mut(&mut g) += 10;
        m.unlock(g);
    }
    assert_eq!(m.into_inner(), 20);
}

#[test]
fn force_reaches_the_value_of_a_held_mutex() {
    let mut mutex = Mutex::new(5u32);
    let guard = mutex.lock();
    *mutex.force() = 6;
    // The mutex is still held.
    assert!(mutex.try_lock().is_none());
    assert_eq!(*mutex.get(&guard), 6);
    mutex.unlock(guard);
    assert_eq!(mutex.into_inner(), 6);
}

#[test]
fn a_critical_guard_keeps_interrupts_off_until_it_is_handed_back() {
    let mut cpu = loaded_cpu();
    kernel::arch::interrupts::enable(&mut cpu);
    let before = cpu;
    let mut mutex = Mutex::new(0u32);

    let mut guard = mutex.critical(&mut cpu);
    assert!(!cpu.interrupts);
    *mutex.get_critical_mut(&mut guard) += 1;
    assert!(!cpu.interrupts);
    assert_eq!(*mutex.get_critical(&guard), 1);

    mutex.unlock_critical(&mut cpu, guard);
    assert_eq!(cpu, before);
    assert!(cpu.interrupts);
    assert_eq!(mutex.into_inner(), 1);
}

#[test]
fn a_critical_guard_switches_interrupts_on_even_if_they_were_off() {
    let mut cpu = loaded_cpu();
    assert!(!cpu.interrupts);
    let mut mutex = Mutex::new(());
    let guard = mutex.critical(&mut cpu);
    assert!(!cpu.interrupts);
    mutex.unlock_critical(&mut cpu, guard);
    assert!(cpu.interrupts);
}

#[test]
fn a_failed_critical_attempt_leaves_interrupts_on() {
    let mut cpu = loaded_cpu();
    let mut mutex = Mutex::new(());
    let first = mutex.try_critical(&mut cpu);
    assert!(first.is_some());
    assert!(!cpu.interrupts);

    let second = mutex.try_critical(&mut cpu);
    assert!(second.is_none());
    assert!(cpu.interrupts);

    mutex.unlock_critical(&mut cpu, first.unwrap());
    assert!(cpu.interrupts);
    let third = mutex.try_critical(&mut cpu);
    assert!(third.is_some());
    assert!(!cpu.interrupts);
}

#[test]
fn a_waiting_caller_alternates_between_attempt_and_spin() {
    assert_eq!(Acquiring::after_attempt(false), Acquiring::Held);
    assert_eq!(Acquiring::after_attempt(true), Acquiring::Spin);
    assert_eq!(Acquiring::after_read(true), Acquiring::Spin);
    assert_eq!(Acquiring::after_read(false), Acquiring::Attempt);
    assert!(Acquiring::Attempt.masks_interrupts());
    assert!(Acquiring::Held.masks_interrupts());
    assert!(!Acquiring::Spin.masks_interrupts());
}

#[test]
fn critical_section_runs_the_closure_and_ends_with_interrupts_on() {
    let mut cpu = loaded_cpu();
    let r = kernel::arch::interrupts::critical_section(&mut cpu, || 6 * 7);
    assert_eq!(r, 42);
    assert!(cpu.interrupts);
}

#[test]
fn a_mutex_from_a_value_or_by_default_is_free() {
    let mut from = Mutex::from(5u32);
    assert!(!from.locked());
    assert!(from.try_lock().is_some());
    assert!(from.locked());
    assert_eq!(from.into_inner(), 5);
    let by_default: Mutex<u32> = Mutex::default();
    assert!(!by_default.locked());
    assert_eq!(by_default.into_inner(), 0);
}

#[test]
fn the_states_of_a_cell_and_their_words() {
    assert_eq!((EMPTY, RUNNING, FINISH), (0, 1, 2));
    for state in [OnceState::Empty, OnceState::Running, OnceState::Finished] {
        assert_eq!(OnceState::from_code(state.code()), Some(state));
    }
    assert_eq!(OnceState::from_code(3), None);
    assert_eq!(OnceState::from_code(usize::MAX), None);
}

#[test]
fn a_critical_attempt_on_a_free_mutex_needs_no_table() {
    let mut cpu = Cpu::new();
    cpu.interrupts = true;
    let mut mutex = Mutex::new(3u8);
    let guard = mutex.try_critical(&mut cpu).unwrap();
    assert!(!cpu.interrupts);
    assert!(mutex.locked());
    assert_eq!(*mutex.get_critical(&guard), 3);
}
