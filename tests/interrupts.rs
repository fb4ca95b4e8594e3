use tm4c_core::dispatch::{service, DispatchTable, Handler, Interrupt, SetupError};
use tm4c_core::timer::{
    timer0a_handler, timer1a_handler, ClearError, ConfigError, PeriodicTimer, TimerId, TimerSlots,
};

fn configured_table() -> DispatchTable {
    let mut t = DispatchTable::new();
    assert_eq!(t.register(Interrupt::Timer0A, Handler::Timer0A), Ok(()));
    assert_eq!(t.register(Interrupt::Timer1A, Handler::Timer1A), Ok(()));
    t.clear_pending(Interrupt::Timer0A);
    t.clear_pending(Interrupt::Timer1A);
    assert_eq!(t.set_priority(Interrupt::Timer0A, 1), Ok(()));
    assert_eq!(t.set_priority(Interrupt::Timer1A, 0), Ok(()));
    assert_eq!(t.enable(Interrupt::Timer0A), Ok(()));
    assert_eq!(t.enable(Interrupt::Timer1A), Ok(()));
    t
}

#[test]
fn unmasking_before_registering_is_rejected() {
    let mut t = DispatchTable::new();
    assert_eq!(t.enable(Interrupt::Timer0A), Err(SetupError::NotRegistered));
    assert!(!t.entry(Interrupt::Timer0A).enabled);
    assert_eq!(t.handler_for(Interrupt::Timer0A), None);
    assert_eq!(t.register(Interrupt::Timer0A, Handler::Timer0A), Ok(()));
    assert_eq!(t.enable(Interrupt::Timer0A), Err(SetupError::NoPriority));
    assert_eq!(t.set_priority(Interrupt::Timer0A, 3), Ok(()));
    assert_eq!(t.enable(Interrupt::Timer0A), Err(SetupError::PendingNotCleared));
    t.clear_pending(Interrupt::Timer0A);
    assert_eq!(t.enable(Interrupt::Timer0A), Ok(()));
    assert_eq!(t.handler_for(Interrupt::Timer0A), Some(Handler::Timer0A));
    assert_eq!(t.handler_for(Interrupt::Timer1A), None);
}

#[test]
fn unmasked_entries_are_locked() {
    let mut t = configured_table();
    assert_eq!(t.register(Interrupt::Timer0A, Handler::Timer1A), Err(SetupError::Locked));
    assert_eq!(t.set_priority(Interrupt::Timer1A, 5), Err(SetupError::Locked));
    assert_eq!(t.entry(Interrupt::Timer0A).handler, Some(Handler::Timer0A));
    assert_eq!(t.entry(Interrupt::Timer1A).priority, Some(0));
}

#[test]
fn second_timer_preempts_first() {
    let t = configured_table();
    assert!(t.preempts(Interrupt::Timer1A, Interrupt::Timer0A));
    assert!(!t.preempts(Interrupt::Timer0A, Interrupt::Timer1A));
    assert!(!t.preempts(Interrupt::Timer0A, Interrupt::Timer0A));
    assert!(!DispatchTable::new().preempts(Interrupt::Timer1A, Interrupt::Timer0A));
}

#[test]
fn timer_configuration_errors() {
    let mut t = PeriodicTimer::new();
    assert_eq!(t.clear_timeout_interrupt(), Err(ClearError));
    assert_eq!(t.set_periodic_mode(0), Err(ConfigError::ZeroPeriod));
    assert!(!t.running);
    assert_eq!(t.set_periodic_mode(10000), Ok(()));
    assert_eq!(t.set_periodic_mode(5), Err(ConfigError::AlreadyRunning));
    assert_eq!(t.period, 10000);
}

#[test]
fn timer_expires_every_period() {
    let mut t = PeriodicTimer::new();
    assert!(!t.tick());
    assert_eq!(t.set_periodic_mode(3), Ok(()));
    assert!(!t.tick());
    assert!(!t.tick());
    assert!(t.tick());
    assert!(t.pending);
    assert_eq!(t.clear_timeout_interrupt(), Ok(()));
    assert!(!t.pending);
    assert!(!t.tick());
    assert!(!t.tick());
    assert!(t.tick());
}

#[test]
fn handlers_touch_only_their_own_timer() {
    let mut a = PeriodicTimer::new();
    let mut b = PeriodicTimer::new();
    assert_eq!(a.set_periodic_mode(1), Ok(()));
    assert_eq!(b.set_periodic_mode(1), Ok(()));
    assert!(a.tick());
    assert!(b.tick());
    let mut slots = TimerSlots::new();
    timer0a_handler(&mut slots);
    assert_eq!(slots, TimerSlots::new());
    assert_eq!(slots.hand_over(TimerId::Timer0, a), Ok(()));
    assert_eq!(slots.hand_over(TimerId::Timer1, b), Ok(()));
    assert_eq!(slots.hand_over(TimerId::Timer1, a), Err(a));
    timer0a_handler(&mut slots);
    assert!(!slots.timer0.unwrap().pending);
    assert!(slots.timer1.unwrap().pending);
    timer1a_handler(&mut slots);
    assert!(!slots.timer1.unwrap().pending);
}

#[test]
fn merged_expiries_clear_each_timer_once_per_expiry() {
    let table = configured_table();
    let mut slots = TimerSlots::new();
    let mut a = PeriodicTimer::new();
    let mut b = PeriodicTimer::new();
    assert_eq!(a.set_periodic_mode(10000), Ok(()));
    assert_eq!(b.set_periodic_mode(10001), Ok(()));
    assert_eq!(slots.hand_over(TimerId::Timer0, a), Ok(()));
    assert_eq!(slots.hand_over(TimerId::Timer1, b), Ok(()));
    let mut expiries = [0u32; 2];
    let mut clears = [0u32; 2];
    for _ in 0..100_050u32 {
        let mut t0 = slots.timer0.unwrap();
        let mut t1 = slots.timer1.unwrap();
        let e0 = t0.tick();
        let e1 = t1.tick();
        slots.timer0 = Some(t0);
        slots.timer1 = Some(t1);
        // the more urgent interrupt is served first
        if e1 {
            expiries[1] += 1;
            let other = slots.timer0;
            assert!(service(&table, Interrupt::Timer1A, &mut slots));
            assert_eq!(slots.timer0, other);
            assert!(!slots.timer1.unwrap().pending);
            clears[1] += 1;
        }
        if e0 {
            expiries[0] += 1;
            let other = slots.timer1;
            assert!(service(&table, Interrupt::Timer0A, &mut slots));
            assert_eq!(slots.timer1, other);
            assert!(!slots.timer0.unwrap().pending);
            clears[0] += 1;
        }
        assert!(!slots.timer0.unwrap().pending);
        assert!(!slots.timer1.unwrap().pending);
    }
    assert_eq!(expiries, [10, 10]);
    assert_eq!(clears, expiries);
}

#[test]
fn masked_interrupt_runs_nothing() {
    let table = DispatchTable::new();
    let mut slots = TimerSlots::new();
    let mut a = PeriodicTimer::new();
    assert_eq!(a.set_periodic_mode(1), Ok(()));
    assert!(a.tick());
    assert_eq!(slots.hand_over(TimerId::Timer0, a), Ok(()));
    assert!(!service(&table, Interrupt::Timer0A, &mut slots));
    assert!(slots.timer0.unwrap().pending);
}

#[test]
fn running_a_handler_twice_equals_once() {
    let mut a = PeriodicTimer::new();
    assert_eq!(a.set_periodic_mode(2), Ok(()));
    assert!(!a.tick());
    assert!(a.tick());
    let mut slots = TimerSlots::new();
    assert_eq!(slots.hand_over(TimerId::Timer0, a), Ok(()));
    timer0a_handler(&mut slots);
    let once = slots;
    timer0a_handler(&mut slots);
    assert_eq!(slots, once);
    assert!(!slots.timer0.unwrap().pending);
    assert_eq!(slots.timer0.unwrap().remaining, 2);
}
