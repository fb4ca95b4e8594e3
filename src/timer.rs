//! Periodic countdown timers and the slots through which their interrupt
//! handlers reach them.
use vstd::prelude::*;

verus! {

/// Why a timer could not be configured.
#[derive(Debug, Clone, Copy, PartialEq, Eq)]
pub enum ConfigError {
    /// A period of zero ticks never expires.
    ZeroPeriod,
    /// The timer already runs; it is configured once.
    AlreadyRunning,
}

/// The expiry flag could not be acknowledged: the timer is not running.
#[derive(Debug, Clone, Copy, PartialEq, Eq)]
pub struct ClearError;

/// A countdown timer that reloads itself and raises its expiry flag each
/// time it reaches zero.
#[derive(Debug, Clone, Copy, PartialEq, Eq)]
pub struct PeriodicTimer {
    /// Reload value, in ticks.
    pub period: u32,
    /// Ticks left until the next expiry.
    pub remaining: u32,
    pub running: bool,
    /// The expiry flag, raised by the hardware and cleared by the handler.
    pub pending: bool,
}

impl PeriodicTimer {
    /// Between expiries a running timer counts down from its period.
    pub open spec fn well_formed(&self) -> bool {
        self.running ==> 0 < self.remaining <= self.period
    }

    /// An unconfigured timer.
    pub fn new() -> (t: Self)
        ensures
            t == (PeriodicTimer { period: 0, remaining: 0, running: false, pending: false }),
    {
        PeriodicTimer { period: 0, remaining: 0, running: false, pending: false }
    }

    /// Starts the timer with reload value `period`. Fails, changing nothing,
    /// when the period is zero or the timer already runs.
    pub fn set_periodic_mode(&mut self, period: u32) -> (r: Result<(), ConfigError>)
        ensures
            r == (if old(self).running {
                Err(ConfigError::AlreadyRunning)
            } else if period == 0 {
                Err(ConfigError::ZeroPeriod)
            } else {
                Ok(())
            }),
            r is Ok ==> *final(self) == (PeriodicTimer {
                period,
                remaining: period,
                running: true,
                pending: false,
            }),
            r is Err ==> *final(self) == *old(self),
    {
        if self.running {
            return Err(ConfigError::AlreadyRunning);
        }
        if period == 0 {
            return Err(ConfigError::ZeroPeriod);
        }
        *self = PeriodicTimer { period, remaining: period, running: true, pending: false };
        Ok(())
    }

    /// One tick of the timer's clock. A running timer counts down; on
    /// reaching zero it reloads, raises its flag and returns true.
    pub fn tick(&mut self) -> (expired: bool)
        requires
            old(self).well_formed(),
        ensures
            final(self).well_formed(),
            final(self).period == old(self).period,
            final(self).running == old(self).running,
            expired == (old(self).running && old(self).remaining == 1),
            !old(self).running ==> *final(self) == *old(self),
            old(self).running && !expired ==> *final(self) == (PeriodicTimer {
                remaining: (old(self).remaining - 1) as u32,
                ..*old(self)
            }),
            expired ==> *final(self) == (PeriodicTimer {
                remaining: old(self).period,
                pending: true,
                ..*old(self)
            }),
    {
        if !self.running {
            return false;
        }
        if self.remaining == 1 {
            self.remaining = self.period;
            self.pending = true;
            true
        } else {
            self.remaining = self.remaining - 1;
            false
        }
    }

    /// Acknowledges an expiry: lowers the flag of a running timer.
    pub fn clear_timeout_interrupt(&mut self) -> (r: Result<(), ClearError>)
        ensures
            r is Ok <==> old(self).running,
            r is Ok ==> *final(self) == (PeriodicTimer { pending: false, ..*old(self) }),
            r is Err ==> *final(self) == *old(self),
    {
        if !self.running {
            return Err(ClearError);
        }
        self.pending = false;
        Ok(())
    }
}

/// The timer a handler clears, once handed over.
pub open spec fn cleared(t: Option<PeriodicTimer>) -> Option<PeriodicTimer> {
    match t {
        Some(x) => if x.running {
            Some(PeriodicTimer { pending: false, ..x })
        } else {
            Some(x)
        },
        None => None,
    }
}

/// The two timers as handed from configuration to their handlers: each slot
/// is filled once, and afterwards touched only by its own handler.
#[derive(Debug, Clone, Copy, PartialEq, Eq)]
pub struct TimerSlots {
    pub timer0: Option<PeriodicTimer>,
    pub timer1: Option<PeriodicTimer>,
}

/// Which of the two timers.
#[derive(Debug, Clone, Copy, PartialEq, Eq)]
pub enum TimerId {
    Timer0,
    Timer1,
}

impl TimerSlots {
    /// Both slots empty.
    pub fn new() -> (s: Self)
        ensures
            s.timer0 is None,
            s.timer1 is None,
    {
        TimerSlots { timer0: None, timer1: None }
    }

    /// Hands `timer` over to slot `id`. An occupied slot is not replaced:
    /// the timer comes back as the error.
    pub fn hand_over(&mut self, id: TimerId, timer: PeriodicTimer) -> (r: Result<(), PeriodicTimer>)
        ensures
            r is Ok <==> (match id {
                TimerId::Timer0 => old(self).timer0 is None,
                TimerId::Timer1 => old(self).timer1 is None,
            }),
            r is Ok ==> *final(self) == (match id {
                TimerId::Timer0 => TimerSlots { timer0: Some(timer), ..*old(self) },
                TimerId::Timer1 => TimerSlots { timer1: Some(timer), ..*old(self) },
            }),
            r is Err ==> *final(self) == *old(self) && r->Err_0 == timer,
    {
        match id {
            TimerId::Timer0 => {
                if self.timer0.is_some() {
                    return Err(timer);
                }
                self.timer0 = Some(timer);
            },
            TimerId::Timer1 => {
                if self.timer1.is_some() {
                    return Err(timer);
                }
                self.timer1 = Some(timer);
            },
        }
        Ok(())
    }
}

/// Lowers the expiry flag of the timer that `slot` holds; a failed
/// acknowledgement is tolerated, and an empty slot is left alone.
fn acknowledge(slot: &mut Option<PeriodicTimer>)
    ensures
        *final(slot) == cleared(*old(slot)),
{
    match slot {
        Some(t) => {
            let _ = t.clear_timeout_interrupt();
        },
        None => {},
    }
}

/// Handler body of the first timer's expiry interrupt: clears that timer's
/// flag and leaves the second timer as it is.
pub fn timer0a_handler(slots: &mut TimerSlots)
    ensures
        final(slots).timer0 == cleared(old(slots).timer0),
        final(slots).timer1 == old(slots).timer1,
{
    acknowledge(&mut slots.timer0);
}

/// Handler body of the second timer's expiry interrupt: clears that timer's
/// flag and leaves the first timer as it is.
pub fn timer1a_handler(slots: &mut TimerSlots)
    ensures
        final(slots).timer1 == cleared(old(slots).timer1),
        final(slots).timer0 == old(slots).timer0,
{
    acknowledge(&mut slots.timer1);
}

} // verus!
