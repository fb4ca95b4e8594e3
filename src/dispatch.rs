//! The interrupt dispatch table: which handler each timer interrupt runs,
//! at which priority, and the setup order that must precede unmasking.
use vstd::prelude::*;
use crate::timer::{TimerSlots, cleared, timer0a_handler, timer1a_handler};

verus! {

/// The interrupts this table knows.
#[derive(Debug, Clone, Copy, PartialEq, Eq)]
pub enum Interrupt {
    Timer0A,
    Timer1A,
}

/// The handler bodies there are, one per known interrupt.
#[derive(Debug, Clone, Copy, PartialEq, Eq)]
pub enum Handler {
    Timer0A,
    Timer1A,
}

/// Why a setup step was refused.
#[derive(Debug, Clone, Copy, PartialEq, Eq)]
pub enum SetupError {
    /// Unmasking an interrupt that has no handler.
    NotRegistered,
    /// Unmasking an interrupt that has no priority.
    NoPriority,
    /// Unmasking an interrupt whose stale pending flag was not cleared.
    PendingNotCleared,
    /// Changing the handler or priority of an unmasked interrupt.
    Locked,
}

/// The setup state of one interrupt.
#[derive(Debug, Clone, Copy, PartialEq, Eq)]
pub struct Entry {
    pub handler: Option<Handler>,
    /// Lower values are more urgent.
    pub priority: Option<u8>,
    pub pending_cleared: bool,
    pub enabled: bool,
}

/// Whether `e` may be unmasked: bound, prioritised, and its stale flag cleared.
pub open spec fn ready(e: Entry) -> bool {
    e.handler is Some && e.priority is Some && e.pending_cleared
}

/// What `enable` answers for an entry.
pub open spec fn enable_result(e: Entry) -> Result<(), SetupError> {
    if e.handler is None {
        Err(SetupError::NotRegistered)
    } else if e.priority is None {
        Err(SetupError::NoPriority)
    } else if !e.pending_cleared {
        Err(SetupError::PendingNotCleared)
    } else {
        Ok(())
    }
}

/// The table of the two timer interrupts.
#[derive(Debug, Clone, Copy, PartialEq, Eq)]
pub struct DispatchTable {
    pub timer0a: Entry,
    pub timer1a: Entry,
}

impl DispatchTable {
    pub open spec fn entry_spec(&self, id: Interrupt) -> Entry {
        match id {
            Interrupt::Timer0A => self.timer0a,
            Interrupt::Timer1A => self.timer1a,
        }
    }

    /// The table with the entry of `id` replaced by `e`.
    pub open spec fn with_entry(&self, id: Interrupt, e: Entry) -> DispatchTable {
        match id {
            Interrupt::Timer0A => DispatchTable { timer0a: e, ..*self },
            Interrupt::Timer1A => DispatchTable { timer1a: e, ..*self },
        }
    }

    /// Every unmasked interrupt is ready.
    pub open spec fn consistent(&self) -> bool {
        &&& (self.timer0a.enabled ==> ready(self.timer0a))
        &&& (self.timer1a.enabled ==> ready(self.timer1a))
    }

    /// A table with nothing bound and everything masked.
    pub fn new() -> (t: Self)
        ensures
            t.consistent(),
            t.timer0a == (Entry { handler: None, priority: None, pending_cleared: false, enabled: false }),
            t.timer1a == (Entry { handler: None, priority: None, pending_cleared: false, enabled: false }),
    {
        let e = Entry { handler: None, priority: None, pending_cleared: false, enabled: false };
        DispatchTable { timer0a: e, timer1a: e }
    }

    pub fn entry(&self, id: Interrupt) -> (e: Entry)
        ensures
            e == self.entry_spec(id),
    {
        match id {
            Interrupt::Timer0A => self.timer0a,
            Interrupt::Timer1A => self.timer1a,
        }
    }

    fn set_entry(&mut self, id: Interrupt, e: Entry)
        ensures
            *final(self) == old(self).with_entry(id, e),
    {
        match id {
            Interrupt::Timer0A => self.timer0a = e,
            Interrupt::Timer1A => self.timer1a = e,
        }
    }

    /// Binds `handler` to `id`; refused once `id` is unmasked.
    pub fn register(&mut self, id: Interrupt, handler: Handler) -> (r: Result<(), SetupError>)
        ensures
            r is Err <==> old(self).entry_spec(id).enabled,
            r is Err ==> r == Err::<(), SetupError>(SetupError::Locked) && *final(self) == *old(self),
            r is Ok ==> *final(self) == old(self).with_entry(
                id,
                Entry { handler: Some(handler), ..old(self).entry_spec(id) },
            ),
            old(self).consistent() ==> final(self).consistent(),
    {
        let e = self.entry(id);
        if e.enabled {
            return Err(SetupError::Locked);
        }
        self.set_entry(id, Entry { handler: Some(handler), ..e });
        Ok(())
    }

    /// Gives `id` its priority; refused once `id` is unmasked.
    pub fn set_priority(&mut self, id: Interrupt, priority: u8) -> (r: Result<(), SetupError>)
        ensures
            r is Err <==> old(self).entry_spec(id).enabled,
            r is Err ==> r == Err::<(), SetupError>(SetupError::Locked) && *final(self) == *old(self),
            r is Ok ==> *final(self) == old(self).with_entry(
                id,
                Entry { priority: Some(priority), ..old(self).entry_spec(id) },
            ),
            old(self).consistent() ==> final(self).consistent(),
    {
        let e = self.entry(id);
        if e.enabled {
            return Err(SetupError::Locked);
        }
        self.set_entry(id, Entry { priority: Some(priority), ..e });
        Ok(())
    }

    /// Clears a stale pending flag of `id`.
    pub fn clear_pending(&mut self, id: Interrupt)
        ensures
            *final(self) == old(self).with_entry(
                id,
                Entry { pending_cleared: true, ..old(self).entry_spec(id) },
            ),
            old(self).consistent() ==> final(self).consistent(),
    {
        let e = self.entry(id);
        self.set_entry(id, Entry { pending_cleared: true, ..e });
    }

    /// Unmasks `id` if it is ready; otherwise says which step is missing and
    /// changes nothing.
    pub fn enable(&mut self, id: Interrupt) -> (r: Result<(), SetupError>)
        ensures
            r == enable_result(old(self).entry_spec(id)),
            r is Ok <==> ready(old(self).entry_spec(id)),
            r is Ok ==> *final(self) == old(self).with_entry(
                id,
                Entry { enabled: true, ..old(self).entry_spec(id) },
            ),
            r is Err ==> *final(self) == *old(self),
            old(self).consistent() ==> final(self).consistent(),
    {
        let e = self.entry(id);
        if e.handler.is_none() {
            return Err(SetupError::NotRegistered);
        }
        if e.priority.is_none() {
            return Err(SetupError::NoPriority);
        }
        if !e.pending_cleared {
            return Err(SetupError::PendingNotCleared);
        }
        self.set_entry(id, Entry { enabled: true, ..e });
        Ok(())
    }

    /// The handler that an expiry of `id` runs: none while `id` is masked.
    pub fn handler_for(&self, id: Interrupt) -> (h: Option<Handler>)
        ensures
            h == (if self.entry_spec(id).enabled {
                self.entry_spec(id).handler
            } else {
                None
            }),
    {
        let e = self.entry(id);
        if e.enabled {
            e.handler
        } else {
            None
        }
    }

    /// Whether the handler of `a` may preempt that of `b`: both have a
    /// priority and that of `a` is numerically lower.
    pub fn preempts(&self, a: Interrupt, b: Interrupt) -> (r: bool)
        ensures
            r == (self.entry_spec(a).priority is Some && self.entry_spec(b).priority is Some
                && self.entry_spec(a).priority->Some_0 < self.entry_spec(b).priority->Some_0),
    {
        match (self.entry(a).priority, self.entry(b).priority) {
            (Some(pa), Some(pb)) => pa < pb,
            _ => false,
        }
    }
}

/// The effect of handler `h` on the timers.
pub open spec fn handled(h: Handler, s: TimerSlots) -> TimerSlots {
    match h {
        Handler::Timer0A => TimerSlots { timer0: cleared(s.timer0), ..s },
        Handler::Timer1A => TimerSlots { timer1: cleared(s.timer1), ..s },
    }
}

/// The timers after an expiry of `id` is dispatched through table `t`.
pub open spec fn serviced(t: DispatchTable, id: Interrupt, s: TimerSlots) -> TimerSlots {
    if t.entry_spec(id).enabled {
        handled(t.entry_spec(id).handler->Some_0, s)
    } else {
        s
    }
}

/// Whether each interrupt of `t` is bound to its own timer's handler.
pub open spec fn bound_to_own(t: DispatchTable) -> bool {
    t.timer0a.handler == Some(Handler::Timer0A) && t.timer1a.handler == Some(Handler::Timer1A)
}

/// Runs the body of handler `h`.
pub fn run_handler(h: Handler, slots: &mut TimerSlots)
    ensures
        *final(slots) == handled(h, *old(slots)),
{
    match h {
        Handler::Timer0A => timer0a_handler(slots),
        Handler::Timer1A => timer1a_handler(slots),
    }
}

/// Dispatches an expiry of `id`: runs the bound handler if `id` is unmasked,
/// and says whether one ran.
pub fn service(table: &DispatchTable, id: Interrupt, slots: &mut TimerSlots) -> (ran: bool)
    requires
        table.consistent(),
    ensures
        ran == table.entry_spec(id).enabled,
        *final(slots) == serviced(*table, id, *old(slots)),
{
    match table.handler_for(id) {
        Some(h) => {
            run_handler(h, slots);
            true
        },
        None => false,
    }
}

/// A table that starts consistent stays so under any setup step: no
/// interrupt is ever unmasked before it has a handler, a priority, and a
/// cleared pending flag.
pub proof fn lemma_unmasked_only_when_ready(t: DispatchTable, id: Interrupt)
    requires
        t.consistent(),
        t.entry_spec(id).enabled,
    ensures
        ready(t.entry_spec(id)),
        t.entry_spec(id).handler is Some,
{
}

/// With each interrupt bound to its own handler, dispatching an expiry of a
/// timer clears that timer's flag and leaves the other timer untouched.
pub proof fn lemma_each_handler_clears_its_own(t: DispatchTable, id: Interrupt, s: TimerSlots)
    requires
        t.consistent(),
        bound_to_own(t),
        t.entry_spec(id).enabled,
    ensures
        id == Interrupt::Timer0A ==> serviced(t, id, s).timer0 == cleared(s.timer0)
            && serviced(t, id, s).timer1 == s.timer1,
        id == Interrupt::Timer1A ==> serviced(t, id, s).timer1 == cleared(s.timer1)
            && serviced(t, id, s).timer0 == s.timer0,
{
}

/// Running a handler twice clears no more than running it once.
pub proof fn lemma_handler_idempotent(h: Handler, s: TimerSlots)
    ensures
        handled(h, handled(h, s)) == handled(h, s),
{
}

} // verus!
