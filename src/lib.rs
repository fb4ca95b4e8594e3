//! Control core for a two-timer microcontroller program: a bounded
//! single-producer single-consumer queue, the main loop's step over it, two
//! periodic timers with their interrupt handlers, and the table that binds
//! and prioritises those interrupts.
use vstd::prelude::*;

pub mod control;
pub mod dispatch;
pub mod interleaving;
pub mod queue;
pub mod timer;

verus! {

} // verus!
