//! The steady-state step of the main loop: hand out the value pushed two
//! steps earlier, push the current counter, advance the counter.
use vstd::prelude::*;
use crate::queue::{AtomicQueue, Empty, Full, QueueOp, pushes_of, run, step};

verus! {

/// How many placeholder values the queue holds ahead of the first real one.
pub const LAG: usize = 2;

/// `c + 1`, wrapping modulo 256.
pub open spec fn next_counter(c: u8) -> u8 {
    ((c as int + 1) % 256) as u8
}

/// `c - d`, wrapping modulo 256.
pub open spec fn counter_minus(c: u8, d: u8) -> u8 {
    ((c as int - d as int) % 256) as u8
}

/// The queue contents at which the loop is in step: the two counters before `c`.
pub open spec fn lagged(c: u8) -> Seq<u8> {
    seq![counter_minus(c, 2), counter_minus(c, 1)]
}

/// The queue contents after one step from `s` with counter `c`.
pub open spec fn step_contents(cap: nat, s: Seq<u8>, c: u8) -> Seq<u8> {
    step(cap, step(cap, s, QueueOp::Pop), QueueOp::Push(c))
}

/// Queue contents and counter after `k` steps from a primed queue of `cap`
/// slots and a counter of zero.
pub open spec fn after_steps(cap: nat, k: nat) -> (Seq<u8>, u8)
    decreases k,
{
    if k == 0 {
        (seq![0u8, 0u8], 0u8)
    } else {
        let (s, c) = after_steps(cap, (k - 1) as nat);
        (step_contents(cap, s, c), next_counter(c))
    }
}

/// What one step reports.
#[derive(Debug, Clone, Copy, PartialEq, Eq)]
pub struct Report {
    /// The counter at the start of the step.
    pub counter: u8,
    /// The value popped: the counter pushed two steps earlier.
    pub two_values_ago: u8,
}

/// Fills the queue with `LAG` zero placeholders.
pub fn prime(queue: &mut AtomicQueue<u8>) -> (r: Result<(), Full>)
    requires
        old(queue).well_formed(),
    ensures
        final(queue).well_formed(),
        final(queue).capacity_spec() == old(queue).capacity_spec(),
        r is Ok <==> old(queue)@.len() + LAG <= old(queue).capacity_spec(),
        r is Ok ==> final(queue)@ == old(queue)@ + seq![0u8, 0u8],
        final(queue)@ == run(old(queue).capacity_spec(), old(queue)@, pushes_of(seq![0u8, 0u8])),
{
    let ghost cap = queue.capacity_spec();
    let ghost s0 = queue@;
    let ghost ops = pushes_of(seq![0u8, 0u8]);
    let first = queue.push(0);
    let ghost s1 = queue@;
    let second = queue.push(0);
    proof {
        let rest = ops.drop_first();
        assert(rest.drop_first() =~= Seq::<QueueOp<u8>>::empty());
        assert(ops[0] == QueueOp::Push(0u8));
        assert(rest[0] == QueueOp::Push(0u8));
        assert(run(cap, s1, rest) == run(cap, queue@, rest.drop_first()));
        assert(run(cap, s0, ops) == run(cap, s1, rest));
        if first is Ok && second is Ok {
            assert(queue@ =~= s0 + seq![0u8, 0u8]);
        }
    }
    match (first, second) {
        (Ok(()), Ok(())) => Ok(()),
        _ => Err(Full),
    }
}

/// One step of the loop with counter `*counter`: pops the oldest value,
/// pushes the counter, and advances the counter. On an empty queue returns
/// `Empty` and changes nothing.
pub fn control_step(queue: &mut AtomicQueue<u8>, counter: &mut u8) -> (r: Result<Report, Empty>)
    requires
        old(queue).well_formed(),
    ensures
        final(queue).well_formed(),
        final(queue).capacity_spec() == old(queue).capacity_spec(),
        r is Ok <==> old(queue)@.len() > 0,
        r is Ok ==> r->Ok_0 == (Report { counter: *old(counter), two_values_ago: old(queue)@[0] }),
        r is Ok ==> final(queue)@ == old(queue)@.drop_first().push(*old(counter)),
        r is Ok ==> final(queue)@ == step_contents(old(queue).capacity_spec(), old(queue)@, *old(counter)),
        r is Ok ==> *final(counter) == next_counter(*old(counter)),
        r is Err ==> *final(queue) == *old(queue) && *final(counter) == *old(counter),
{
    let c = *counter;
    proof {
        queue.lemma_within_capacity();
    }
    let two_values_ago = match queue.pop() {
        Ok(v) => v,
        Err(e) => return Err(e),
    };
    match queue.push(c) {
        Ok(()) => {},
        Err(_) => {
            return Err(Empty);
        },
    }
    *counter = if c == 255 { 0 } else { c + 1 };
    Ok(Report { counter: c, two_values_ago })
}

/// From a queue of at least two slots primed with two placeholders and a
/// counter starting at zero, after every step from the second on the queue
/// holds the two previous counters, so each later step reports as
/// `two_values_ago` its counter minus two, modulo 256.
pub proof fn lemma_lag_holds(cap: nat, k: nat)
    requires
        cap >= 2,
        k >= 2,
    ensures
        after_steps(cap, k).0 == lagged(after_steps(cap, k).1),
        after_steps(cap, k).1 == (k % 256) as u8,
        after_steps(cap, k).0[0] == counter_minus(after_steps(cap, k).1, 2),
    decreases k,
{
    let (s, c) = after_steps(cap, (k - 1) as nat);
    if k == 2 {
        let (s0, c0) = after_steps(cap, 0);
        assert(step(cap, s0, QueueOp::Pop) =~= seq![0u8]);
        assert(step_contents(cap, s0, c0) =~= seq![0u8, 0u8]);
        assert(step(cap, s, QueueOp::Pop) =~= seq![0u8]);
        assert(step_contents(cap, s, c) =~= seq![0u8, 1u8]);
        assert(lagged(2) =~= seq![0u8, 1u8]);
    } else {
        lemma_lag_holds(cap, (k - 1) as nat);
        assert(step(cap, s, QueueOp::Pop) =~= seq![counter_minus(c, 1)]);
        assert(step_contents(cap, s, c) =~= seq![counter_minus(c, 1), c]);
        assert(lagged(next_counter(c)) =~= seq![counter_minus(c, 1), c]);
    }
}

} // verus!
