//! The queue's algorithm with each operation cut into its single memory
//! steps, the producer and the consumer running as separate contexts that may
//! preempt each other between any two steps.
//!
//! The producer alone writes `tail` and the consumer alone writes `head`.
//! A push loads `head`, checks for room, writes its slot, then publishes the
//! new `tail`; a pop loads `tail`, checks for an item, takes it out of its
//! slot, then publishes the new `head`.
use vstd::prelude::*;
use crate::queue::{QueueOp, distance, slot_of, step};

verus! {

/// Where the producer stands within a push.
pub enum ProducerPc<T> {
    Idle,
    /// `head` was read as `seen_head`; `value` waits to go in.
    Loaded { seen_head: int, value: T },
    /// There is room.
    Checked { value: T },
    /// The value is in its slot but `tail` is not yet published.
    Written { value: T },
}

/// Where the consumer stands within a pop.
pub enum ConsumerPc<T> {
    Idle,
    /// `tail` was read as `seen_tail`.
    Loaded { seen_tail: int },
    /// There is an item.
    Checked,
    /// The item was taken from its slot but `head` is not yet published.
    Read { value: T },
}

/// The shared ring, both contexts, and what has been pushed and popped so far.
pub struct SharedState<T> {
    pub n: int,
    pub slots: Seq<Option<T>>,
    pub head: int,
    pub tail: int,
    pub producer: ProducerPc<T>,
    pub consumer: ConsumerPc<T>,
    /// Values whose push has been published, in order.
    pub pushed: Seq<T>,
    /// Values whose pop has been published, in order.
    pub popped: Seq<T>,
}

/// One step of one context. A step that its context is not ready for does
/// nothing.
pub enum Action<T> {
    /// Start a push of `value`: read `head`.
    ProducerLoad(T),
    ProducerCheck,
    ProducerWrite,
    ProducerPublish,
    /// Start a pop: read `tail`.
    ConsumerLoad,
    ConsumerCheck,
    ConsumerRead,
    ConsumerPublish,
}

/// The cursor after `c`.
pub open spec fn advance(n: int, c: int) -> int {
    if c + 1 == 2 * n {
        0
    } else {
        c + 1
    }
}

/// An empty ring of `n` slots, both contexts idle.
pub open spec fn initial<T>(n: int) -> SharedState<T> {
    SharedState {
        n,
        slots: Seq::new(n as nat, |i: int| None),
        head: 0,
        tail: 0,
        producer: ProducerPc::Idle,
        consumer: ConsumerPc::Idle,
        pushed: Seq::empty(),
        popped: Seq::empty(),
    }
}

impl<T> SharedState<T> {
    /// Items published and not yet popped.
    pub open spec fn count(&self) -> int {
        distance(self.n, self.head, self.tail)
    }

    pub open spec fn slot(&self, c: int) -> int {
        slot_of(self.n, c)
    }

    /// The items held, oldest first: the one a consumer has taken but not yet
    /// released still counts.
    pub open spec fn contents(&self) -> Seq<T> {
        Seq::new(
            self.count() as nat,
            |i: int|
                if i == 0 && self.consumer is Read {
                    self.consumer->Read_value
                } else {
                    self.slots[self.slot(self.head + i)]->Some_0
                },
        )
    }

    /// The state after `a`.
    pub open spec fn next(self, a: Action<T>) -> SharedState<T> {
        match a {
            Action::ProducerLoad(v) => if self.producer is Idle {
                SharedState { producer: ProducerPc::Loaded { seen_head: self.head, value: v }, ..self }
            } else {
                self
            },
            Action::ProducerCheck => match self.producer {
                ProducerPc::Loaded { seen_head, value } => if distance(self.n, seen_head, self.tail)
                    >= self.n {
                    SharedState { producer: ProducerPc::Idle, ..self }
                } else {
                    SharedState { producer: ProducerPc::Checked { value }, ..self }
                },
                _ => self,
            },
            Action::ProducerWrite => match self.producer {
                ProducerPc::Checked { value } => SharedState {
                    slots: self.slots.update(self.slot(self.tail), Some(value)),
                    producer: ProducerPc::Written { value },
                    ..self
                },
                _ => self,
            },
            Action::ProducerPublish => match self.producer {
                ProducerPc::Written { value } => SharedState {
                    tail: advance(self.n, self.tail),
                    producer: ProducerPc::Idle,
                    pushed: self.pushed.push(value),
                    ..self
                },
                _ => self,
            },
            Action::ConsumerLoad => if self.consumer is Idle {
                SharedState { consumer: ConsumerPc::Loaded { seen_tail: self.tail }, ..self }
            } else {
                self
            },
            Action::ConsumerCheck => match self.consumer {
                ConsumerPc::Loaded { seen_tail } => if distance(self.n, self.head, seen_tail) == 0 {
                    SharedState { consumer: ConsumerPc::Idle, ..self }
                } else {
                    SharedState { consumer: ConsumerPc::Checked, ..self }
                },
                _ => self,
            },
            Action::ConsumerRead => match self.consumer {
                ConsumerPc::Checked => SharedState {
                    slots: self.slots.update(self.slot(self.head), None),
                    consumer: ConsumerPc::Read { value: self.slots[self.slot(self.head)]->Some_0 },
                    ..self
                },
                _ => self,
            },
            Action::ConsumerPublish => match self.consumer {
                ConsumerPc::Read { value } => SharedState {
                    head: advance(self.n, self.head),
                    consumer: ConsumerPc::Idle,
                    popped: self.popped.push(value),
                    ..self
                },
                _ => self,
            },
        }
    }

    /// What holds between any two steps.
    pub open spec fn inv(&self) -> bool {
        &&& self.n > 0
        &&& self.slots.len() == self.n
        &&& 0 <= self.head < 2 * self.n
        &&& 0 <= self.tail < 2 * self.n
        &&& self.count() <= self.n
        &&& forall|i: int|
            0 <= i < self.count() && !(i == 0 && self.consumer is Read) ==> (#[trigger] self.slots[self.slot(
                self.head + i,
            )]) is Some
        &&& self.popped + self.contents() == self.pushed
        &&& match self.producer {
            ProducerPc::Idle => true,
            ProducerPc::Loaded { seen_head, value } => {
                &&& 0 <= seen_head < 2 * self.n
                &&& distance(self.n, seen_head, self.tail) <= self.n
                &&& distance(self.n, seen_head, self.head) + self.count() == distance(
                    self.n,
                    seen_head,
                    self.tail,
                )
            },
            ProducerPc::Checked { value } => self.count() < self.n,
            ProducerPc::Written { value } => self.count() < self.n && self.slots[self.slot(
                self.tail,
            )] == Some(value),
        }
        &&& match self.consumer {
            ConsumerPc::Idle => true,
            ConsumerPc::Loaded { seen_tail } => {
                &&& 0 <= seen_tail < 2 * self.n
                &&& distance(self.n, self.head, seen_tail) + distance(self.n, seen_tail, self.tail)
                    == self.count()
            },
            ConsumerPc::Checked => self.count() >= 1,
            ConsumerPc::Read { value } => self.count() >= 1,
        }
    }
}

/// The state after the steps `acts`, in order.
pub open spec fn run_steps<T>(s: SharedState<T>, acts: Seq<Action<T>>) -> SharedState<T>
    decreases acts.len(),
{
    if acts.len() == 0 {
        s
    } else {
        run_steps(s.next(acts[0]), acts.drop_first())
    }
}

/// The steps of one push of `v`.
pub open spec fn push_steps<T>(v: T) -> Seq<Action<T>> {
    seq![Action::ProducerLoad(v), Action::ProducerCheck, Action::ProducerWrite, Action::ProducerPublish]
}

/// The steps of one pop.
pub open spec fn pop_steps<T>() -> Seq<Action<T>> {
    seq![Action::ConsumerLoad, Action::ConsumerCheck, Action::ConsumerRead, Action::ConsumerPublish]
}

/// Run without preemption, the steps of a push or of a pop change the
/// contents exactly as `AtomicQueue::push` and `AtomicQueue::pop` do.
pub proof fn lemma_uninterrupted_steps_match_queue<T>(s: SharedState<T>, v: T)
    requires
        s.inv(),
        s.producer is Idle,
        s.consumer is Idle,
    ensures
        run_steps(s, push_steps(v)).contents() == step(s.n as nat, s.contents(), QueueOp::Push(v)),
        run_steps(s, pop_steps::<T>()).contents() == step(s.n as nat, s.contents(), QueueOp::Pop),
{
    let a = push_steps(v);
    let p1 = s.next(a[0]);
    let p2 = p1.next(a[1]);
    let p3 = p2.next(a[2]);
    let p4 = p3.next(a[3]);
    lemma_step_keeps_inv(s, a[0]);
    lemma_step_keeps_inv(p1, a[1]);
    lemma_step_keeps_inv(p2, a[2]);
    lemma_step_keeps_inv(p3, a[3]);
    assert(a.drop_first().drop_first().drop_first().drop_first() =~= Seq::<Action<T>>::empty());
    assert(run_steps(s, a) == p4) by {
        let r1 = a.drop_first();
        let r2 = r1.drop_first();
        let r3 = r2.drop_first();
        let r4 = r3.drop_first();
        assert(r1[0] == a[1] && r2[0] == a[2] && r3[0] == a[3]);
        assert(run_steps(p4, r4) == p4);
        assert(run_steps(p3, r3) == run_steps(p4, r4));
        assert(run_steps(p2, r2) == run_steps(p3, r3));
        assert(run_steps(p1, r1) == run_steps(p2, r2));
        assert(run_steps(s, a) == run_steps(p1, r1));
    }
    if s.count() < s.n {
        assert(p4.pushed == s.pushed.push(v));
        assert(p4.popped == s.popped);
        assert(p4.contents() =~= s.contents().push(v)) by {
            assert(s.popped + p4.contents() == (s.popped + s.contents()).push(v));
            assert((s.popped + s.contents()).push(v) =~= s.popped + s.contents().push(v));
            assert(p4.contents() =~= (s.popped + p4.contents()).subrange(
                s.popped.len() as int,
                (s.popped + p4.contents()).len() as int,
            ));
        }
    } else {
        assert(p4 == p2);
        assert(p4.contents() =~= s.contents());
    }
    let b = pop_steps::<T>();
    let q1 = s.next(b[0]);
    let q2 = q1.next(b[1]);
    let q3 = q2.next(b[2]);
    let q4 = q3.next(b[3]);
    lemma_step_keeps_inv(s, b[0]);
    lemma_step_keeps_inv(q1, b[1]);
    lemma_step_keeps_inv(q2, b[2]);
    lemma_step_keeps_inv(q3, b[3]);
    assert(b.drop_first().drop_first().drop_first().drop_first() =~= Seq::<Action<T>>::empty());
    assert(run_steps(s, b) == q4) by {
        let r1 = b.drop_first();
        let r2 = r1.drop_first();
        let r3 = r2.drop_first();
        let r4 = r3.drop_first();
        assert(r1[0] == b[1] && r2[0] == b[2] && r3[0] == b[3]);
        assert(run_steps(q4, r4) == q4);
        assert(run_steps(q3, r3) == run_steps(q4, r4));
        assert(run_steps(q2, r2) == run_steps(q3, r3));
        assert(run_steps(q1, r1) == run_steps(q2, r2));
        assert(run_steps(s, b) == run_steps(q1, r1));
    }
    if s.count() > 0 {
        assert(q4.pushed == s.pushed);
        assert(q4.popped == s.popped.push(s.contents()[0]));
        assert(q4.contents() =~= s.contents().drop_first()) by {
            assert(s.popped.push(s.contents()[0]) + q4.contents() == s.popped + s.contents());
            assert(s.contents() =~= seq![s.contents()[0]] + s.contents().drop_first());
            assert(s.popped + s.contents() =~= s.popped.push(s.contents()[0]) + s.contents().drop_first());
            let whole = s.popped + s.contents();
            let k = s.popped.len() as int + 1;
            assert(q4.contents() =~= (s.popped.push(s.contents()[0]) + q4.contents()).subrange(k, whole.len() as int));
            assert(s.contents().drop_first() =~= (s.popped.push(s.contents()[0]) + s.contents().drop_first()).subrange(k, whole.len() as int));
        }
    } else {
        assert(q4 == q2);
        assert(q4.contents() =~= s.contents());
    }
}

/// Every step keeps the invariant.
pub proof fn lemma_step_keeps_inv<T>(s: SharedState<T>, a: Action<T>)
    requires
        s.inv(),
    ensures
        s.next(a).inv(),
{
    let t = s.next(a);
    match a {
        Action::ProducerLoad(v) => {
            assert(t.contents() =~= s.contents());
            assert forall|i: int|
                0 <= i < t.count() && !(i == 0 && t.consumer is Read) implies (#[trigger] t.slots[t.slot(
                t.head + i,
            )]) is Some by {
                assert(s.slots[s.slot(s.head + i)] is Some);
            }
        },
        Action::ProducerCheck => {
            assert(t.contents() =~= s.contents());
            assert forall|i: int|
                0 <= i < t.count() && !(i == 0 && t.consumer is Read) implies (#[trigger] t.slots[t.slot(
                t.head + i,
            )]) is Some by {
                assert(s.slots[s.slot(s.head + i)] is Some);
            }
        },
        Action::ProducerWrite => {
            let k = s.slot(s.tail);
            if s.producer is Checked {
                assert forall|i: int| 0 <= i < s.count() implies #[trigger] s.slot(s.head + i) != k by {}
                assert(t.contents() =~= s.contents());
                assert forall|i: int|
                    0 <= i < t.count() && !(i == 0 && t.consumer is Read) implies (#[trigger] t.slots[t.slot(
                    t.head + i,
                )]) is Some by {
                    assert(s.slot(s.head + i) != k);
                }
            }
        },
        Action::ProducerPublish => {
            if let ProducerPc::Written { value } = s.producer {
                assert(t.count() == s.count() + 1);
                assert(t.slot(t.head + s.count()) == s.slot(s.tail));
                assert forall|i: int|
                    0 <= i < t.count() && !(i == 0 && t.consumer is Read) implies (#[trigger] t.slots[t.slot(
                    t.head + i,
                )]) is Some by {
                    if i < s.count() {
                        assert(s.slots[s.slot(s.head + i)] is Some);
                    }
                }
                assert(t.contents() =~= s.contents().push(value)) by {
                    if s.consumer is Read {
                        assert(s.slot(s.tail) != s.slot(s.head));
                    }
                }
                assert(s.popped + s.contents().push(value) =~= (s.popped + s.contents()).push(value));
            }
        },
        Action::ConsumerLoad => {
            assert(t.contents() =~= s.contents());
            assert forall|i: int|
                0 <= i < t.count() && !(i == 0 && t.consumer is Read) implies (#[trigger] t.slots[t.slot(
                t.head + i,
            )]) is Some by {
                assert(s.slots[s.slot(s.head + i)] is Some);
            }
        },
        Action::ConsumerCheck => {
            assert(t.contents() =~= s.contents());
            assert forall|i: int|
                0 <= i < t.count() && !(i == 0 && t.consumer is Read) implies (#[trigger] t.slots[t.slot(
                t.head + i,
            )]) is Some by {
                assert(s.slots[s.slot(s.head + i)] is Some);
            }
        },
        Action::ConsumerRead => {
            if s.consumer is Checked {
                let k = s.slot(s.head);
                assert(s.slots[s.slot(s.head + 0)] is Some);
                assert forall|i: int| 1 <= i < s.count() implies #[trigger] s.slot(s.head + i) != k by {}
                assert(t.contents() =~= s.contents());
                assert forall|i: int|
                    0 <= i < t.count() && !(i == 0 && t.consumer is Read) implies (#[trigger] t.slots[t.slot(
                    t.head + i,
                )]) is Some by {
                    assert(s.slot(s.head + i) != k);
                }
                if let ProducerPc::Written { value } = s.producer {
                    assert(s.slot(s.tail) != k);
                }
            }
        },
        Action::ConsumerPublish => {
            if let ConsumerPc::Read { value } = s.consumer {
                assert(t.count() == s.count() - 1);
                assert forall|i: int| 0 <= i < t.count() implies #[trigger] t.slot(t.head + i) == s.slot(
                    s.head + i + 1,
                ) by {}
                assert forall|i: int|
                    0 <= i < t.count() && !(i == 0 && t.consumer is Read) implies (#[trigger] t.slots[t.slot(
                    t.head + i,
                )]) is Some by {
                    assert(s.slots[s.slot(s.head + (i + 1))] is Some);
                }
                assert(t.contents() =~= s.contents().drop_first());
                assert(s.contents()[0] == value);
                assert(t.popped + t.contents() =~= s.popped + s.contents());
            }
        },
    }
}

/// However the steps of one pushing context and one popping context
/// interleave, the count stays between zero and the capacity, and the values
/// popped followed by those still held are exactly the values pushed: none is
/// lost, duplicated or reordered.
pub proof fn lemma_any_interleaving_is_safe<T>(n: int, acts: Seq<Action<T>>)
    requires
        n > 0,
    ensures
        run_steps(initial::<T>(n), acts).inv(),
        0 <= run_steps(initial::<T>(n), acts).count() <= n,
        run_steps(initial::<T>(n), acts).popped + run_steps(initial::<T>(n), acts).contents()
            == run_steps(initial::<T>(n), acts).pushed,
{
    let s0 = initial::<T>(n);
    assert(s0.contents() =~= Seq::<T>::empty());
    assert(s0.popped + s0.contents() =~= s0.pushed);
    lemma_run_keeps_inv(s0, acts);
}

/// Any run of steps from a state that keeps the invariant keeps it.
pub proof fn lemma_run_keeps_inv<T>(s: SharedState<T>, acts: Seq<Action<T>>)
    requires
        s.inv(),
    ensures
        run_steps(s, acts).inv(),
        run_steps(s, acts).n == s.n,
    decreases acts.len(),
{
    if acts.len() > 0 {
        lemma_step_keeps_inv(s, acts[0]);
        lemma_run_keeps_inv(s.next(acts[0]), acts.drop_first());
    }
}

} // verus!
