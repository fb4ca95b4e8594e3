//! A fixed-capacity ring buffer shared by one producer and one consumer.
//!
//! The two cursors run over `0 .. 2 * capacity`, so that a full queue and an
//! empty one are told apart without a separate counter; each cursor picks its
//! slot by reduction modulo the capacity.
use vstd::prelude::*;

verus! {

/// The error of `push` on a full queue.
#[derive(Debug, Clone, Copy, PartialEq, Eq)]
pub struct Full;

/// The error of `pop` on an empty queue.
#[derive(Debug, Clone, Copy, PartialEq, Eq)]
pub struct Empty;

/// A bounded FIFO queue over caller-supplied slots.
pub struct AtomicQueue<T> {
    slots: Vec<Option<T>>,
    /// Next position to read, in `0 .. 2 * capacity`.
    head: usize,
    /// Next position to write, in `0 .. 2 * capacity`.
    tail: usize,
}

/// The slot that cursor position `c` stands for, for `0 <= c < 3 * n`.
pub open spec fn slot_of(n: int, c: int) -> int {
    if c < n {
        c
    } else if c < 2 * n {
        c - n
    } else {
        c - 2 * n
    }
}

/// Number of items between the cursors `head` and `tail`, both in `0 .. 2 * n`.
pub open spec fn distance(n: int, head: int, tail: int) -> int {
    if tail >= head {
        tail - head
    } else {
        tail + 2 * n - head
    }
}

/// One operation on a queue, as a caller issues it.
pub enum QueueOp<T> {
    Push(T),
    Pop,
}

/// Whether `op` succeeds on contents `s` of a queue with `cap` slots.
pub open spec fn accepted<T>(cap: nat, s: Seq<T>, op: QueueOp<T>) -> bool {
    match op {
        QueueOp::Push(_) => s.len() < cap,
        QueueOp::Pop => s.len() > 0,
    }
}

/// The contents after `op`: a push appends and a pop drops the oldest item
/// when accepted; otherwise nothing changes.
pub open spec fn step<T>(cap: nat, s: Seq<T>, op: QueueOp<T>) -> Seq<T> {
    match op {
        QueueOp::Push(v) => if s.len() < cap {
            s.push(v)
        } else {
            s
        },
        QueueOp::Pop => if s.len() > 0 {
            s.drop_first()
        } else {
            s
        },
    }
}

/// The contents after the operations `ops`, in order.
pub open spec fn run<T>(cap: nat, s: Seq<T>, ops: Seq<QueueOp<T>>) -> Seq<T>
    decreases ops.len(),
{
    if ops.len() == 0 {
        s
    } else {
        run(cap, step(cap, s, ops[0]), ops.drop_first())
    }
}

/// The values handed out by the accepted pops among `ops`, in order.
pub open spec fn popped<T>(cap: nat, s: Seq<T>, ops: Seq<QueueOp<T>>) -> Seq<T>
    decreases ops.len(),
{
    if ops.len() == 0 {
        Seq::empty()
    } else {
        let head = if ops[0] is Pop && s.len() > 0 {
            seq![s[0]]
        } else {
            Seq::empty()
        };
        head + popped(cap, step(cap, s, ops[0]), ops.drop_first())
    }
}

/// The number of accepted pushes among `ops`.
pub open spec fn pushes_accepted<T>(cap: nat, s: Seq<T>, ops: Seq<QueueOp<T>>) -> nat
    decreases ops.len(),
{
    if ops.len() == 0 {
        0
    } else {
        (if ops[0] is Push && accepted(cap, s, ops[0]) {
            1nat
        } else {
            0nat
        }) + pushes_accepted(cap, step(cap, s, ops[0]), ops.drop_first())
    }
}

/// The number of accepted pops among `ops`.
pub open spec fn pops_accepted<T>(cap: nat, s: Seq<T>, ops: Seq<QueueOp<T>>) -> nat
    decreases ops.len(),
{
    if ops.len() == 0 {
        0
    } else {
        (if ops[0] is Pop && accepted(cap, s, ops[0]) {
            1nat
        } else {
            0nat
        }) + pops_accepted(cap, step(cap, s, ops[0]), ops.drop_first())
    }
}

/// A push of each of `vs`, in order.
pub open spec fn pushes_of<T>(vs: Seq<T>) -> Seq<QueueOp<T>> {
    Seq::new(vs.len(), |i: int| QueueOp::Push(vs[i]))
}

/// `k` pops.
pub open spec fn pops_of<T>(k: nat) -> Seq<QueueOp<T>> {
    Seq::new(k, |i: int| QueueOp::Pop)
}

/// Over any sequence of operations, the number of items held is the number
/// of accepted pushes less the number of accepted pops, and never exceeds
/// the capacity.
pub proof fn lemma_count_tracks<T>(cap: nat, s: Seq<T>, ops: Seq<QueueOp<T>>)
    requires
        s.len() <= cap,
    ensures
        run(cap, s, ops).len() + pops_accepted(cap, s, ops) == s.len() + pushes_accepted(
            cap,
            s,
            ops,
        ),
        run(cap, s, ops).len() <= cap,
    decreases ops.len(),
{
    if ops.len() > 0 {
        lemma_count_tracks(cap, step(cap, s, ops[0]), ops.drop_first());
    }
}

/// Running `a` then `b` is running `a + b`; the values popped are those of
/// `a` followed by those of `b`.
pub proof fn lemma_run_append<T>(cap: nat, s: Seq<T>, a: Seq<QueueOp<T>>, b: Seq<QueueOp<T>>)
    ensures
        run(cap, s, a + b) == run(cap, run(cap, s, a), b),
        popped(cap, s, a + b) == popped(cap, s, a) + popped(cap, run(cap, s, a), b),
    decreases a.len(),
{
    if a.len() == 0 {
        assert(a + b =~= b);
        assert(popped(cap, s, a) + popped(cap, s, b) =~= popped(cap, s, b));
    } else {
        assert((a + b).drop_first() =~= a.drop_first() + b);
        lemma_run_append(cap, step(cap, s, a[0]), a.drop_first(), b);
        let h = if a[0] is Pop && s.len() > 0 {
            seq![s[0]]
        } else {
            Seq::empty()
        };
        let t = step(cap, s, a[0]);
        assert(h + (popped(cap, t, a.drop_first()) + popped(cap, run(cap, s, a), b)) =~= (h
            + popped(cap, t, a.drop_first())) + popped(cap, run(cap, s, a), b));
    }
}

/// Pushing values that fit appends them all and pops nothing.
pub proof fn lemma_run_pushes<T>(cap: nat, s: Seq<T>, vs: Seq<T>)
    requires
        s.len() + vs.len() <= cap,
    ensures
        run(cap, s, pushes_of(vs)) == s + vs,
        popped(cap, s, pushes_of(vs)) == Seq::<T>::empty(),
    decreases vs.len(),
{
    if vs.len() == 0 {
        assert(s + vs =~= s);
    } else {
        assert(pushes_of(vs).drop_first() =~= pushes_of(vs.drop_first()));
        lemma_run_pushes(cap, s.push(vs[0]), vs.drop_first());
        assert(s.push(vs[0]) + vs.drop_first() =~= s + vs);
        assert(Seq::<T>::empty() + Seq::<T>::empty() =~= Seq::<T>::empty());
    }
}

/// Popping as many times as there are items hands them all out, oldest
/// first, and leaves the queue empty.
pub proof fn lemma_run_pops<T>(cap: nat, s: Seq<T>)
    ensures
        run(cap, s, pops_of(s.len())) == Seq::<T>::empty(),
        popped(cap, s, pops_of(s.len())) == s,
    decreases s.len(),
{
    if s.len() == 0 {
        assert(s =~= Seq::<T>::empty());
    } else {
        assert(pops_of::<T>(s.len()).drop_first() =~= pops_of::<T>(s.drop_first().len()));
        lemma_run_pops(cap, s.drop_first());
        assert(seq![s[0]] + s.drop_first() =~= s);
    }
}

/// Pushing `capacity` values into an empty queue and then popping
/// `capacity` times hands back exactly those values, in the order pushed,
/// and leaves the queue empty.
pub proof fn lemma_fill_then_drain<T>(cap: nat, vs: Seq<T>)
    requires
        cap >= 1,
        vs.len() == cap,
    ensures
        run(cap, Seq::empty(), pushes_of(vs) + pops_of(cap)) == Seq::<T>::empty(),
        popped(cap, Seq::empty(), pushes_of(vs) + pops_of(cap)) == vs,
{
    lemma_run_append(cap, Seq::<T>::empty(), pushes_of(vs), pops_of(cap));
    lemma_run_pushes(cap, Seq::<T>::empty(), vs);
    assert(Seq::<T>::empty() + vs =~= vs);
    lemma_run_pops(cap, vs);
    assert(Seq::<T>::empty() + vs =~= vs);
}

/// A push on a full queue and a pop on an empty one leave the contents as
/// they were.
pub proof fn lemma_rejected_ops_change_nothing<T>(cap: nat, s: Seq<T>, v: T)
    ensures
        s.len() >= cap ==> step(cap, s, QueueOp::Push(v)) == s && !accepted(cap, s, QueueOp::Push(v)),
        s.len() == 0 ==> step(cap, s, QueueOp::Pop) == s && !accepted(cap, s, QueueOp::<T>::Pop),
{
}

impl<T> AtomicQueue<T> {
    /// The number of slots.
    pub closed spec fn capacity_spec(&self) -> nat {
        self.slots@.len()
    }

    spec fn count(&self) -> int {
        distance(self.slots@.len() as int, self.head as int, self.tail as int)
    }

    spec fn slot_at(&self, i: int) -> int {
        slot_of(self.slots@.len() as int, self.head + i)
    }

    /// The internal invariant: cursors in range, and each live slot filled.
    pub closed spec fn well_formed(&self) -> bool {
        &&& self.slots@.len() > 0
        &&& 2 * self.slots@.len() <= usize::MAX
        &&& self.head < 2 * self.slots@.len()
        &&& self.tail < 2 * self.slots@.len()
        &&& self.count() <= self.slots@.len()
        &&& forall|i: int| 0 <= i < self.count() ==> (#[trigger] self.slots@[self.slot_at(i)]) is Some
    }
}

impl<T> View for AtomicQueue<T> {
    type V = Seq<T>;

    /// The items held, oldest first.
    closed spec fn view(&self) -> Seq<T> {
        Seq::new(self.count() as nat, |i: int| self.slots@[self.slot_at(i)]->Some_0)
    }
}

impl<T> AtomicQueue<T> {
    /// Makes an empty queue whose capacity is the number of slots given.
    pub fn new(storage: Vec<Option<T>>) -> (q: Self)
        requires
            storage@.len() > 0,
            2 * storage@.len() <= usize::MAX,
        ensures
            q.well_formed(),
            q.capacity_spec() == storage@.len(),
            q@ == Seq::<T>::empty(),
    {
        let q = AtomicQueue { slots: storage, head: 0, tail: 0 };
        assert(q@ =~= Seq::<T>::empty());
        q
    }

    /// A well-formed queue holds at most as many items as it has slots.
    pub proof fn lemma_within_capacity(&self)
        requires
            self.well_formed(),
        ensures
            self@.len() <= self.capacity_spec(),
    {
    }

    pub fn capacity(&self) -> (r: usize)
        requires
            self.well_formed(),
        ensures
            r == self.capacity_spec(),
    {
        self.slots.len()
    }

    /// The number of items held.
    pub fn len(&self) -> (r: usize)
        requires
            self.well_formed(),
        ensures
            r == self@.len(),
            r <= self.capacity_spec(),
    {
        if self.tail >= self.head {
            self.tail - self.head
        } else {
            self.tail + (2 * self.slots.len() - self.head)
        }
    }

    pub fn is_empty(&self) -> (r: bool)
        requires
            self.well_formed(),
        ensures
            r == (self@.len() == 0),
    {
        self.len() == 0
    }

    pub fn is_full(&self) -> (r: bool)
        requires
            self.well_formed(),
        ensures
            r == (self@.len() == self.capacity_spec()),
    {
        self.len() == self.slots.len()
    }

    /// Appends `value` if there is room; on a full queue returns `Full` and
    /// changes nothing.
    pub fn push(&mut self, value: T) -> (r: Result<(), Full>)
        requires
            old(self).well_formed(),
        ensures
            final(self).well_formed(),
            final(self).capacity_spec() == old(self).capacity_spec(),
            r is Ok <==> old(self)@.len() < old(self).capacity_spec(),
            r is Ok ==> final(self)@ == old(self)@.push(value),
            r is Err ==> *final(self) == *old(self),
            final(self)@ == step(old(self).capacity_spec(), old(self)@, QueueOp::Push(value)),
    {
        let n = self.slots.len();
        if self.len() == n {
            return Err(Full);
        }
        let ghost before = self@;
        let k = if self.tail < n { self.tail } else { self.tail - n };
        self.slots.set(k, Some(value));
        self.tail = if self.tail + 1 == 2 * n { 0 } else { self.tail + 1 };
        assert(self.count() == before.len() + 1);
        assert forall|i: int| 0 <= i < self.count() implies (#[trigger] self.slots@[self.slot_at(i)]) is Some by {
            if i < before.len() {
                assert(old(self).slots@[old(self).slot_at(i)] is Some);
            }
        }
        assert(self@ =~= before.push(value)) by {
            assert forall|i: int| 0 <= i < before.len() implies self@[i] == before[i] by {
                assert(self.slot_at(i) != k);
            }
        }
        Ok(())
    }

    /// Removes and returns the oldest item; on an empty queue returns `Empty`
    /// and changes nothing.
    pub fn pop(&mut self) -> (r: Result<T, Empty>)
        requires
            old(self).well_formed(),
        ensures
            final(self).well_formed(),
            final(self).capacity_spec() == old(self).capacity_spec(),
            r is Ok <==> old(self)@.len() > 0,
            r is Ok ==> r->Ok_0 == old(self)@[0] && final(self)@ == old(self)@.drop_first(),
            r is Err ==> *final(self) == *old(self),
            final(self)@ == step(old(self).capacity_spec(), old(self)@, QueueOp::Pop),
            r is Ok ==> seq![r->Ok_0] == popped(old(self).capacity_spec(), old(self)@, seq![QueueOp::Pop]),
    {
        let n = self.slots.len();
        if self.len() == 0 {
            return Err(Empty);
        }
        let ghost before = self@;
        let k = if self.head < n { self.head } else { self.head - n };
        assert(old(self).slots@[old(self).slot_at(0)] is Some);
        let mut taken: Option<T> = None;
        self.slots.set_and_swap(k, &mut taken);
        self.head = if self.head + 1 == 2 * n { 0 } else { self.head + 1 };
        assert(self.count() == before.len() - 1);
        assert forall|i: int| 0 <= i < self.count() implies (#[trigger] self.slots@[self.slot_at(i)]) is Some by {
            assert(self.slot_at(i) == old(self).slot_at(i + 1));
            assert(old(self).slots@[old(self).slot_at(i + 1)] is Some);
        }
        assert(self@ =~= before.drop_first()) by {
            assert forall|i: int| 0 <= i < self@.len() implies self@[i] == before.drop_first()[i] by {
                assert(self.slot_at(i) == old(self).slot_at(i + 1));
            }
        }
        proof {
            let one = seq![QueueOp::<T>::Pop];
            assert(one.drop_first() =~= Seq::<QueueOp<T>>::empty());
            assert(seq![before[0]] + Seq::<T>::empty() =~= seq![before[0]]);
            assert(one[0] is Pop);
            assert(popped(old(self).capacity_spec(), step(old(self).capacity_spec(), before, one[0]), one.drop_first()) == Seq::<T>::empty());
            assert(popped(old(self).capacity_spec(), before, one) == seq![before[0]]);
            assert(taken == Some(before[0]));
        }
        match taken {
            Some(v) => Ok(v),
            None => Err(Empty),
        }
    }
}

} // verus!
