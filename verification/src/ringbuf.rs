//! A first-in first-out queue of fixed capacity, kept in a circular array.

use vstd::prelude::*;

verus! {

/// The error of a push on a full queue.
#[derive(Clone, Copy, Debug, PartialEq, Eq, Structural)]
pub struct Overflow;

/// A queue of at most `N` items. Its view is the items, oldest first.
pub struct RingBuffer<T: Copy, const N: usize> {
    slots: [Option<T>; N],
    head: usize,
    len: usize,
}

/// The slot of the `i`-th item of a queue whose oldest item is in slot
/// `head`, in a circle of `n` slots.
pub open spec fn slot_of(head: int, i: int, n: int) -> int {
    if head + i >= n {
        head + i - n
    } else {
        head + i
    }
}

/// What a push leaves in a queue of capacity `cap`: the item at the end, or
/// the queue as it was where it is full.
pub open spec fn pushed<T>(q: Seq<T>, cap: nat, item: T) -> Seq<T> {
    if q.len() < cap {
        q.push(item)
    } else {
        q
    }
}

/// What a pop hands out: the oldest item, if there is one.
pub open spec fn front<T>(q: Seq<T>) -> Option<T> {
    if q.len() > 0 {
        Some(q[0])
    } else {
        None
    }
}

/// What a pop or a discard leaves: the queue without its oldest item.
pub open spec fn popped<T>(q: Seq<T>) -> Seq<T> {
    if q.len() > 0 {
        q.subrange(1, q.len() as int)
    } else {
        q
    }
}

/// The queue after pushing the first `k` of `items`, in order.
pub open spec fn pushed_all<T>(q: Seq<T>, cap: nat, items: Seq<T>, k: nat) -> Seq<T>
    decreases k,
{
    if k == 0 {
        q
    } else {
        pushed(pushed_all(q, cap, items, (k - 1) as nat), cap, items[k - 1])
    }
}

/// The queue after `k` pops.
pub open spec fn popped_times<T>(q: Seq<T>, k: nat) -> Seq<T>
    decreases k,
{
    if k == 0 {
        q
    } else {
        popped(popped_times(q, (k - 1) as nat))
    }
}

impl<T: Copy, const N: usize> View for RingBuffer<T, N> {
    type V = Seq<T>;

    closed spec fn view(&self) -> Seq<T> {
        Seq::new(
            self.len as nat,
            |i: int| self.slots@[slot_of(self.head as int, i, N as int)].unwrap(),
        )
    }
}

impl<T: Copy, const N: usize> RingBuffer<T, N> {
    #[verifier::type_invariant]
    spec fn inv(self) -> bool {
        &&& self.len <= N
        &&& self.head < N || (N == 0 && self.head == 0)
        &&& forall|i: int|
            0 <= i < self.len ==> (#[trigger] self.slots@[slot_of(
                self.head as int,
                i,
                N as int,
            )]) is Some
    }

    pub fn new() -> (q: Self)
        ensures
            q@ == Seq::<T>::empty(),
    {
        let q = RingBuffer { slots: [None; N], head: 0, len: 0 };
        assert(q@ =~= Seq::<T>::empty());
        q
    }

    pub fn capacity(&self) -> (r: usize)
        ensures
            r == N,
    {
        N
    }

    pub fn len(&self) -> (r: usize)
        ensures
            r == self@.len(),
            r <= N,
    {
        proof {
            use_type_invariant(self);
        }
        self.len
    }

    pub fn is_empty(&self) -> (r: bool)
        ensures
            r == (self@.len() == 0),
    {
        self.len == 0
    }

    pub fn is_full(&self) -> (r: bool)
        ensures
            r == (self@.len() >= N),
            self@.len() <= N,
    {
        proof {
            use_type_invariant(self);
        }
        self.len == N
    }

    /// Appends `item`, or reports `Overflow` and changes nothing where the
    /// queue is full.
    pub fn push(&mut self, item: T) -> (r: Result<(), Overflow>)
        ensures
            r is Ok <==> old(self)@.len() < N,
            final(self)@ == pushed(old(self)@, N as nat, item),
            r is Err ==> *final(self) == *old(self),
            final(self)@.len() <= N,
        no_unwind
    {
        proof {
            use_type_invariant(&*self);
        }
        if self.len == N {
            return Err(Overflow);
        }
        let gap: usize = N - self.len;
        let slot: usize = if self.head >= gap {
            self.head - gap
        } else {
            self.head + self.len
        };
        let ghost before = *self;
        self.slots[slot] = Some(item);
        assert forall|i: int| 0 <= i < before.len implies (#[trigger] self.slots@[slot_of(
            self.head as int,
            i,
            N as int,
        )]) == before.slots@[slot_of(before.head as int, i, N as int)] by {}
        self.len = self.len + 1;
        assert(self@ =~= before@.push(item));
        Ok(())
    }

    /// Removes and returns the oldest item, if there is one.
    pub fn pop(&mut self) -> (r: Option<T>)
        ensures
            r == front(old(self)@),
            final(self)@ == popped(old(self)@),
        no_unwind
    {
        proof {
            use_type_invariant(&*self);
        }
        if self.len == 0 {
            return None;
        }
        let ghost before = *self;
        let item: Option<T> = self.slots[self.head];
        assert(item == Some(before@[0])) by {
            assert(before.slots@[slot_of(before.head as int, 0, N as int)] is Some);
        }
        self.advance();
        item
    }

    /// The oldest item, left in place.
    pub fn peek(&self) -> (r: Option<T>)
        ensures
            r == front(self@),
    {
        proof {
            use_type_invariant(self);
        }
        if self.len == 0 {
            return None;
        }
        let item: Option<T> = self.slots[self.head];
        assert(item == Some(self@[0])) by {
            assert(self.slots@[slot_of(self.head as int, 0, N as int)] is Some);
        }
        item
    }

    /// Removes the oldest item without returning it; does nothing on an
    /// empty queue.
    pub fn discard(&mut self)
        ensures
            final(self)@ == popped(old(self)@),
        no_unwind
    {
        if self.len > 0 {
            self.advance();
        }
    }

    fn advance(&mut self)
        requires
            old(self).len > 0,
        ensures
            final(self)@ == old(self)@.subrange(1, old(self)@.len() as int),
            final(self).slots == old(self).slots,
        no_unwind
    {
        proof {
            use_type_invariant(&*self);
        }
        let ghost before = *self;
        let next: usize = if self.head == N - 1 {
            0
        } else {
            self.head + 1
        };
        assert forall|i: int| 0 <= i < before.len - 1 implies #[trigger] slot_of(
            next as int,
            i,
            N as int,
        ) == slot_of(before.head as int, i + 1, N as int) by {}
        self.len = self.len - 1;
        self.head = next;
        assert(self@ =~= before@.subrange(1, before@.len() as int));
    }
}

/// Pushing the first `k` of `items` on an empty queue of capacity `cap`
/// keeps them all, in order, as long as `k` is within the capacity.
pub proof fn lemma_pushes_accepted<T>(cap: nat, items: Seq<T>, k: nat)
    requires
        k <= cap,
        k <= items.len(),
    ensures
        pushed_all(Seq::<T>::empty(), cap, items, k) == items.subrange(0, k as int),
    decreases k,
{
    if k > 0 {
        lemma_pushes_accepted(cap, items, (k - 1) as nat);
        assert(items.subrange(0, k - 1).push(items[k - 1]) =~= items.subrange(0, k as int));
    } else {
        assert(items.subrange(0, 0) =~= Seq::<T>::empty());
    }
}

/// `k` pops take the `k` oldest items of a queue, oldest first.
pub proof fn lemma_pops_in_order<T>(q: Seq<T>, k: nat)
    requires
        k <= q.len(),
    ensures
        popped_times(q, k) == q.subrange(k as int, q.len() as int),
        k < q.len() ==> front(popped_times(q, k)) == Some(q[k as int]),
        k == q.len() ==> front(popped_times(q, k)) == None::<T>,
    decreases k,
{
    if k > 0 {
        lemma_pops_in_order(q, (k - 1) as nat);
        assert(q.subrange(k - 1, q.len() as int).subrange(1, q.len() - (k - 1)) =~= q.subrange(
            k as int,
            q.len() as int,
        ));
    } else {
        assert(q.subrange(0, q.len() as int) =~= q);
    }
}

/// A queue of capacity `cap` takes `cap` items from empty and refuses one
/// more, which leaves the items as they were and in their order; `cap` pops
/// then hand them out oldest first, and the next pop finds nothing.
pub proof fn lemma_fill_overflow_drain<T>(cap: nat, items: Seq<T>, extra: T)
    requires
        items.len() == cap,
    ensures
        forall|k: nat|
            k < cap ==> (#[trigger] pushed_all(Seq::<T>::empty(), cap, items, k)).len() < cap,
        pushed_all(Seq::<T>::empty(), cap, items, cap) == items,
        pushed(items, cap, extra) == items,
        forall|k: nat| k < cap ==> front(#[trigger] popped_times(items, k)) == Some(items[k as int]),
        front(popped_times(items, cap)) == None::<T>,
        popped_times(items, cap) == Seq::<T>::empty(),
{
    assert forall|k: nat| k < cap implies (#[trigger] pushed_all(
        Seq::<T>::empty(),
        cap,
        items,
        k,
    )).len() < cap by {
        lemma_pushes_accepted(cap, items, k);
    }
    lemma_pushes_accepted(cap, items, cap);
    assert(items.subrange(0, cap as int) =~= items);
    assert forall|k: nat| k < cap implies front(#[trigger] popped_times(items, k)) == Some(
        items[k as int],
    ) by {
        lemma_pops_in_order(items, k);
    }
    lemma_pops_in_order(items, cap);
    assert(items.subrange(cap as int, cap as int) =~= Seq::<T>::empty());
}

} // verus!
