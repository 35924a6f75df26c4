use vstd::prelude::*;

verus! {

/// `x` reduced once modulo `n`, for `0 <= x < 2 * n`.
pub open spec fn wrap(x: int, n: int) -> int {
    if x >= n {
        x - n
    } else {
        x
    }
}

/// Single-producer single-consumer ring buffer of `N` slots, `N - 1` of them usable.
///
/// `head` is advanced only by `push` (the producer), `tail` only by `pop` (the consumer);
/// one slot stays empty so that a full ring and an empty ring differ.
pub struct SpscQueue<T, const N: usize> {
    buffer: Vec<Option<T>>,
    head: usize,
    tail: usize,
}

impl<T, const N: usize> View for SpscQueue<T, N> {
    type V = Seq<T>;

    /// The queued values, oldest first.
    closed spec fn view(&self) -> Seq<T> {
        Seq::new(self.spec_len(), |i: int| self.buffer@[wrap(self.tail + i, N as int)]->Some_0)
    }
}

impl<T, const N: usize> SpscQueue<T, N> {
    closed spec fn spec_len(&self) -> nat {
        if self.head >= self.tail {
            (self.head - self.tail) as nat
        } else {
            (self.head + N - self.tail) as nat
        }
    }

    /// Ring indices in range, and every queued position holding a value.
    pub closed spec fn wf(&self) -> bool {
        &&& N >= 2
        &&& self.buffer@.len() == N
        &&& self.head < N
        &&& self.tail < N
        &&& forall|i: int| 0 <= i < self.spec_len() ==> (#[trigger] self.buffer@[wrap(self.tail + i, N as int)]) is Some
    }

    /// Usable capacity of every queue of this type.
    pub open spec fn capacity() -> nat {
        (N - 1) as nat
    }

    /// What every well-formed queue satisfies.
    pub proof fn lemma_len_bound(&self)
        requires
            self.wf(),
        ensures
            self@.len() <= Self::capacity(),
    {
    }

    /// Create an empty queue.
    pub fn new() -> (r: Self)
        requires
            N >= 2,
        ensures
            r.wf(),
            r@ == Seq::<T>::empty(),
    {
        let mut buffer: Vec<Option<T>> = Vec::new();
        let mut i: usize = 0;
        while i < N
            invariant
                i <= N,
                buffer@.len() == i,
            decreases N - i,
        {
            buffer.push(None);
            i = i + 1;
        }
        let r = SpscQueue { buffer, head: 0, tail: 0 };
        assert(r@ =~= Seq::<T>::empty());
        r
    }

    /// Append `val` (producer side). A full queue hands `val` back unchanged and stays as it is.
    pub fn push(&mut self, val: T) -> (r: Result<(), T>)
        requires
            old(self).wf(),
        ensures
            final(self).wf(),
            old(self)@.len() == Self::capacity() ==> r == Err::<(), T>(val) && final(self)@ == old(self)@,
            old(self)@.len() < Self::capacity() ==> r is Ok && final(self)@ == old(self)@.push(val),
    {
        let head = self.head;
        let next_head = if head + 1 == N { 0 } else { head + 1 };
        if next_head == self.tail {
            return Err(val);
        }
        let ghost old_view = self@;
        self.buffer[head] = Some(val);
        self.head = next_head;
        proof {
            assert forall|i: int| 0 <= i < self.spec_len() implies (#[trigger] self.buffer@[wrap(self.tail + i, N as int)]) is Some by {
                if i < old(self).spec_len() {
                    assert(wrap(self.tail + i, N as int) != head);
                }
            }
            assert forall|i: int| 0 <= i < old_view.len() implies self@[i] == old_view[i] by {
                assert(wrap(self.tail + i, N as int) != head);
            }
            assert(self@ =~= old_view.push(val));
        }
        Ok(())
    }

    /// Remove the oldest value (consumer side); `None` when empty.
    pub fn pop(&mut self) -> (r: Option<T>)
        requires
            old(self).wf(),
        ensures
            final(self).wf(),
            old(self)@.len() == 0 ==> r is None && final(self)@ == old(self)@,
            old(self)@.len() > 0 ==> r == Some(old(self)@[0]) && final(self)@ == old(self)@.drop_first(),
    {
        let tail = self.tail;
        if tail == self.head {
            return None;
        }
        let ghost old_view = self@;
        proof {
            assert(self.buffer@[wrap(self.tail + 0, N as int)] is Some);
        }
        let val = self.buffer[tail].take();
        self.tail = if tail + 1 == N { 0 } else { tail + 1 };
        proof {
            assert forall|i: int| 0 <= i < self.spec_len() implies (#[trigger] self.buffer@[wrap(self.tail + i, N as int)]) is Some by {
                assert(self.buffer@[wrap(old(self).tail + (i + 1), N as int)] is Some);
            }
            assert forall|i: int| 0 <= i < self@.len() implies self@[i] == old_view[i + 1] by {
                assert(wrap(self.tail + i, N as int) == wrap(old(self).tail + (i + 1), N as int));
            }
            assert(self@ =~= old_view.drop_first());
        }
        val
    }

    /// Whether nothing is queued.
    pub fn is_empty(&self) -> (r: bool)
        requires
            self.wf(),
        ensures
            r == (self@.len() == 0),
    {
        self.tail == self.head
    }

    /// Whether the queue holds its capacity.
    pub fn is_full(&self) -> (r: bool)
        requires
            self.wf(),
        ensures
            r == (self@.len() == Self::capacity()),
    {
        let head = self.head;
        let next_head = if head + 1 == N { 0 } else { head + 1 };
        next_head == self.tail
    }

    /// Number of queued values.
    pub fn len(&self) -> (r: usize)
        requires
            self.wf(),
        ensures
            r == self@.len(),
    {
        if self.head >= self.tail {
            self.head - self.tail
        } else {
            N - self.tail + self.head
        }
    }
}

/// Contents of a queue of capacity `cap` holding `q` after pushing each of `vals` in turn:
/// a push onto a full queue is refused and changes nothing.
pub open spec fn pushed_all<T>(q: Seq<T>, vals: Seq<T>, cap: nat) -> Seq<T>
    decreases vals.len(),
{
    if vals.len() == 0 {
        q
    } else {
        let before = pushed_all(q, vals.drop_last(), cap);
        if before.len() < cap {
            before.push(vals.last())
        } else {
            before
        }
    }
}

/// First-in first-out: pushing up to `cap` values onto an empty queue keeps them all, in
/// order, so that successive pops return them in that order; pushing `cap + 1` values
/// refuses the last one.
pub proof fn lemma_fifo<T>(vals: Seq<T>, cap: nat)
    ensures
        vals.len() <= cap ==> pushed_all(Seq::empty(), vals, cap) == vals,
        vals.len() == cap + 1 ==> pushed_all(Seq::empty(), vals, cap) == vals.drop_last(),
    decreases vals.len(),
{
    if vals.len() > 0 {
        let prefix = vals.drop_last();
        lemma_fifo(prefix, cap);
        if vals.len() <= cap {
            assert(prefix.push(vals.last()) =~= vals);
        } else if vals.len() == cap + 1 {
            assert(pushed_all(Seq::empty(), prefix, cap) == prefix);
        }
    }
}

/// Values that `k` successive pops return from a queue holding `q`: its oldest `k`, in
/// order (fewer once it is empty).
pub open spec fn popped<T>(q: Seq<T>, k: nat) -> Seq<T>
    decreases k,
{
    if k == 0 {
        Seq::empty()
    } else {
        let before = popped(q, (k - 1) as nat);
        let rest = q.skip(k - 1);
        if rest.len() > 0 {
            before.push(rest[0])
        } else {
            before
        }
    }
}

/// Popping a queue empty returns its values oldest first, one per pop, and the pop after
/// the last finds it empty.
pub proof fn lemma_pop_order<T>(q: Seq<T>, k: nat)
    requires
        k <= q.len(),
    ensures
        popped(q, k) == q.take(k as int),
        k == q.len() ==> q.skip(k as int).len() == 0,
    decreases k,
{
    if k > 0 {
        lemma_pop_order(q, (k - 1) as nat);
        assert(q.take(k as int) =~= q.take(k - 1).push(q.skip(k - 1)[0]));
    }
}

} // verus!
