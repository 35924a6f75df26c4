use vstd::prelude::*;

use crate::block::pool::{
    acquired, lemma_live_all_zero, live_count, lowest_free, released, silent_block,
};
use crate::constants::POOL_SIZE;
use crate::block::{AudioBlockMut, AudioBlockPool, AudioBlockRef};
use crate::node::{mut_id, AudioNode};

verus! {

/// Why a node cannot be added to a graph, or run.
#[derive(Clone, Copy, Debug, PartialEq, Eq, Structural)]
pub enum GraphError {
    /// An input names a node that is not declared before this one (a forward edge or a cycle).
    UnknownSource,
    /// An input names an output port that its source does not have.
    BadPort,
    /// The number of input connections differs from the node's input count.
    WrongInputCount,
    /// The node given is not the next one in processing order, or every node already ran.
    OutOfOrder,
}

/// Slot of an optional shared handle.
pub open spec fn ref_id(b: Option<AudioBlockRef>) -> Option<u8> {
    match b {
        Some(h) => Some(h.id()),
        None => None,
    }
}

/// Whether connection `c` names a node at or after index `count`.
pub open spec fn names_later(c: Option<(usize, usize)>, count: int) -> bool {
    match c {
        Some((n, p)) => n >= count,
        None => false,
    }
}

/// Whether connection `c` names an output port beyond its source's outputs.
pub open spec fn names_missing_port(c: Option<(usize, usize)>, outputs: Seq<usize>) -> bool {
    match c {
        Some((n, p)) => p >= outputs[n as int],
        None => false,
    }
}

/// Whether connection `c` names one of the first `count` nodes and one of its outputs.
pub open spec fn valid_connection(c: Option<(usize, usize)>, count: int, outputs: Seq<usize>) -> bool {
    match c {
        Some((n, p)) => n < count && p < outputs[n as int],
        None => true,
    }
}

/// Reference counts after letting go of each present slot of `ids`, last first.
pub open spec fn released_list(rc: Seq<u8>, ids: Seq<Option<u8>>) -> Seq<u8>
    decreases ids.len(),
{
    if ids.len() == 0 {
        rc
    } else {
        let rc1 = match ids.last() {
            Some(s) => released(rc, s as int),
            None => rc,
        };
        released_list(rc1, ids.drop_last())
    }
}

/// Reference counts after letting go of every product of `products`, last node first.
pub open spec fn released_products(rc: Seq<u8>, products: Seq<Seq<Option<u8>>>) -> Seq<u8>
    decreases products.len(),
{
    if products.len() == 0 {
        rc
    } else {
        released_products(released_list(rc, products.last()), products.drop_last())
    }
}

/// Occurrences of slot `s` in `ids`.
pub open spec fn count_in(ids: Seq<Option<u8>>, s: int) -> nat
    decreases ids.len(),
{
    if ids.len() == 0 {
        0
    } else {
        count_in(ids.drop_last(), s) + if ids.last() == Some(s as u8) && 0 <= s < 256 {
            1nat
        } else {
            0nat
        }
    }
}

/// Occurrences of slot `s` among all of `products`.
pub open spec fn count_products(products: Seq<Seq<Option<u8>>>, s: int) -> nat
    decreases products.len(),
{
    if products.len() == 0 {
        0
    } else {
        count_products(products.drop_last(), s) + count_in(products.last(), s)
    }
}

proof fn lemma_released_list(rc: Seq<u8>, ids: Seq<Option<u8>>)
    requires
        rc.len() == POOL_SIZE,
        forall|k: int| 0 <= k < ids.len() ==> (#[trigger] ids[k] matches Some(t) ==> t < POOL_SIZE),
        forall|s: int| 0 <= s < POOL_SIZE ==> rc[s] >= count_in(ids, s),
    ensures
        released_list(rc, ids).len() == POOL_SIZE,
        forall|s: int|
            0 <= s < POOL_SIZE ==> released_list(rc, ids)[s] == rc[s] - count_in(ids, s),
    decreases ids.len(),
{
    if ids.len() > 0 {
        let rest = ids.drop_last();
        let rc1 = match ids.last() {
            Some(t) => released(rc, t as int),
            None => rc,
        };
        assert(ids.last() == ids[ids.len() - 1]);
        assert forall|k: int| 0 <= k < rest.len() implies (#[trigger] rest[k] matches Some(t) ==> t
            < POOL_SIZE) by {
            assert(rest[k] == ids[k]);
        }
        assert forall|s: int| 0 <= s < POOL_SIZE implies rc1[s] >= count_in(rest, s) by {
        }
        lemma_released_list(rc1, rest);
    }
}

proof fn lemma_released_products(rc: Seq<u8>, products: Seq<Seq<Option<u8>>>)
    requires
        rc.len() == POOL_SIZE,
        forall|i: int, k: int|
            0 <= i < products.len() && 0 <= k < products[i].len() ==> (#[trigger] products[i][k] matches Some(
                t,
            ) ==> t < POOL_SIZE),
        forall|s: int| 0 <= s < POOL_SIZE ==> rc[s] >= count_products(products, s),
    ensures
        released_products(rc, products).len() == POOL_SIZE,
        forall|s: int|
            0 <= s < POOL_SIZE ==> released_products(rc, products)[s] == rc[s] - count_products(
                products,
                s,
            ),
    decreases products.len(),
{
    if products.len() > 0 {
        let last = products.last();
        let rest = products.drop_last();
        assert forall|k: int| 0 <= k < last.len() implies (#[trigger] last[k] matches Some(t) ==> t
            < POOL_SIZE) by {
            assert(last[k] == products[products.len() - 1][k]);
        }
        lemma_released_list(rc, last);
        let rc1 = released_list(rc, last);
        assert forall|i: int, k: int|
            0 <= i < rest.len() && 0 <= k < rest[i].len() implies (#[trigger] rest[i][k] matches Some(
                t,
            ) ==> t < POOL_SIZE) by {
            assert(rest[i] == products[i]);
        }
        lemma_released_products(rc1, rest);
    }
}

/// A cycle's end frees the pool: when the products of the cycle hold every reference,
/// releasing them leaves no slot live.
pub proof fn lemma_cycle_end_frees_all(rc: Seq<u8>, products: Seq<Seq<Option<u8>>>)
    requires
        rc.len() == POOL_SIZE,
        forall|i: int, k: int|
            0 <= i < products.len() && 0 <= k < products[i].len() ==> (#[trigger] products[i][k] matches Some(
                t,
            ) ==> t < POOL_SIZE),
        forall|s: int| 0 <= s < POOL_SIZE ==> rc[s] == count_products(products, s),
    ensures
        live_count(released_products(rc, products)) == 0,
{
    lemma_released_products(rc, products);
    lemma_live_all_zero(released_products(rc, products), POOL_SIZE as int);
}

/// What gathering inputs routed to `routes` (in order) delivers, and the counts it leaves:
/// each routed block that can take another owner gains one and is delivered; anything
/// else is delivered as `None`.
pub open spec fn gathered(rc: Seq<u8>, routes: Seq<Option<u8>>) -> (Seq<Option<u8>>, Seq<u8>)
    decreases routes.len(),
{
    if routes.len() == 0 {
        (Seq::empty(), rc)
    } else {
        let (ids, rc1) = gathered(rc, routes.drop_last());
        match routes.last() {
            Some(s) => if 0 < rc1[s as int] < 255 {
                (ids.push(Some(s)), acquired(rc1, s as int))
            } else {
                (ids.push(None), rc1)
            },
            None => (ids.push(None), rc1),
        }
    }
}

/// What `n` successive allocations deliver, and the counts they leave: each takes the
/// lowest free slot, or is absent once none is free.
pub open spec fn allocations_from(rc: Seq<u8>, n: nat) -> (Seq<Option<u8>>, Seq<u8>)
    decreases n,
{
    if n == 0 {
        (Seq::empty(), rc)
    } else {
        let (ids, rc1) = allocations_from(rc, (n - 1) as nat);
        let s = lowest_free(rc1);
        if s < rc1.len() {
            (ids.push(Some(s as u8)), rc1.update(s, 1u8))
        } else {
            (ids.push(None), rc1)
        }
    }
}

proof fn lemma_allocations_len(rc: Seq<u8>, n: nat)
    ensures
        allocations_from(rc, n).1.len() == rc.len(),
        allocations_from(rc, n).0.len() == n,
    decreases n,
{
    if n > 0 {
        lemma_allocations_len(rc, (n - 1) as nat);
        crate::block::pool::lemma_lowest_free_zero(allocations_from(rc, (n - 1) as nat).1, 0);
    }
}

/// Block contents after each slot present in `ids` is zeroed, in order.
pub open spec fn zeroed_at(data: Seq<Seq<i16>>, ids: Seq<Option<u8>>) -> Seq<Seq<i16>>
    decreases ids.len(),
{
    if ids.len() == 0 {
        data
    } else {
        let d = zeroed_at(data, ids.drop_last());
        match ids.last() {
            Some(s) => d.update(s as int, silent_block()),
            None => d,
        }
    }
}

/// Feed-forward processing graph. Nodes are declared in processing order, each with its
/// input connections `(source node, source output)` or `None` (unconnected, silence); a
/// connection may name only an earlier node, so the graph has no cycles.
///
/// A cycle runs each node in order (`begin_node`, the node's `update`, `finish_node`) and
/// ends with `end_cycle`, which releases
/// every block that the cycle produced.
pub struct AudioGraph {
    connections: Vec<Vec<Option<(usize, usize)>>>,
    output_counts: Vec<usize>,
    produced: Vec<Vec<Option<AudioBlockRef>>>,
}

impl AudioGraph {
    /// Declared input connections of each node.
    pub closed spec fn wiring(&self) -> Seq<Seq<Option<(usize, usize)>>> {
        Seq::new(self.connections@.len(), |i: int| self.connections@[i]@)
    }

    /// Declared output count of each node.
    pub closed spec fn outputs(&self) -> Seq<usize> {
        self.output_counts@
    }

    /// Slots of the outputs produced so far in the current cycle, per node run.
    pub closed spec fn products(&self) -> Seq<Seq<Option<u8>>> {
        Seq::new(self.produced@.len(), |i: int| self.produced@[i]@.map_values(|b| ref_id(b)))
    }

    /// Every connection names an earlier node and one of its outputs; each node run in
    /// this cycle produced as many outputs as it declares.
    pub open spec fn wf(&self) -> bool {
        &&& self.wiring().len() == self.outputs().len()
        &&& self.products().len() <= self.wiring().len()
        &&& forall|i: int, k: int|
            0 <= i < self.wiring().len() && 0 <= k < self.wiring()[i].len() ==> valid_connection(
                #[trigger] self.wiring()[i][k],
                i,
                self.outputs(),
            )
        &&& forall|i: int|
            0 <= i < self.products().len() ==> #[trigger] self.products()[i].len() == self.outputs()[i]
    }

    /// Number of nodes run so far in the current cycle: the index of the next one.
    pub open spec fn next_node(&self) -> nat {
        self.products().len()
    }

    /// What input connection `c` delivers in the current cycle: the slot of the source's
    /// output, or nothing when unconnected or when the source produced no output.
    pub open spec fn routed(&self, c: Option<(usize, usize)>) -> Option<u8> {
        match c {
            Some((n, p)) => self.products()[n as int][p as int],
            None => None,
        }
    }

    /// An empty graph.
    pub fn new() -> (r: Self)
        ensures
            r.wf(),
            r.wiring().len() == 0,
            r.next_node() == 0,
    {
        let r = AudioGraph { connections: Vec::new(), output_counts: Vec::new(), produced: Vec::new() };
        assert(r.wiring() =~= Seq::empty());
        assert(r.products() =~= Seq::empty());
        r
    }

    /// Declare the next node, of type `N`, with its input connections; returns its index.
    pub fn add_node<N: AudioNode>(&mut self, inputs: Vec<Option<(usize, usize)>>) -> (r: Result<
        usize,
        GraphError,
    >)
        requires
            old(self).wf(),
        ensures
            final(self).wf(),
            final(self).products() == old(self).products(),
            inputs@.len() != N::NUM_INPUTS ==> r == Err::<usize, GraphError>(GraphError::WrongInputCount),
            inputs@.len() == N::NUM_INPUTS && (exists|k: int|
                0 <= k < inputs@.len() && names_later(#[trigger] inputs@[k], old(self).wiring().len() as int))
                ==> r == Err::<usize, GraphError>(GraphError::UnknownSource),
            inputs@.len() == N::NUM_INPUTS && (forall|k: int|
                0 <= k < inputs@.len() ==> !names_later(#[trigger] inputs@[k], old(self).wiring().len() as int))
                && (exists|k: int|
                0 <= k < inputs@.len() && names_missing_port(#[trigger] inputs@[k], old(self).outputs()))
                ==> r == Err::<usize, GraphError>(GraphError::BadPort),
            r is Err ==> *final(self) == *old(self),
            r is Ok <==> (inputs@.len() == N::NUM_INPUTS && forall|k: int|
                0 <= k < inputs@.len() ==> valid_connection(
                    #[trigger] inputs@[k],
                    old(self).wiring().len() as int,
                    old(self).outputs(),
                )),
            r matches Ok(i) ==> {
                &&& i == old(self).wiring().len()
                &&& final(self).wiring() == old(self).wiring().push(inputs@)
                &&& final(self).outputs() == old(self).outputs().push(N::NUM_OUTPUTS)
            },
    {
        if inputs.len() != N::NUM_INPUTS {
            return Err(GraphError::WrongInputCount);
        }
        let count = self.connections.len();
        let mut k: usize = 0;
        while k < inputs.len()
            invariant
                self.wf(),
                *self == *old(self),
                inputs@.len() == N::NUM_INPUTS,
                k <= inputs@.len(),
                count == old(self).wiring().len(),
                forall|j: int| 0 <= j < k ==> !names_later(#[trigger] inputs@[j], count as int),
            decreases inputs@.len() - k,
        {
            if let Some((n, _p)) = inputs[k] {
                if n >= count {
                    return Err(GraphError::UnknownSource);
                }
            }
            k = k + 1;
        }
        let mut k: usize = 0;
        while k < inputs.len()
            invariant
                self.wf(),
                *self == *old(self),
                inputs@.len() == N::NUM_INPUTS,
                k <= inputs@.len(),
                count == self.wiring().len(),
                forall|j: int| 0 <= j < inputs@.len() ==> !names_later(#[trigger] inputs@[j], count as int),
                forall|j: int|
                    0 <= j < k ==> valid_connection(#[trigger] inputs@[j], count as int, self.outputs()),
            decreases inputs@.len() - k,
        {
            if let Some((n, p)) = inputs[k] {
                if p >= self.output_counts[n] {
                    return Err(GraphError::BadPort);
                }
            }
            k = k + 1;
        }
        let ghost before = self.wiring();
        self.connections.push(inputs);
        self.output_counts.push(N::NUM_OUTPUTS);
        assert(self.wiring() =~= before.push(inputs@));
        assert(self.products() =~= old(self).products());
        Ok(count)
    }

    /// Slots that the next node's inputs route to in the current cycle.
    pub open spec fn routes(&self) -> Seq<Option<u8>> {
        self.wiring()[self.next_node() as int].map_values(|c: Option<(usize, usize)>| self.routed(c))
    }

    /// The inputs of the next node: for each connection in turn, a new owner of the routed
    /// block, or `None` for an unconnected input, an absent source output, or a block
    /// that cannot take another owner (count at its maximum).
    pub fn gather_inputs(&self, pool: &mut AudioBlockPool) -> (r: Vec<Option<AudioBlockRef>>)
        requires
            self.wf(),
            old(pool).wf(),
            self.next_node() < self.wiring().len(),
        ensures
            final(pool).wf(),
            final(pool).data() == old(pool).data(),
            r@.len() == self.wiring()[self.next_node() as int].len(),
            r@.map_values(|b| ref_id(b)) == gathered(old(pool).rc(), self.routes()).0,
            final(pool).rc() == gathered(old(pool).rc(), self.routes()).1,
    {
        let i = self.produced.len();
        let conns = &self.connections[i];
        let ghost routes = self.routes();
        let mut r: Vec<Option<AudioBlockRef>> = Vec::new();
        let mut k: usize = 0;
        proof {
            assert(routes.subrange(0, 0) =~= Seq::<Option<u8>>::empty());
            assert(r@.map_values(|b| ref_id(b)) =~= Seq::<Option<u8>>::empty());
        }
        while k < conns.len()
            invariant
                self.wf(),
                i == self.next_node(),
                i < self.wiring().len(),
                conns@ == self.wiring()[i as int],
                routes == self.routes(),
                routes.len() == conns@.len(),
                pool.wf(),
                pool.data() == old(pool).data(),
                k <= conns@.len(),
                r@.len() == k,
                r@.map_values(|b| ref_id(b)) == gathered(old(pool).rc(), routes.subrange(0, k as int)).0,
                pool.rc() == gathered(old(pool).rc(), routes.subrange(0, k as int)).1,
            decreases conns@.len() - k,
        {
            let ghost before = r@.map_values(|b| ref_id(b));
            let ghost rc0 = pool.rc();
            let item = match conns[k] {
                Some((n, p)) => {
                    assert(conns@[k as int] == self.wiring()[i as int][k as int]);
                    assert(self.products()[n as int].len() == self.outputs()[n as int]);
                    assert(self.products()[n as int][p as int] == ref_id(self.produced@[n as int]@[p as int]));
                    match &self.produced[n][p] {
                        Some(b) => {
                            proof {
                                use_type_invariant(b);
                            }
                            b.duplicate(pool)
                        },
                        None => None,
                    }
                },
                None => None,
            };
            r.push(item);
            proof {
                assert(routes.subrange(0, k + 1).drop_last() =~= routes.subrange(0, k as int));
                assert(routes.subrange(0, k + 1).last() == routes[k as int]);
                assert(r@.map_values(|b| ref_id(b)) =~= before.push(ref_id(item)));
            }
            k = k + 1;
        }
        proof {
            assert(routes.subrange(0, k as int) =~= routes);
        }
        r
    }

    /// Start the next node of the cycle, of type `N`: gather its inputs, then allocate
    /// its outputs, each a fresh zeroed block or absent where the pool is exhausted. The
    /// caller runs the node on them and hands both back to `finish_node`.
    pub fn begin_node<N: AudioNode>(&self, pool: &mut AudioBlockPool) -> (r: Result<
        (Vec<Option<AudioBlockRef>>, Vec<Option<AudioBlockMut>>),
        GraphError,
    >)
        requires
            self.wf(),
            old(pool).wf(),
        ensures
            final(pool).wf(),
            r is Ok <==> (self.next_node() < self.wiring().len() && N::NUM_INPUTS
                == self.wiring()[self.next_node() as int].len() && N::NUM_OUTPUTS
                == self.outputs()[self.next_node() as int]),
            r is Err ==> *final(pool) == *old(pool),
            r matches Ok((ins, outs)) ==> {
                let g = gathered(old(pool).rc(), self.routes());
                let a = allocations_from(g.1, N::NUM_OUTPUTS as nat);
                &&& ins@.len() == N::NUM_INPUTS
                &&& outs@.len() == N::NUM_OUTPUTS
                &&& ins@.map_values(|b| ref_id(b)) == g.0
                &&& outs@.map_values(|b| mut_id(b)) == a.0
                &&& final(pool).rc() == a.1
                &&& final(pool).data() == zeroed_at(old(pool).data(), a.0)
            },
    {
        let i = self.produced.len();
        if i >= self.connections.len() || N::NUM_INPUTS != self.connections[i].len() || N::NUM_OUTPUTS
            != self.output_counts[i] {
            return Err(GraphError::OutOfOrder);
        }
        let inputs = self.gather_inputs(pool);
        let ghost rc1 = pool.rc();
        let ghost d1 = pool.data();
        let mut outputs: Vec<Option<AudioBlockMut>> = Vec::new();
        let mut k: usize = 0;
        while k < N::NUM_OUTPUTS
            invariant
                pool.wf(),
                k <= N::NUM_OUTPUTS,
                outputs@.len() == k,
                rc1.len() == crate::constants::POOL_SIZE,
                outputs@.map_values(|b| mut_id(b)) == allocations_from(rc1, k as nat).0,
                pool.rc() == allocations_from(rc1, k as nat).1,
                pool.data() == zeroed_at(d1, allocations_from(rc1, k as nat).0),
            decreases N::NUM_OUTPUTS - k,
        {
            let ghost before = outputs@.map_values(|b| mut_id(b));
            let ghost prev = allocations_from(rc1, k as nat);
            proof {
                lemma_allocations_len(rc1, k as nat);
            }
            let item = AudioBlockMut::allocate(pool);
            outputs.push(item);
            proof {
                assert(outputs@.map_values(|b| mut_id(b)) =~= before.push(mut_id(item)));
                assert(zeroed_at(d1, allocations_from(rc1, (k + 1) as nat).0).len() >= 0);
                assert(allocations_from(rc1, (k + 1) as nat).0.drop_last() =~= prev.0);
            }
            k = k + 1;
        }
        Ok((inputs, outputs))
    }

    /// Finish the next node of the cycle: release its inputs and keep its outputs, as
    /// shared blocks, for later nodes. Refused, with nothing changed, when every node has
    /// run or `outputs` does not have the node's output count.
    pub fn finish_node(
        &mut self,
        pool: &mut AudioBlockPool,
        inputs: Vec<Option<AudioBlockRef>>,
        outputs: Vec<Option<AudioBlockMut>>,
    ) -> (r: Result<(), GraphError>)
        requires
            old(self).wf(),
            old(pool).wf(),
        ensures
            final(self).wf(),
            final(pool).wf(),
            final(pool).data() == old(pool).data(),
            final(self).wiring() == old(self).wiring(),
            final(self).outputs() == old(self).outputs(),
            r is Ok <==> (old(self).next_node() < old(self).wiring().len() && outputs@.len()
                == old(self).outputs()[old(self).next_node() as int]),
            r is Err ==> *final(self) == *old(self) && *final(pool) == *old(pool),
            r is Ok ==> {
                &&& final(self).products() == old(self).products().push(
                    outputs@.map_values(|b| mut_id(b)),
                )
                &&& final(pool).rc() == released_list(old(pool).rc(), inputs@.map_values(|b| ref_id(b)))
            },
    {
        let i = self.produced.len();
        if i >= self.connections.len() || outputs.len() != self.output_counts[i] {
            return Err(GraphError::OutOfOrder);
        }
        release_all_refs(pool, inputs);
        let ghost ids = outputs@.map_values(|b| mut_id(b));
        let mut outputs = outputs;
        let mut shared: Vec<Option<AudioBlockRef>> = Vec::new();
        let mut k: usize = 0;
        let n = outputs.len();
        while k < n
            invariant
                n == outputs@.len(),
                ids.len() == n,
                k <= n,
                shared@.len() == k,
                forall|j: int| 0 <= j < k ==> #[trigger] ref_id(shared@[j]) == ids[j],
                forall|j: int| k <= j < n ==> #[trigger] mut_id(outputs@[j]) == ids[j],
            decreases n - k,
        {
            let ghost o = outputs@[k as int];
            let ghost sh = shared@;
            let item = match outputs[k].take() {
                Some(b) => Some(b.into_shared()),
                None => None,
            };
            assert(ref_id(item) == mut_id(o));
            shared.push(item);
            assert forall|j: int| 0 <= j < k + 1 implies #[trigger] ref_id(shared@[j]) == ids[j] by {
                if j < k {
                    assert(shared@[j] == sh[j]);
                }
            }
            k = k + 1;
        }
        let ghost before = self.products();
        self.produced.push(shared);
        assert(shared@.map_values(|b| ref_id(b)) =~= ids);
        assert(self.products() =~= before.push(ids));
        Ok(())
    }

    /// End the cycle: release every block the cycle produced.
    pub fn end_cycle(&mut self, pool: &mut AudioBlockPool)
        requires
            old(self).wf(),
            old(pool).wf(),
        ensures
            final(self).wf(),
            final(pool).wf(),
            final(self).wiring() == old(self).wiring(),
            final(self).outputs() == old(self).outputs(),
            final(self).next_node() == 0,
            final(pool).data() == old(pool).data(),
            final(pool).rc() == released_products(old(pool).rc(), old(self).products()),
    {
        while self.produced.len() > 0
            invariant
                self.wf(),
                pool.wf(),
                pool.data() == old(pool).data(),
                self.wiring() == old(self).wiring(),
                self.outputs() == old(self).outputs(),
                released_products(pool.rc(), self.products()) == released_products(
                    old(pool).rc(),
                    old(self).products(),
                ),
            decreases self.produced@.len(),
        {
            let ghost before = self.products();
            let ghost rc0 = pool.rc();
            match self.produced.pop() {
                Some(outs) => {
                    assert(outs@.map_values(|b| ref_id(b)) == before.last());
                    release_all_refs(pool, outs);
                },
                None => {},
            }
            assert(self.products() =~= before.drop_last());
        }
    }

    /// Number of declared nodes.
    pub fn node_count(&self) -> (r: usize)
        requires
            self.wf(),
        ensures
            r == self.wiring().len(),
    {
        self.connections.len()
    }
}

/// Fan-out: inputs wired to the same source output and gathered in one cycle designate
/// the same block, so every consumer reads identical samples.
pub proof fn lemma_fan_out_identical(
    g: AudioGraph,
    pool: AudioBlockPool,
    c: Option<(usize, usize)>,
    x: AudioBlockRef,
    y: AudioBlockRef,
)
    requires
        g.routed(c) == Some(x.id()),
        g.routed(c) == Some(y.id()),
    ensures
        x.id() == y.id(),
        pool.data()[x.id() as int] == pool.data()[y.id() as int],
{
}

/// Release each present handle of `blocks`.
pub fn release_all_refs(pool: &mut AudioBlockPool, blocks: Vec<Option<AudioBlockRef>>)
    requires
        old(pool).wf(),
    ensures
        final(pool).wf(),
        final(pool).data() == old(pool).data(),
        final(pool).rc() == released_list(old(pool).rc(), blocks@.map_values(|b| ref_id(b))),
{
    let ghost start = blocks@.map_values(|b| ref_id(b));
    let mut blocks = blocks;
    while blocks.len() > 0
        invariant
            pool.wf(),
            pool.data() == old(pool).data(),
            released_list(pool.rc(), blocks@.map_values(|b| ref_id(b))) == released_list(
                old(pool).rc(),
                start,
            ),
        decreases blocks@.len(),
    {
        let ghost ids = blocks@.map_values(|b| ref_id(b));
        let item = blocks.pop();
        proof {
            assert(blocks@.map_values(|b| ref_id(b)) =~= ids.drop_last());
        }
        if let Some(Some(b)) = item {
            b.release(pool);
        }
    }
    assert(blocks@.map_values(|b| ref_id(b)) =~= Seq::<Option<u8>>::empty());
}

} // verus!
