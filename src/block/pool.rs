use vstd::prelude::*;
use vstd::std_specs::bits::axiom_u32_trailing_zeros;

use crate::constants::{AUDIO_BLOCK_SAMPLES, POOL_SIZE};

verus! {

/// Raw audio block storage: 128 signed 16-bit samples.
#[derive(Clone, Copy)]
pub struct AudioBlockData {
    pub samples: [i16; AUDIO_BLOCK_SAMPLES],
}

/// The all-zero block, the contents of a freshly allocated slot.
pub open spec fn silent_block() -> Seq<i16> {
    Seq::new(AUDIO_BLOCK_SAMPLES as nat, |i: int| 0i16)
}

impl AudioBlockData {
    /// A block of silence.
    pub fn zeroed() -> (r: Self)
        ensures
            r.samples@ == silent_block(),
    {
        let r = AudioBlockData { samples: [0i16; AUDIO_BLOCK_SAMPLES] };
        assert(r.samples@ =~= silent_block());
        r
    }
}

/// Reference counts after one more owner of slot `s`.
pub open spec fn acquired(rc: Seq<u8>, s: int) -> Seq<u8> {
    rc.update(s, (rc[s] + 1) as u8)
}

/// Reference counts after one owner of slot `s` lets go: a live slot loses one reference,
/// a free slot stays free.
pub open spec fn released(rc: Seq<u8>, s: int) -> Seq<u8> {
    if rc[s] > 0 {
        rc.update(s, (rc[s] - 1) as u8)
    } else {
        rc
    }
}

/// The first slot at or after `i` whose count is zero; `rc.len()` when there is none.
pub open spec fn lowest_free_from(rc: Seq<u8>, i: int) -> int
    decreases rc.len() - i,
{
    if i >= rc.len() {
        rc.len() as int
    } else if rc[i] == 0 {
        i
    } else {
        lowest_free_from(rc, i + 1)
    }
}

/// The slot that the next allocation takes; `rc.len()` when every slot is live.
pub open spec fn lowest_free(rc: Seq<u8>) -> int {
    lowest_free_from(rc, 0)
}

proof fn lemma_lowest_free_from(rc: Seq<u8>, i: int, s: int)
    requires
        0 <= i <= s <= rc.len(),
        s < rc.len() ==> rc[s] == 0,
        forall|t: int| i <= t < s ==> rc[t] > 0,
    ensures
        lowest_free_from(rc, i) == s,
    decreases s - i,
{
    if i < s {
        lemma_lowest_free_from(rc, i + 1, s);
    }
}

/// Whether bit `s` of `b` is set.
pub open spec fn bit_set(b: u32, s: u32) -> bool {
    (b >> s) & 1u32 == 1u32
}

proof fn lemma_bit_not(b: u32, j: u32)
    requires
        j < 32,
    ensures
        ((!b) >> j) & 1u32 == 1u32 <==> !bit_set(b, j),
        ((!b) >> j) & 1u32 == 0u32 <==> bit_set(b, j),
{
    assert(j < 32 ==> ((((!b) >> j) & 1u32 == 1u32) <==> !((b >> j) & 1u32 == 1u32))) by (bit_vector);
    assert(j < 32 ==> ((((!b) >> j) & 1u32 == 0u32) <==> ((b >> j) & 1u32 == 1u32))) by (bit_vector);
}

proof fn lemma_bit_or(b: u32, t: u32, j: u32)
    requires
        t < 32,
        j < 32,
    ensures
        bit_set(b | (1u32 << t), j) == (j == t || bit_set(b, j)),
{
    assert(t < 32 && j < 32 ==> ((((b | (1u32 << t)) >> j) & 1u32 == 1u32) == (j == t || (b >> j)
        & 1u32 == 1u32))) by (bit_vector);
}

proof fn lemma_bit_clear(b: u32, t: u32, j: u32)
    requires
        t < 32,
        j < 32,
    ensures
        bit_set(b & !(1u32 << t), j) == (j != t && bit_set(b, j)),
{
    assert(t < 32 && j < 32 ==> ((((b & !(1u32 << t)) >> j) & 1u32 == 1u32) == (j != t && (b
        >> j) & 1u32 == 1u32))) by (bit_vector);
}

/// Number of entries of `rc[..n]` that are non-zero: the live slots among the first `n`.
pub open spec fn live_prefix(rc: Seq<u8>, n: int) -> nat
    decreases n,
{
    if n <= 0 {
        0
    } else {
        live_prefix(rc, n - 1) + if rc[n - 1] > 0 { 1nat } else { 0nat }
    }
}

/// Number of slots of `rc` whose reference count is non-zero.
pub open spec fn live_count(rc: Seq<u8>) -> nat {
    live_prefix(rc, rc.len() as int)
}

/// Sum of the reference counts in `rc[..n]`.
pub open spec fn refs_prefix(rc: Seq<u8>, n: int) -> nat
    decreases n,
{
    if n <= 0 {
        0
    } else {
        refs_prefix(rc, n - 1) + rc[n - 1] as nat
    }
}

/// Sum of all reference counts: the number of handles outstanding.
pub open spec fn total_refs(rc: Seq<u8>) -> nat {
    refs_prefix(rc, rc.len() as int)
}

/// Fixed pool of audio blocks with an allocation bitmap and per-slot reference counts.
///
/// Bit `s` of the bitmap is set exactly when slot `s` has a non-zero reference count.
pub struct AudioBlockPool {
    bitmap: u32,
    refcounts: Vec<u8>,
    storage: Vec<AudioBlockData>,
}

impl AudioBlockPool {
    /// Reference count of each slot.
    pub closed spec fn rc(&self) -> Seq<u8> {
        self.refcounts@
    }

    /// Sample contents of each slot.
    pub closed spec fn data(&self) -> Seq<Seq<i16>> {
        Seq::new(self.storage@.len(), |s: int| self.storage@[s].samples@)
    }

    /// The pool's consistency: one count and one block of samples per slot, and the
    /// bitmap's bit set exactly on the live slots.
    pub open spec fn wf(&self) -> bool {
        &&& self.rc().len() == POOL_SIZE
        &&& self.data().len() == POOL_SIZE
        &&& forall|s: int| 0 <= s < POOL_SIZE ==> #[trigger] self.data()[s].len() == AUDIO_BLOCK_SAMPLES
        &&& self.bitmap_agrees()
    }

    /// Sizes of the storage, and the bitmap's bit set exactly on the live slots.
    pub closed spec fn bitmap_agrees(&self) -> bool {
        &&& self.refcounts@.len() == POOL_SIZE
        &&& self.storage@.len() == POOL_SIZE
        &&& forall|s: u32| s < 32 ==> (bit_set(self.bitmap, s) <==> self.refcounts@[s as int] > 0)
    }

    /// Create a new pool with every slot free.
    pub fn new() -> (r: Self)
        ensures
            r.wf(),
            r.rc() == Seq::new(POOL_SIZE as nat, |s: int| 0u8),
            live_count(r.rc()) == 0,
    {
        let mut refcounts: Vec<u8> = Vec::new();
        let mut storage: Vec<AudioBlockData> = Vec::new();
        let mut i: usize = 0;
        while i < POOL_SIZE
            invariant
                i <= POOL_SIZE,
                refcounts@.len() == i,
                storage@.len() == i,
                forall|s: int| 0 <= s < i ==> refcounts@[s] == 0u8,
            decreases POOL_SIZE - i,
        {
            refcounts.push(0u8);
            storage.push(AudioBlockData::zeroed());
            i = i + 1;
        }
        let r = AudioBlockPool { bitmap: 0, refcounts, storage };
        assert forall|s: u32| s < 32 implies !bit_set(0u32, s) by {
            assert(s < 32 ==> (0u32 >> s) & 1u32 == 0u32) by (bit_vector);
        }
        proof {
            assert(r.rc() =~= Seq::new(POOL_SIZE as nat, |s: int| 0u8));
            lemma_live_all_zero(r.rc(), POOL_SIZE as int);
        }
        r
    }

    /// Allocate the lowest free slot: its data is zeroed and its reference count becomes 1.
    /// Returns `None`, leaving the pool unchanged, when every slot is in use.
    pub fn allocate(&mut self) -> (r: Option<u8>)
        requires
            old(self).wf(),
        ensures
            final(self).wf(),
            r is None <==> forall|s: int| 0 <= s < POOL_SIZE ==> old(self).rc()[s] > 0,
            r is None ==> *final(self) == *old(self),
            r is None ==> lowest_free(old(self).rc()) == POOL_SIZE,
            r matches Some(s) ==> {
                &&& s < POOL_SIZE
                &&& s == lowest_free(old(self).rc())
                &&& old(self).rc()[s as int] == 0
                &&& forall|t: int| 0 <= t < s ==> old(self).rc()[t] > 0
                &&& final(self).rc() == old(self).rc().update(s as int, 1u8)
                &&& final(self).data() == old(self).data().update(s as int, silent_block())
            },
    {
        let free = !self.bitmap;
        proof {
            axiom_u32_trailing_zeros(free);
        }
        if free == 0 {
            proof {
                assert forall|s: int| 0 <= s < POOL_SIZE implies old(self).rc()[s] > 0 by {
                    let j = s as u32;
                    lemma_bit_not(self.bitmap, j);
                    assert(j < 32 ==> (0u32 >> j) & 1u32 == 0u32) by (bit_vector);
                }
                lemma_lowest_free_from(old(self).rc(), 0, POOL_SIZE as int);
            }
            return None;
        }
        let slot = free.trailing_zeros();
        proof {
            lemma_bit_not(self.bitmap, slot);
            assert(old(self).rc()[slot as int] == 0);
            assert forall|t: int| 0 <= t < slot implies old(self).rc()[t] > 0 by {
                lemma_bit_not(self.bitmap, t as u32);
            }
            lemma_lowest_free_from(old(self).rc(), 0, slot as int);
        }
        let bit = 1u32 << slot;
        let ghost old_bitmap = self.bitmap;
        self.bitmap = self.bitmap | bit;
        let idx = slot as usize;
        self.refcounts[idx] = 1;
        self.storage[idx] = AudioBlockData::zeroed();
        proof {
            assert forall|s: u32| s < 32 implies (bit_set(self.bitmap, s) <==> self.refcounts@[s as int] > 0) by {
                lemma_bit_or(old_bitmap, slot, s);
            }
            assert(self.data() =~= old(self).data().update(idx as int, silent_block()));
        }
        Some(slot as u8)
    }

    /// Add one owner to a live slot. A slot that is free, or whose count is at its
    /// maximum of 255, is left as it is and `false` is returned.
    pub fn inc_ref(&mut self, slot: u8) -> (r: bool)
        requires
            old(self).wf(),
            slot < POOL_SIZE,
        ensures
            final(self).wf(),
            r == (0 < old(self).rc()[slot as int] < 255),
            r ==> final(self).rc() == acquired(old(self).rc(), slot as int),
            !r ==> *final(self) == *old(self),
            final(self).data() == old(self).data(),
    {
        let i = slot as usize;
        let old_count = self.refcounts[i];
        if old_count == 0 || old_count == 255 {
            return false;
        }
        self.refcounts[i] = old_count + 1;
        true
    }

    /// Remove one owner from a live slot; when the count reaches zero the slot is freed.
    /// A slot that is already free is left as it is.
    pub fn dec_ref(&mut self, slot: u8)
        requires
            old(self).wf(),
            slot < POOL_SIZE,
        ensures
            final(self).wf(),
            final(self).rc() == released(old(self).rc(), slot as int),
            final(self).data() == old(self).data(),
    {
        let i = slot as usize;
        let old_count = self.refcounts[i];
        if old_count == 0 {
            return;
        }
        self.refcounts[i] = old_count - 1;
        if old_count == 1 {
            let ghost old_bitmap = self.bitmap;
            let bit = 1u32 << (slot as u32);
            self.bitmap = self.bitmap & !bit;
            proof {
                assert forall|s: u32| s < 32 implies (bit_set(self.bitmap, s) <==> self.refcounts@[s as int] > 0) by {
                    lemma_bit_clear(old_bitmap, slot as u32, s);
                }
            }
        }
    }

    /// Current reference count of a slot.
    pub fn refcount(&self, slot: u8) -> (r: u8)
        requires
            self.wf(),
            slot < POOL_SIZE,
        ensures
            r == self.rc()[slot as int],
    {
        self.refcounts[slot as usize]
    }

    /// Number of slots currently allocated.
    pub fn allocated_count(&self) -> (r: u32)
        requires
            self.wf(),
        ensures
            r == live_count(self.rc()),
    {
        let mut n: u32 = 0;
        let mut s: u32 = 0;
        while s < 32
            invariant
                self.wf(),
                s <= 32,
                n == live_prefix(self.rc(), s as int),
                n <= s,
            decreases 32 - s,
        {
            assert(bit_set(self.bitmap, s) <==> self.rc()[s as int] > 0);
            if (self.bitmap >> s) & 1u32 == 1u32 {
                n = n + 1;
            }
            s = s + 1;
        }
        n
    }

    /// Free every slot.
    pub fn reset(&mut self)
        requires
            old(self).wf(),
        ensures
            final(self).wf(),
            final(self).rc() == Seq::new(POOL_SIZE as nat, |s: int| 0u8),
            final(self).data() == old(self).data(),
            live_count(final(self).rc()) == 0,
    {
        self.bitmap = 0;
        let mut i: usize = 0;
        while i < POOL_SIZE
            invariant
                i <= POOL_SIZE,
                self.refcounts@.len() == POOL_SIZE,
                self.storage@ == old(self).storage@,
                self.bitmap == 0,
                forall|s: int| 0 <= s < i ==> self.refcounts@[s] == 0u8,
            decreases POOL_SIZE - i,
        {
            self.refcounts[i] = 0;
            i = i + 1;
        }
        proof {
            assert forall|s: u32| s < 32 implies !bit_set(0u32, s) by {
                assert(s < 32 ==> (0u32 >> s) & 1u32 == 0u32) by (bit_vector);
            }
            assert(self.rc() =~= Seq::new(POOL_SIZE as nat, |s: int| 0u8));
            lemma_live_all_zero(self.rc(), POOL_SIZE as int);
        }
    }

    /// Read one sample of a slot.
    pub fn sample(&self, slot: u8, i: usize) -> (r: i16)
        requires
            self.wf(),
            slot < POOL_SIZE,
            i < AUDIO_BLOCK_SAMPLES,
        ensures
            r == self.data()[slot as int][i as int],
    {
        self.storage[slot as usize].samples[i]
    }

    /// Copy of the samples of a slot.
    pub fn block(&self, slot: u8) -> (r: [i16; AUDIO_BLOCK_SAMPLES])
        requires
            self.wf(),
            slot < POOL_SIZE,
        ensures
            r@ == self.data()[slot as int],
    {
        self.storage[slot as usize].samples
    }

    /// Overwrite one sample of a slot.
    pub fn set_sample(&mut self, slot: u8, i: usize, v: i16)
        requires
            old(self).wf(),
            slot < POOL_SIZE,
            i < AUDIO_BLOCK_SAMPLES,
        ensures
            final(self).wf(),
            final(self).rc() == old(self).rc(),
            final(self).data() == old(self).data().update(slot as int, old(self).data()[slot as int].update(i as int, v)),
    {
        self.storage[slot as usize].samples[i] = v;
        assert(self.data() =~= old(self).data().update(slot as int, old(self).data()[slot as int].update(i as int, v)));
    }

    /// Overwrite all samples of a slot.
    pub fn set_block(&mut self, slot: u8, samples: [i16; AUDIO_BLOCK_SAMPLES])
        requires
            old(self).wf(),
            slot < POOL_SIZE,
        ensures
            final(self).wf(),
            final(self).rc() == old(self).rc(),
            final(self).data() == old(self).data().update(slot as int, samples@),
    {
        self.storage[slot as usize] = AudioBlockData { samples };
        assert(self.data() =~= old(self).data().update(slot as int, samples@));
    }
}

/// No slot among the first `n` is live when all their counts are zero.
pub proof fn lemma_live_all_zero(rc: Seq<u8>, n: int)
    requires
        0 <= n <= rc.len(),
        forall|s: int| 0 <= s < n ==> rc[s] == 0,
    ensures
        live_prefix(rc, n) == 0,
    decreases n,
{
    if n > 0 {
        lemma_live_all_zero(rc, n - 1);
    }
}

/// One operation on the pool's reference counts.
pub enum PoolOp {
    /// Allocate a fresh slot.
    Allocate,
    /// Add an owner to a slot.
    Duplicate(u8),
    /// Remove an owner from a slot.
    Release(u8),
}

/// Reference counts after `op`, as `allocate`, `inc_ref` and `dec_ref` change them.
pub open spec fn op_applied(rc: Seq<u8>, op: PoolOp) -> Seq<u8> {
    match op {
        PoolOp::Allocate => if lowest_free(rc) < rc.len() {
            rc.update(lowest_free(rc), 1u8)
        } else {
            rc
        },
        PoolOp::Duplicate(s) => if 0 < rc[s as int] < 255 {
            acquired(rc, s as int)
        } else {
            rc
        },
        PoolOp::Release(s) => released(rc, s as int),
    }
}

/// Handles created (+1) or given up (-1) by `op`: a failed allocation or duplication, or a
/// release of a free slot, changes nothing.
pub open spec fn handle_change(rc: Seq<u8>, op: PoolOp) -> int {
    match op {
        PoolOp::Allocate => if lowest_free(rc) < rc.len() {
            1
        } else {
            0
        },
        PoolOp::Duplicate(s) => if 0 < rc[s as int] < 255 {
            1
        } else {
            0
        },
        PoolOp::Release(s) => if rc[s as int] > 0 {
            -1
        } else {
            0
        },
    }
}

/// Reference counts after the operations `ops`, in order.
pub open spec fn run_ops(rc: Seq<u8>, ops: Seq<PoolOp>) -> Seq<u8>
    decreases ops.len(),
{
    if ops.len() == 0 {
        rc
    } else {
        op_applied(run_ops(rc, ops.drop_last()), ops.last())
    }
}

/// Handles outstanding after the operations `ops`, starting from `rc` with none.
pub open spec fn handles_after(rc: Seq<u8>, ops: Seq<PoolOp>) -> int
    decreases ops.len(),
{
    if ops.len() == 0 {
        0
    } else {
        handles_after(rc, ops.drop_last()) + handle_change(run_ops(rc, ops.drop_last()), ops.last())
    }
}

/// The reference counts of a fresh pool.
pub open spec fn empty_counts() -> Seq<u8> {
    Seq::new(POOL_SIZE as nat, |s: int| 0u8)
}

/// `n` allocations.
pub open spec fn allocations(n: nat) -> Seq<PoolOp> {
    Seq::new(n, |i: int| PoolOp::Allocate)
}

proof fn lemma_refs_update(rc: Seq<u8>, s: int, v: u8, n: int)
    requires
        0 <= s < rc.len(),
        0 <= n <= rc.len(),
    ensures
        refs_prefix(rc.update(s, v), n) == if s < n {
            refs_prefix(rc, n) - rc[s] + v
        } else {
            refs_prefix(rc, n) as int
        },
        live_prefix(rc.update(s, v), n) == if s < n {
            live_prefix(rc, n) - (if rc[s] > 0 { 1int } else { 0 }) + (if v > 0 { 1int } else { 0 })
        } else {
            live_prefix(rc, n) as int
        },
    decreases n,
{
    if n > 0 {
        lemma_refs_update(rc, s, v, n - 1);
    }
}

proof fn lemma_live_le_refs(rc: Seq<u8>, n: int)
    requires
        0 <= n <= rc.len(),
    ensures
        live_prefix(rc, n) <= refs_prefix(rc, n),
        live_prefix(rc, n) == 0 <==> refs_prefix(rc, n) == 0,
    decreases n,
{
    if n > 0 {
        lemma_live_le_refs(rc, n - 1);
    }
}

proof fn lemma_run_ops_len(rc: Seq<u8>, ops: Seq<PoolOp>)
    requires
        rc.len() == POOL_SIZE,
        forall|k: int| 0 <= k < ops.len() ==> #[trigger] op_in_range(ops[k]),
    ensures
        run_ops(rc, ops).len() == POOL_SIZE,
        total_refs(run_ops(rc, ops)) == total_refs(rc) + handles_after(rc, ops),
    decreases ops.len(),
{
    if ops.len() > 0 {
        let prefix = ops.drop_last();
        assert forall|k: int| 0 <= k < prefix.len() implies #[trigger] op_in_range(prefix[k]) by {
            assert(prefix[k] == ops[k]);
        }
        lemma_run_ops_len(rc, prefix);
        let before = run_ops(rc, prefix);
        assert(op_in_range(ops[ops.len() - 1]));
        match ops.last() {
            PoolOp::Allocate => {
                let s = lowest_free(before);
                if s < before.len() {
                    lemma_lowest_free_zero(before, 0);
                    lemma_refs_update(before, s, 1u8, POOL_SIZE as int);
                }
            },
            PoolOp::Duplicate(s) => {
                if 0 < before[s as int] < 255 {
                    lemma_refs_update(before, s as int, (before[s as int] + 1) as u8, POOL_SIZE as int);
                }
            },
            PoolOp::Release(s) => {
                if before[s as int] > 0 {
                    lemma_refs_update(before, s as int, (before[s as int] - 1) as u8, POOL_SIZE as int);
                }
            },
        }
    }
}

/// Whether an operation names a slot of the pool.
pub open spec fn op_in_range(op: PoolOp) -> bool {
    match op {
        PoolOp::Allocate => true,
        PoolOp::Duplicate(s) => s < POOL_SIZE,
        PoolOp::Release(s) => s < POOL_SIZE,
    }
}

/// The slot that the next allocation takes is free, or past the end.
pub proof fn lemma_lowest_free_zero(rc: Seq<u8>, i: int)
    requires
        0 <= i <= rc.len(),
    ensures
        i <= lowest_free_from(rc, i) <= rc.len(),
        lowest_free_from(rc, i) < rc.len() ==> rc[lowest_free_from(rc, i)] == 0,
    decreases rc.len() - i,
{
    if i < rc.len() && rc[i] != 0 {
        lemma_lowest_free_zero(rc, i + 1);
    }
}

/// Handle accounting: from a fresh pool, after any sequence of allocations, duplications
/// and releases, the reference counts add up to the number of handles outstanding; the
/// live slots number at most that many, and none is live exactly when no handle is.
pub proof fn lemma_live_slots_track_handles(ops: Seq<PoolOp>)
    requires
        forall|k: int| 0 <= k < ops.len() ==> #[trigger] op_in_range(ops[k]),
    ensures
        total_refs(run_ops(empty_counts(), ops)) == handles_after(empty_counts(), ops),
        live_count(run_ops(empty_counts(), ops)) <= handles_after(empty_counts(), ops),
        live_count(run_ops(empty_counts(), ops)) == 0 <==> handles_after(empty_counts(), ops) == 0,
{
    lemma_all_zero_refs(empty_counts(), POOL_SIZE as int);
    lemma_run_ops_len(empty_counts(), ops);
    lemma_live_le_refs(run_ops(empty_counts(), ops), POOL_SIZE as int);
}

proof fn lemma_all_zero_refs(rc: Seq<u8>, n: int)
    requires
        0 <= n <= rc.len(),
        forall|s: int| 0 <= s < n ==> rc[s] == 0,
    ensures
        refs_prefix(rc, n) == 0,
    decreases n,
{
    if n > 0 {
        lemma_all_zero_refs(rc, n - 1);
    }
}

proof fn lemma_allocations_fill(n: nat)
    requires
        n <= POOL_SIZE,
    ensures
        run_ops(empty_counts(), allocations(n)) == Seq::new(
            POOL_SIZE as nat,
            |s: int| if s < n { 1u8 } else { 0u8 },
        ),
    decreases n,
{
    if n > 0 {
        let m = (n - 1) as nat;
        lemma_allocations_fill(m);
        assert(allocations(n).drop_last() =~= allocations(m));
        let before = Seq::new(POOL_SIZE as nat, |s: int| if s < m { 1u8 } else { 0u8 });
        lemma_lowest_free_from(before, 0, m as int);
        assert(run_ops(empty_counts(), allocations(n)) =~= Seq::new(
            POOL_SIZE as nat,
            |s: int| if s < n { 1u8 } else { 0u8 },
        ));
    } else {
        assert(run_ops(empty_counts(), allocations(0)) =~= Seq::new(
            POOL_SIZE as nat,
            |s: int| if s < 0 { 1u8 } else { 0u8 },
        ));
    }
}

/// From a fresh pool, allocation `i` (counting from zero) takes slot `i`: the first
/// `POOL_SIZE` allocations yield distinct slots, and the next one finds no free slot.
pub proof fn lemma_allocations_distinct(i: nat)
    requires
        i <= POOL_SIZE,
    ensures
        lowest_free(run_ops(empty_counts(), allocations(i))) == i,
{
    lemma_allocations_fill(i);
    lemma_lowest_free_from(
        Seq::new(POOL_SIZE as nat, |s: int| if s < i { 1u8 } else { 0u8 }),
        0,
        i as int,
    );
}

} // verus!
