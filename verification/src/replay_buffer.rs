//! Fixed-capacity experience replay: a ring of transitions with uniform
//! sampling without replacement and a readiness test.

use vstd::prelude::*;
use vstd::arithmetic::div_mod::{
    lemma_fundamental_div_mod, lemma_fundamental_div_mod_converse, lemma_mod_pos_bound,
    lemma_mod_self_0, lemma_small_mod,
};
use crate::bytes::{append_block, write_block};
use crate::random::sample_indices;

verus! {

/// Number of values in one stacked observation.
pub const IMAGE_SIZE: usize = 28224;

/// One decision's outcome, as the buffer's contracts see it.
pub ghost struct Transition {
    pub observation: Seq<u8>,
    pub action: i32,
    pub reward: i64,
    pub next_observation: Seq<u8>,
    pub done: bool,
}

/// The mathematical model of the buffer: the filled slots in slot order and
/// the slot that the next write goes to.
pub ghost struct Ring {
    pub capacity: nat,
    pub slots: Seq<Transition>,
    pub pos: nat,
}

impl Ring {
    pub open spec fn wf(self) -> bool {
        &&& self.capacity > 0
        &&& self.slots.len() <= self.capacity
        &&& self.pos < self.capacity
        &&& self.slots.len() < self.capacity ==> self.pos == self.slots.len()
    }

    pub open spec fn empty(capacity: nat) -> Ring {
        Ring { capacity, slots: Seq::empty(), pos: 0 }
    }

    /// Writes `t` into slot `pos` and advances `pos`; a ring that is not yet
    /// full grows by one slot, a full one loses what the slot held.
    pub open spec fn store(self, t: Transition) -> Ring {
        Ring {
            capacity: self.capacity,
            slots: if self.slots.len() < self.capacity {
                self.slots.push(t)
            } else {
                self.slots.update(self.pos as int, t)
            },
            pos: (self.pos + 1) % self.capacity,
        }
    }

    /// Stores the transitions of `ts` one after the other, first to last.
    pub open spec fn store_all(self, ts: Seq<Transition>) -> Ring
        decreases ts.len(),
    {
        if ts.len() == 0 {
            self
        } else {
            self.store_all(ts.drop_last()).store(ts.last())
        }
    }

    /// The transitions that the indices select, in the order of the indices.
    pub open spec fn select(self, indices: Seq<usize>) -> Seq<Transition> {
        Seq::new(indices.len(), |k: int| self.slots[indices[k] as int])
    }
}

/// Index into the stored sequence of the transition that slot `slot` holds
/// after `count` stores into an empty ring of the given capacity: the last
/// store that went to that slot.
pub open spec fn slot_source(capacity: nat, count: nat, slot: int) -> int {
    slot + capacity * ((count - 1 - slot) / capacity as int)
}

/// Where the last store into a slot sits, one store later: the newest store
/// if it went to this slot, and where it sat before if it did not.
proof fn lemma_slot_source_step(c: int, m: int, j: int)
    requires
        c > 0,
        0 <= j < c,
        j <= m,
    ensures
        m % c == j ==> j + c * ((m - j) / c) == m,
        m % c != j ==> m > j && (m - j) / c == (m - 1 - j) / c,
        m - c < j + c * ((m - j) / c) <= m,
        (j + c * ((m - j) / c)) % c == j,
{
    let d = m - j;
    let q = d / c;
    let r = d % c;
    lemma_fundamental_div_mod(d, c);
    lemma_mod_pos_bound(d, c);
    assert(q * c == c * q) by (nonlinear_arith);
    lemma_fundamental_div_mod_converse(j + c * q, c, q, j);
    if r == 0 {
        lemma_fundamental_div_mod_converse(m, c, q, j);
    } else {
        if r + j < c {
            lemma_fundamental_div_mod_converse(m, c, q, r + j);
        } else {
            assert((q + 1) * c == q * c + c) by (nonlinear_arith);
            lemma_fundamental_div_mod_converse(m, c, q + 1, r + j - c);
        }
        lemma_fundamental_div_mod_converse(d - 1, c, q, r - 1);
    }
}

/// Two indices less than a capacity apart that fall into the same slot are
/// one index.
proof fn lemma_same_slot_same_index(c: int, a: int, b: int)
    requires
        c > 0,
        a % c == b % c,
        a - c < b,
        b - c < a,
    ensures
        a == b,
{
    lemma_fundamental_div_mod(a, c);
    lemma_fundamental_div_mod(b, c);
    let qa = a / c;
    let qb = b / c;
    assert(a - b == c * (qa - qb)) by (nonlinear_arith)
        requires
            a == c * qa + a % c,
            b == c * qb + b % c,
            a % c == b % c,
    ;
    assert(qa == qb) by (nonlinear_arith)
        requires
            a - b == c * (qa - qb),
            c > 0,
            a - b < c,
            b - a < c,
    ;
}

/// A ring that started empty holds the newest transitions stored into it and
/// nothing else: as many as fit, each in the slot that its position in the
/// stored sequence falls into, and the write position follows the count.
pub proof fn lemma_ring_holds_newest(capacity: nat, ts: Seq<Transition>)
    requires
        capacity > 0,
    ensures
        ({
            let ring = Ring::empty(capacity).store_all(ts);
            &&& ring.wf()
            &&& ring.capacity == capacity
            &&& ring.slots.len() == if ts.len() <= capacity {
                ts.len()
            } else {
                capacity
            }
            &&& ring.pos == ts.len() % capacity
            &&& forall|j: int|
                0 <= j < ring.slots.len() ==> {
                    &&& 0 <= #[trigger] slot_source(capacity, ts.len(), j) < ts.len()
                    &&& ts.len() - capacity <= slot_source(capacity, ts.len(), j)
                    &&& slot_source(capacity, ts.len(), j) % (capacity as int) == j
                    &&& ring.slots[j] == ts[slot_source(capacity, ts.len(), j)]
                }
        }),
    decreases ts.len(),
{
    let c = capacity as int;
    let n = ts.len() as int;
    if n == 0 {
        lemma_small_mod(0, capacity);
    } else {
        let before = ts.drop_last();
        let prev = Ring::empty(capacity).store_all(before);
        let ring = Ring::empty(capacity).store_all(ts);
        assert(ring == prev.store(ts.last()));
        lemma_ring_holds_newest(capacity, before);
        let p = (n - 1) % c;
        lemma_mod_pos_bound(n - 1, c);
        assert(prev.pos == p);
        if p + 1 < c {
            lemma_small_mod((p + 1) as nat, capacity);
            lemma_fundamental_div_mod(n - 1, c);
            assert(c * ((n - 1) / c) == ((n - 1) / c) * c) by (nonlinear_arith);
            lemma_fundamental_div_mod_converse(n, c, (n - 1) / c, p + 1);
        } else {
            lemma_mod_self_0(c);
            lemma_fundamental_div_mod(n - 1, c);
            assert(((n - 1) / c + 1) * c == c * ((n - 1) / c) + c) by (nonlinear_arith);
            lemma_fundamental_div_mod_converse(n, c, (n - 1) / c + 1, 0);
        }
        assert(ring.pos == n % c);
        assert forall|j: int| 0 <= j < ring.slots.len() implies {
            &&& 0 <= #[trigger] slot_source(capacity, ts.len(), j) < ts.len()
            &&& ts.len() - capacity <= slot_source(capacity, ts.len(), j)
            &&& slot_source(capacity, ts.len(), j) % c == j
            &&& ring.slots[j] == ts[slot_source(capacity, ts.len(), j)]
        } by {
            lemma_slot_source_step(c, n - 1, j);
            if j == p {
                assert(ring.slots[j] == ts.last());
            } else {
                assert(j < prev.slots.len());
                assert(ring.slots[j] == prev.slots[j]);
                assert(slot_source(capacity, ts.len(), j) == slot_source(
                    capacity,
                    before.len(),
                    j,
                ));
                assert(before[slot_source(capacity, before.len(), j)] == ts[slot_source(
                    capacity,
                    before.len(),
                    j,
                )]);
            }
        }
    }
}

/// Storing more transitions than fit loses the oldest for good: after
/// `capacity + k` stores into an empty ring, with `k > 0`, the ring is full,
/// no slot holds one of the first `k`, and each later one is in its slot.
pub proof fn lemma_overflow_discards_oldest(capacity: nat, ts: Seq<Transition>, k: nat)
    requires
        capacity > 0,
        k > 0,
        ts.len() == capacity + k,
    ensures
        ({
            let ring = Ring::empty(capacity).store_all(ts);
            &&& ring.slots.len() == capacity
            &&& forall|j: int|
                0 <= j < capacity ==> k <= #[trigger] slot_source(capacity, ts.len(), j)
                    < ts.len() && ring.slots[j] == ts[slot_source(capacity, ts.len(), j)]
            &&& forall|i: int|
                k <= i < ts.len() ==> ring.slots[i % (capacity as int)] == #[trigger] ts[i]
        }),
{
    let ring = Ring::empty(capacity).store_all(ts);
    let c = capacity as int;
    lemma_ring_holds_newest(capacity, ts);
    assert forall|i: int| k <= i < ts.len() implies ring.slots[i % c] == #[trigger] ts[i] by {
        let j = i % c;
        lemma_mod_pos_bound(i, c);
        assert(ring.slots[j] == ts[slot_source(capacity, ts.len(), j)]);
        lemma_same_slot_same_index(c, slot_source(capacity, ts.len(), j), i);
    }
}

/// What a selection from an overflowed ring can show: after `capacity + k`
/// stores into an empty ring, with `k > 0`, every selected transition is one
/// of the last `capacity` stored, never one of the first `k`.
pub proof fn lemma_selection_shows_only_newest(
    capacity: nat,
    ts: Seq<Transition>,
    k: nat,
    indices: Seq<usize>,
)
    requires
        capacity > 0,
        k > 0,
        ts.len() == capacity + k,
        forall|j: int| 0 <= j < indices.len() ==> indices[j] < capacity,
    ensures
        ({
            let ring = Ring::empty(capacity).store_all(ts);
            forall|j: int|
                0 <= j < indices.len() ==> k <= slot_source(capacity, ts.len(), indices[j] as int)
                    < ts.len() && #[trigger] ring.select(indices)[j] == ts[slot_source(
                    capacity,
                    ts.len(),
                    indices[j] as int,
                )]
        }),
{
    lemma_overflow_discards_oldest(capacity, ts, k);
}

/// A sampled batch: the five fields of the selected transitions, each
/// flattened in the order of `indices`.
pub struct RetroBatch {
    pub indices: Vec<usize>,
    pub images: Vec<u8>,
    pub actions: Vec<i32>,
    pub rewards: Vec<i64>,
    pub next_images: Vec<u8>,
    pub dones: Vec<bool>,
}

impl RetroBatch {
    pub open spec fn wf(&self) -> bool {
        &&& self.images@.len() == self.indices@.len() * IMAGE_SIZE
        &&& self.next_images@.len() == self.indices@.len() * IMAGE_SIZE
        &&& self.actions@.len() == self.indices@.len()
        &&& self.rewards@.len() == self.indices@.len()
        &&& self.dones@.len() == self.indices@.len()
    }

    pub open spec fn transition(&self, k: int) -> Transition {
        Transition {
            observation: self.images@.subrange(k * IMAGE_SIZE, (k + 1) * IMAGE_SIZE),
            action: self.actions@[k],
            reward: self.rewards@[k],
            next_observation: self.next_images@.subrange(k * IMAGE_SIZE, (k + 1) * IMAGE_SIZE),
            done: self.dones@[k],
        }
    }
}

impl View for RetroBatch {
    type V = Seq<Transition>;

    open spec fn view(&self) -> Seq<Transition> {
        Seq::new(self.indices@.len(), |k: int| self.transition(k))
    }
}

/// Returned by [`ReplayBuffer::sample`] when more transitions are asked for
/// than the buffer holds.
#[derive(Clone, Copy, Debug, PartialEq, Eq, Structural)]
pub struct InsufficientData {
    pub requested: usize,
    pub available: usize,
}

pub struct ReplayBuffer {
    images: Vec<u8>,
    actions: Vec<i32>,
    rewards: Vec<i64>,
    next_images: Vec<u8>,
    dones: Vec<bool>,
    batch_size: usize,
    capacity: usize,
    min_samples: usize,
    len: usize,
    pos: usize,
}

impl ReplayBuffer {
    pub closed spec fn wf(&self) -> bool {
        &&& self.capacity > 0
        &&& self.capacity * IMAGE_SIZE <= usize::MAX
        &&& self.images@.len() == self.capacity * IMAGE_SIZE
        &&& self.next_images@.len() == self.capacity * IMAGE_SIZE
        &&& self.actions@.len() == self.capacity
        &&& self.rewards@.len() == self.capacity
        &&& self.dones@.len() == self.capacity
        &&& self.len <= self.capacity
        &&& self.pos < self.capacity
        &&& self.len < self.capacity ==> self.pos == self.len
        &&& self.batch_size <= self.min_samples
    }

    spec fn slot(&self, i: int) -> Transition {
        Transition {
            observation: self.images@.subrange(i * IMAGE_SIZE, (i + 1) * IMAGE_SIZE),
            action: self.actions@[i],
            reward: self.rewards@[i],
            next_observation: self.next_images@.subrange(i * IMAGE_SIZE, (i + 1) * IMAGE_SIZE),
            done: self.dones@[i],
        }
    }

    /// Batch size that the buffer was configured with.
    pub closed spec fn spec_batch_size(&self) -> usize {
        self.batch_size
    }

    /// Fill level from which learning may start.
    pub closed spec fn spec_min_samples(&self) -> usize {
        self.min_samples
    }

    /// A buffer for `capacity` transitions. Learning is ready once
    /// `max(batch_size, min_samples)` of them are stored.
    pub fn new(batch_size: usize, capacity: usize, min_samples: usize) -> (buffer: Self)
        requires
            capacity > 0,
            capacity * IMAGE_SIZE <= usize::MAX,
        ensures
            buffer.wf(),
            buffer@ == Ring::empty(capacity as nat),
            buffer.spec_batch_size() == batch_size,
            buffer.spec_min_samples() == if batch_size >= min_samples {
                batch_size
            } else {
                min_samples
            },
    {
        let buffer = ReplayBuffer {
            images: vec![0u8; capacity * IMAGE_SIZE],
            actions: vec![0i32; capacity],
            rewards: vec![0i64; capacity],
            next_images: vec![0u8; capacity * IMAGE_SIZE],
            dones: vec![false; capacity],
            batch_size,
            capacity,
            min_samples: if batch_size >= min_samples {
                batch_size
            } else {
                min_samples
            },
            len: 0,
            pos: 0,
        };
        assert(buffer@.slots =~= Seq::empty());
        buffer
    }

    /// Number of transitions stored.
    pub fn len(&self) -> (len: usize)
        ensures
            len == self@.slots.len(),
    {
        self.len
    }

    pub fn capacity(&self) -> (capacity: usize)
        ensures
            capacity == self@.capacity,
    {
        self.capacity
    }

    pub fn batch_size(&self) -> (batch_size: usize)
        ensures
            batch_size == self.spec_batch_size(),
    {
        self.batch_size
    }

    /// Writes the transition into the slot at the write position. A full
    /// buffer loses the transition that the slot held; no write is refused.
    pub fn store_transition(
        &mut self,
        image: &[u8],
        action: i32,
        reward: i64,
        next_image: &[u8],
        done: bool,
    )
        requires
            old(self).wf(),
            image@.len() == IMAGE_SIZE,
            next_image@.len() == IMAGE_SIZE,
        ensures
            final(self).wf(),
            final(self)@ == old(self)@.store(
                Transition {
                    observation: image@,
                    action,
                    reward,
                    next_observation: next_image@,
                    done,
                },
            ),
            final(self).spec_batch_size() == old(self).spec_batch_size(),
            final(self).spec_min_samples() == old(self).spec_min_samples(),
    {
        let idx: usize = self.pos;
        let start: usize = idx * IMAGE_SIZE;
        write_block(&mut self.images, start, image);
        write_block(&mut self.next_images, start, next_image);
        self.actions[idx] = action;
        self.rewards[idx] = reward;
        self.dones[idx] = done;
        self.pos = (self.pos + 1) % self.capacity;
        if self.len < self.capacity {
            self.len += 1;
        }
        proof {
            if idx + 1 < self.capacity {
                lemma_small_mod((idx + 1) as nat, self.capacity as nat);
            } else {
                lemma_mod_self_0(self.capacity as int);
            }
            let t = Transition {
                observation: image@,
                action,
                reward,
                next_observation: next_image@,
                done,
            };
            let want = old(self)@.store(t);
            assert(self.slot(idx as int).observation =~= image@);
            assert(self.slot(idx as int).next_observation =~= next_image@);
            assert forall|i: int| 0 <= i < self.len && i != idx implies self.slot(i) == old(
                self,
            ).slot(i) by {
                assert(self.slot(i).observation =~= old(self).slot(i).observation);
                assert(self.slot(i).next_observation =~= old(self).slot(i).next_observation);
            }
            assert(self@.slots =~= want.slots);
        }
    }

    /// The batch that `indices` select, field by field in their order.
    pub fn gather(&self, indices: &Vec<usize>) -> (batch: RetroBatch)
        requires
            self.wf(),
            forall|k: int| 0 <= k < indices@.len() ==> indices@[k] < self@.slots.len(),
        ensures
            batch.wf(),
            batch.indices@ == indices@,
            batch@ == self@.select(indices@),
    {
        let n: usize = indices.len();
        let mut batch = RetroBatch {
            indices: Vec::new(),
            images: Vec::new(),
            actions: Vec::new(),
            rewards: Vec::new(),
            next_images: Vec::new(),
            dones: Vec::new(),
        };
        let mut k: usize = 0;
        while k < n
            invariant
                self.wf(),
                n == indices@.len(),
                k <= n,
                forall|j: int| 0 <= j < indices@.len() ==> indices@[j] < self.len,
                batch.wf(),
                batch.indices@ == indices@.take(k as int),
                forall|j: int| 0 <= j < k ==> #[trigger] batch.transition(j) == self.slot(indices@[j] as int),
            decreases n - k,
        {
            let i: usize = indices[k];
            let start: usize = i * IMAGE_SIZE;
            let ghost before = batch;
            batch.indices.push(i);
            append_block(&mut batch.images, &self.images, start, IMAGE_SIZE);
            append_block(&mut batch.next_images, &self.next_images, start, IMAGE_SIZE);
            batch.actions.push(self.actions[i]);
            batch.rewards.push(self.rewards[i]);
            batch.dones.push(self.dones[i]);
            proof {
                assert(batch.indices@ =~= indices@.take(k + 1));
                assert forall|j: int| 0 <= j < k implies #[trigger] batch.transition(j)
                    == self.slot(indices@[j] as int) by {
                    assert(batch.transition(j).observation =~= before.transition(j).observation);
                    assert(batch.transition(j).next_observation =~= before.transition(
                        j,
                    ).next_observation);
                }
                assert(batch.transition(k as int).observation =~= self.slot(i as int).observation);
                assert(batch.transition(k as int).next_observation =~= self.slot(
                    i as int,
                ).next_observation);
            }
            k += 1;
        }
        proof {
            assert(batch.indices@ =~= indices@);
            assert(batch@ =~= self@.select(indices@));
        }
        batch
    }

    /// Draws `batch_size` distinct stored transitions uniformly at random.
    /// Fails exactly when fewer than `batch_size` are stored.
    pub fn sample(&self, batch_size: usize) -> (result: Result<RetroBatch, InsufficientData>)
        requires
            self.wf(),
        ensures
            result is Err <==> batch_size > self@.slots.len(),
            result matches Err(e) ==> e.requested == batch_size && e.available
                == self@.slots.len(),
            result matches Ok(batch) ==> {
                &&& batch.wf()
                &&& batch.indices@.len() == batch_size
                &&& batch.indices@.no_duplicates()
                &&& forall|k: int|
                    0 <= k < batch.indices@.len() ==> batch.indices@[k] < self@.slots.len()
                &&& batch@ == self@.select(batch.indices@)
            },
    {
        if batch_size > self.len {
            return Err(InsufficientData { requested: batch_size, available: self.len });
        }
        let indices = sample_indices(self.len, batch_size);
        Ok(self.gather(&indices))
    }

    /// Whether enough transitions are stored for learning to start.
    pub fn learning_is_ready(&self) -> (ready: bool)
        requires
            self.wf(),
        ensures
            ready == (self@.slots.len() >= self.spec_min_samples()),
            ready ==> self.spec_batch_size() <= self@.slots.len(),
    {
        self.len >= self.min_samples
    }
}

impl View for ReplayBuffer {
    type V = Ring;

    closed spec fn view(&self) -> Ring {
        Ring {
            capacity: self.capacity as nat,
            slots: Seq::new(self.len as nat, |i: int| self.slot(i)),
            pos: self.pos as nat,
        }
    }
}

} // verus!
