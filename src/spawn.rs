use vstd::prelude::*;
use crate::error::RollbackError;

verus! {

/// An inert placeholder entity made at match start, tagged with its place in the
/// creation order. `entity` identifies the engine's entity on this peer only.
#[derive(Clone, Copy, Debug, PartialEq, Eq, Structural)]
pub struct SpawnSlot {
    pub index: usize,
    pub entity: u64,
}

/// The slots not claimed yet, in any order.
#[derive(Debug)]
pub struct SpawnPool {
    pub slots: Vec<SpawnSlot>,
}

/// `i` is the first position of `s` whose slot has the least index.
pub open spec fn is_first_min(s: Seq<SpawnSlot>, i: int) -> bool {
    &&& 0 <= i < s.len()
    &&& forall|j: int| 0 <= j < s.len() ==> s[i].index <= (#[trigger] s[j]).index
    &&& forall|j: int| 0 <= j < i ==> s[i].index < (#[trigger] s[j]).index
}

/// Position of the first slot with the least index; zero for an empty sequence.
pub open spec fn min_pos(s: Seq<SpawnSlot>) -> int
    decreases s.len(),
{
    if s.len() <= 1 {
        0
    } else {
        let m = min_pos(s.drop_last());
        if s.last().index < s[m].index {
            s.len() - 1
        } else {
            m
        }
    }
}

/// The slot that a claim takes from a nonempty pool is the first one of least index.
pub proof fn lemma_min_pos(s: Seq<SpawnSlot>)
    requires
        s.len() > 0,
    ensures
        is_first_min(s, min_pos(s)),
    decreases s.len(),
{
    if s.len() > 1 {
        let t = s.drop_last();
        lemma_min_pos(t);
        assert forall|j: int| 0 <= j < t.len() implies (#[trigger] s[j]) == t[j] by {}
    }
}

/// No two slots of `s` carry the same index.
pub open spec fn distinct_indices(s: Seq<SpawnSlot>) -> bool {
    forall|p: int, q: int|
        0 <= p < s.len() && 0 <= q < s.len() && p != q ==> (#[trigger] s[p]).index
            != (#[trigger] s[q]).index
}

/// The slots of a pool made from `entities`: the `j`-th entity carries index `j`.
pub open spec fn fresh_slots(entities: Seq<u64>) -> Seq<SpawnSlot> {
    Seq::new(entities.len(), |j: int| SpawnSlot { index: j as usize, entity: entities[j] })
}

impl View for SpawnPool {
    type V = Seq<SpawnSlot>;

    open spec fn view(&self) -> Seq<SpawnSlot> {
        self.slots@
    }
}

impl SpawnPool {
    /// A pool of the given placeholder entities, tagged `0, 1, ..` in that order.
    pub fn new(entities: Vec<u64>) -> (r: SpawnPool)
        ensures
            r@ == fresh_slots(entities@),
    {
        let mut slots: Vec<SpawnSlot> = Vec::new();
        let mut j: usize = 0;
        while j < entities.len()
            invariant
                j <= entities@.len(),
                slots@ == fresh_slots(entities@).take(j as int),
            decreases entities@.len() - j,
        {
            slots.push(SpawnSlot { index: j, entity: entities[j] });
            j = j + 1;
            proof {
                assert(slots@ =~= fresh_slots(entities@).take(j as int));
            }
        }
        proof {
            assert(slots@ =~= fresh_slots(entities@));
        }
        SpawnPool { slots }
    }

    /// A pool of the slots that are still unclaimed, as the world lists them.
    pub fn from_unclaimed(slots: Vec<SpawnSlot>) -> (r: SpawnPool)
        ensures
            r@ == slots@,
    {
        SpawnPool { slots }
    }

    /// Number of slots left.
    pub fn len(&self) -> (r: usize)
        ensures
            r == self@.len(),
    {
        self.slots.len()
    }

    /// Claims the unclaimed slot with the least index. An empty pool is a fatal
    /// provisioning error.
    pub fn claim(&mut self) -> (r: Result<SpawnSlot, RollbackError>)
        ensures
            old(self)@.len() == 0 ==> r == Err::<SpawnSlot, RollbackError>(
                RollbackError::SpawnPoolExhausted,
            ) && final(self)@ == old(self)@,
            old(self)@.len() > 0 ==> r == Ok::<SpawnSlot, RollbackError>(old(self)@[min_pos(old(self)@)])
                && final(self)@ == old(self)@.remove(min_pos(old(self)@)),
    {
        if self.slots.len() == 0 {
            return Err(RollbackError::SpawnPoolExhausted);
        }
        let mut best: usize = 0;
        let mut j: usize = 1;
        while j < self.slots.len()
            invariant
                self@ == old(self)@,
                0 <= best < j <= self@.len(),
                best as int == min_pos(self@.take(j as int)),
            decreases self@.len() - j,
        {
            proof {
                assert(self@.take(j + 1).drop_last() =~= self@.take(j as int));
            }
            if self.slots[j].index < self.slots[best].index {
                best = j;
            }
            j = j + 1;
        }
        proof {
            assert(self@.take(j as int) =~= self@);
        }
        let slot = self.slots.remove(best);
        Ok(slot)
    }
}

/// The slots that `n` claims in turn take from a pool holding `pool`, and the slots
/// left; claims on an empty pool take nothing.
pub open spec fn take_claims(pool: Seq<SpawnSlot>, n: nat) -> (Seq<SpawnSlot>, Seq<SpawnSlot>)
    decreases n,
{
    if n == 0 {
        (Seq::empty(), pool)
    } else {
        let (claimed, rest) = take_claims(pool, (n - 1) as nat);
        if rest.len() == 0 {
            (claimed, rest)
        } else {
            (claimed.push(rest[min_pos(rest)]), rest.remove(min_pos(rest)))
        }
    }
}

/// `n` claims on a pool of at least `n` slots take `n` slots and leave the others.
pub proof fn lemma_take_claims_len(pool: Seq<SpawnSlot>, n: nat)
    requires
        n <= pool.len(),
    ensures
        take_claims(pool, n).0.len() == n,
        take_claims(pool, n).1.len() == pool.len() - n,
    decreases n,
{
    if n > 0 {
        lemma_take_claims_len(pool, (n - 1) as nat);
        let rest = take_claims(pool, (n - 1) as nat).1;
        lemma_min_pos(rest);
    }
}

/// Two pools that hold the same slots, in whatever order, with no index twice, claim
/// the same slot and keep the same slots afterwards. So one script of claims gives
/// every instance the same mapping from spawns to slot indices, however each instance
/// happened to list its unclaimed slots.
pub proof fn lemma_claim_order_independent(a: Seq<SpawnSlot>, b: Seq<SpawnSlot>, i: int, j: int)
    requires
        a.to_multiset() == b.to_multiset(),
        distinct_indices(a),
        is_first_min(a, i),
        is_first_min(b, j),
    ensures
        a[i] == b[j],
        a.remove(i).to_multiset() == b.remove(j).to_multiset(),
        distinct_indices(a.remove(i)),
{
    broadcast use vstd::seq_lib::to_multiset_contains, vstd::seq_lib::to_multiset_remove;

    assert(a.to_multiset().count(a[i]) > 0) by {
        assert(a.contains(a[i]));
    }
    assert(b.contains(a[i]));
    let q = choose|q: int| 0 <= q < b.len() && b[q] == a[i];
    assert(b[j].index <= b[q].index);
    assert(b.to_multiset().count(b[j]) > 0) by {
        assert(b.contains(b[j]));
    }
    assert(a.contains(b[j]));
    let p = choose|p: int| 0 <= p < a.len() && a[p] == b[j];
    assert(a[i].index <= a[p].index);
    assert(p == i);
    assert(distinct_indices(a.remove(i))) by {
        assert forall|x: int, y: int|
            0 <= x < a.remove(i).len() && 0 <= y < a.remove(i).len() && x != y implies (#[trigger] a.remove(
            i,
        )[x]).index != (#[trigger] a.remove(i)[y]).index by {
            let x0 = if x < i { x } else { x + 1 };
            let y0 = if y < i { y } else { y + 1 };
            assert(a.remove(i)[x] == a[x0]);
            assert(a.remove(i)[y] == a[y0]);
        }
    }
}

/// A pool made from `entities` hands its slots out in creation order: after `k` claims
/// the next claim takes the slot of index `k`, the `k`-th entity, and leaves the slots
/// `k + 1 ..` in place.
pub proof fn lemma_fresh_pool_claims_in_order(entities: Seq<u64>, k: int)
    requires
        0 <= k < entities.len(),
        entities.len() <= usize::MAX,
    ensures
        is_first_min(fresh_slots(entities).skip(k), 0),
        fresh_slots(entities).skip(k)[0] == (SpawnSlot { index: k as usize, entity: entities[k] }),
        fresh_slots(entities).skip(k).remove(0) == fresh_slots(entities).skip(k + 1),
{
    let s = fresh_slots(entities).skip(k);
    assert forall|j: int| 0 <= j < s.len() implies s[0].index <= (#[trigger] s[j]).index by {
        assert(s[j].index == (k + j) as usize);
    }
    assert(s.remove(0) =~= fresh_slots(entities).skip(k + 1));
}

} // verus!
