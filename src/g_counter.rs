//! Grow-only replicated counter: one slot per node, each node increments its
//! own slot, and replicas merge by taking the larger value slot by slot.
use vstd::prelude::*;

verus! {

/// Sum of all slots.
pub open spec fn total(s: Seq<u64>) -> int
    decreases s.len(),
{
    if s.len() == 0 {
        0
    } else {
        total(s.drop_last()) + s.last()
    }
}

/// `a` with each slot that `b` also has raised to `b`'s value where larger.
pub open spec fn joined(a: Seq<u64>, b: Seq<u64>) -> Seq<u64> {
    Seq::new(
        a.len(),
        |i: int|
            if i < b.len() && b[i] > a[i] {
                b[i]
            } else {
                a[i]
            },
    )
}

pub struct GCounter {
    id: u64,
    p: Vec<u64>,
}

impl View for GCounter {
    type V = Seq<u64>;

    closed spec fn view(&self) -> Seq<u64> {
        self.p@
    }
}

proof fn lemma_total_prefix(s: Seq<u64>, i: int)
    requires
        0 <= i <= s.len(),
    ensures
        total(s.subrange(0, i)) <= total(s),
    decreases s.len(),
{
    if i < s.len() {
        lemma_total_prefix(s.drop_last(), i);
        assert(s.drop_last().subrange(0, i) =~= s.subrange(0, i));
    } else {
        assert(s.subrange(0, i) =~= s);
    }
}

impl GCounter {
    /// The slot this replica increments.
    pub closed spec fn node(&self) -> u64 {
        self.id
    }

    /// A replica for node `id` starting from the slot values `p`.
    pub fn new(id: u64, p: Vec<u64>) -> (r: GCounter)
        ensures
            r.node() == id,
            r@ == p@,
    {
        GCounter { id, p }
    }

    /// Counts one event at this replica's own slot.
    pub fn increment(&mut self)
        requires
            old(self).node() < old(self)@.len(),
            old(self)@[old(self).node() as int] < u64::MAX,
        ensures
            final(self).node() == old(self).node(),
            final(self)@ == old(self)@.update(
                old(self).node() as int,
                (old(self)@[old(self).node() as int] + 1) as u64,
            ),
    {
        let slots = self.p.len();
        assert(self.id < slots);
        let g = self.id as usize;
        let c = self.p[g];
        self.p.set(g, c + 1);
    }

    /// The counter's value: the sum over all slots.
    pub fn value(&self) -> (r: u64)
        requires
            total(self@) <= u64::MAX,
        ensures
            r == total(self@),
    {
        let mut acc: u64 = 0;
        let mut i: usize = 0;
        while i < self.p.len()
            invariant
                i <= self.p@.len(),
                total(self.p@) <= u64::MAX,
                acc == total(self.p@.subrange(0, i as int)),
            decreases self.p.len() - i,
        {
            proof {
                lemma_total_prefix(self.p@, i + 1);
                assert(self.p@.subrange(0, i + 1).drop_last() =~= self.p@.subrange(0, i as int));
            }
            acc = acc + self.p[i];
            i += 1;
        }
        assert(self.p@.subrange(0, i as int) =~= self.p@);
        acc
    }

    /// Whether both replicas hold the same slot values.
    pub fn compare(&self, other: &GCounter) -> (r: bool)
        ensures
            r == (self@ == other@),
    {
        if self.p.len() != other.p.len() {
            return false;
        }
        let mut i: usize = 0;
        while i < self.p.len()
            invariant
                i <= self.p@.len(),
                self.p@.len() == other.p@.len(),
                forall|j: int| 0 <= j < i ==> self.p@[j] == other.p@[j],
            decreases self.p.len() - i,
        {
            if self.p[i] != other.p[i] {
                return false;
            }
            i += 1;
        }
        assert(self.p@ =~= other.p@);
        true
    }

    /// Raises each slot to `other`'s value where that is larger, and returns
    /// the merged slot values.
    pub fn merge(&mut self, other: &GCounter) -> (r: Vec<u64>)
        ensures
            final(self).node() == old(self).node(),
            final(self)@ == joined(old(self)@, other@),
            r@ == final(self)@,
    {
        let ghost start = self.p@;
        let mut i: usize = 0;
        while i < self.p.len()
            invariant
                i <= self.p@.len(),
                self.id == old(self).id,
                self.p@.len() == start.len(),
                forall|j: int| 0 <= j < i ==> self.p@[j] == #[trigger] joined(start, other.p@)[j],
                forall|j: int| i <= j < start.len() ==> self.p@[j] == start[j],
            decreases self.p.len() - i,
        {
            if i < other.p.len() && other.p[i] > self.p[i] {
                let v = other.p[i];
                self.p.set(i, v);
            }
            i += 1;
        }
        assert(self.p@ =~= joined(start, other.p@));
        self.p.clone()
    }
}

/// Merging replicas of the same size does not depend on their order.
pub proof fn lemma_merge_commutative(a: Seq<u64>, b: Seq<u64>)
    requires
        a.len() == b.len(),
    ensures
        joined(a, b) == joined(b, a),
{
    assert(joined(a, b) =~= joined(b, a));
}

/// Merging replicas of the same size does not depend on grouping.
pub proof fn lemma_merge_associative(a: Seq<u64>, b: Seq<u64>, c: Seq<u64>)
    requires
        a.len() == b.len(),
        b.len() == c.len(),
    ensures
        joined(joined(a, b), c) == joined(a, joined(b, c)),
{
    assert(joined(joined(a, b), c) =~= joined(a, joined(b, c)));
}

/// Merging a replica with itself changes nothing.
pub proof fn lemma_merge_idempotent(a: Seq<u64>)
    ensures
        joined(a, a) == a,
{
    assert(joined(a, a) =~= a);
}

/// The merged state is at least each input, slot by slot.
pub proof fn lemma_merge_dominates(a: Seq<u64>, b: Seq<u64>)
    ensures
        joined(a, b).len() == a.len(),
        forall|i: int| 0 <= i < a.len() ==> #[trigger] joined(a, b)[i] >= a[i],
        forall|i: int| 0 <= i < a.len() && i < b.len() ==> #[trigger] joined(a, b)[i] >= b[i],
{
}

} // verus!
