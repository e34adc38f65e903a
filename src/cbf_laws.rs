//! What holds of the filter across calls: an added item stays reported,
//! removals never reach below zero nor touch unprobed slots, counters
//! saturate, and a reset forgets everything.
use vstd::prelude::*;
use crate::hash::probe;
use crate::cbf::{hits, sat_up, floor_down, FilterView, COUNTER_MAX};

verus! {

/// One item-level operation on a filter.
pub enum FilterOp {
    Add(Seq<u8>),
    Remove(Seq<u8>),
}

impl FilterView {
    pub open spec fn apply(self, op: FilterOp) -> FilterView {
        match op {
            FilterOp::Add(item) => self.added(item),
            FilterOp::Remove(item) => self.removed(item),
        }
    }

    /// The state after performing `ops` in order.
    pub open spec fn run(self, ops: Seq<FilterOp>) -> FilterView
        decreases ops.len(),
    {
        if ops.len() == 0 {
            self
        } else {
            self.apply(ops[0]).run(ops.drop_first())
        }
    }

    /// Whether some probe of `a` and some probe of `b` land on one slot.
    pub open spec fn shares_slot(self, a: Seq<u8>, b: Seq<u8>) -> bool {
        exists|i: nat, j: nat|
            i < self.k && j < self.k && #[trigger] probe(i, a, self.m) == #[trigger] probe(
                j,
                b,
                self.m,
            )
    }

    pub open spec fn added_times(self, item: Seq<u8>, times: nat) -> FilterView
        decreases times,
    {
        if times == 0 {
            self
        } else {
            self.added_times(item, (times - 1) as nat).added(item)
        }
    }

    pub open spec fn removed_times(self, item: Seq<u8>, times: nat) -> FilterView
        decreases times,
    {
        if times == 0 {
            self
        } else {
            self.removed_times(item, (times - 1) as nat).removed(item)
        }
    }
}

proof fn lemma_hits_positive(item: Seq<u8>, j: nat, m: nat, i: nat)
    requires
        i < j,
    ensures
        hits(item, j, m, probe(i, item, m)) >= 1,
    decreases j,
{
    if i < j - 1 {
        lemma_hits_positive(item, (j - 1) as nat, m, i);
    }
}

proof fn lemma_hits_absent(item: Seq<u8>, j: nat, m: nat, slot: nat)
    requires
        forall|i: nat| i < j ==> #[trigger] probe(i, item, m) != slot,
    ensures
        hits(item, j, m, slot) == 0,
    decreases j,
{
    if j > 0 {
        lemma_hits_absent(item, (j - 1) as nat, m, slot);
    }
}

/// Right after `add(x)`, `contains(x)` holds.
pub proof fn lemma_add_then_contains(v: FilterView, x: Seq<u8>)
    requires
        v.wf(),
    ensures
        v.added(x).wf(),
        v.added(x).contains(x),
{
    assert forall|i: nat| i < v.k implies v.added(x).counters[#[trigger] probe(i, x, v.m) as int]
        != 0 by {
        lemma_hits_positive(x, v.k, v.m, i);
    }
}

/// Adding any item never turns a reported item into an unreported one.
pub proof fn lemma_add_keeps(v: FilterView, x: Seq<u8>, y: Seq<u8>)
    requires
        v.wf(),
        v.contains(x),
    ensures
        v.added(y).wf(),
        v.added(y).contains(x),
{
    assert forall|i: nat| i < v.k implies v.added(y).counters[#[trigger] probe(i, x, v.m) as int]
        != 0 by {
        assert(v.counters[probe(i, x, v.m) as int] != 0);
    }
}

/// Removing an item that shares no slot with `x` keeps `x` reported.
pub proof fn lemma_remove_apart_keeps(v: FilterView, x: Seq<u8>, y: Seq<u8>)
    requires
        v.wf(),
        v.contains(x),
        !v.shares_slot(x, y),
    ensures
        v.removed(y).wf(),
        v.removed(y).contains(x),
{
    assert forall|i: nat| i < v.k implies v.removed(y).counters[#[trigger] probe(i, x, v.m) as int]
        != 0 by {
        let s = probe(i, x, v.m);
        assert forall|j: nat| j < v.k implies #[trigger] probe(j, y, v.m) != s by {
            if probe(j, y, v.m) == s {
                assert(v.shares_slot(x, y));
            }
        }
        lemma_hits_absent(y, v.k, v.m, s);
        assert(v.counters[s as int] != 0);
    }
}

/// An item that is reported stays reported through any sequence of adds, and
/// of removals of items that share no slot with it.
pub proof fn lemma_run_keeps(v: FilterView, x: Seq<u8>, ops: Seq<FilterOp>)
    requires
        v.wf(),
        v.contains(x),
        forall|j: int|
            0 <= j < ops.len() ==> match #[trigger] ops[j] {
                FilterOp::Add(_) => true,
                FilterOp::Remove(y) => !v.shares_slot(x, y),
            },
    ensures
        v.run(ops).wf(),
        v.run(ops).contains(x),
    decreases ops.len(),
{
    if ops.len() > 0 {
        let w = v.apply(ops[0]);
        match ops[0] {
            FilterOp::Add(y) => lemma_add_keeps(v, x, y),
            FilterOp::Remove(y) => lemma_remove_apart_keeps(v, x, y),
        }
        let rest = ops.drop_first();
        assert forall|j: int| 0 <= j < rest.len() implies match #[trigger] rest[j] {
            FilterOp::Add(_) => true,
            FilterOp::Remove(y) => !w.shares_slot(x, y),
        } by {
            assert(rest[j] == ops[j + 1]);
        }
        lemma_run_keeps(w, x, rest);
    }
}

/// No false negatives: once `x` is added, `contains(x)` holds after any later
/// adds of any items, and after removals of items that share no slot with `x`
/// (so in particular `x` itself is never removed).
pub proof fn lemma_no_false_negatives(v: FilterView, x: Seq<u8>, ops: Seq<FilterOp>)
    requires
        v.wf(),
        forall|j: int|
            0 <= j < ops.len() ==> match #[trigger] ops[j] {
                FilterOp::Add(_) => true,
                FilterOp::Remove(y) => !v.shares_slot(x, y),
            },
    ensures
        v.added(x).run(ops).contains(x),
{
    lemma_add_then_contains(v, x);
    lemma_run_keeps(v.added(x), x, ops);
}

/// Zero floor and isolation: removing `y` any number of times takes each
/// counter down by its share of `y`'s probes but never below zero, and leaves
/// every slot that `y` does not probe exactly as it was.
pub proof fn lemma_remove_isolation(v: FilterView, y: Seq<u8>, times: nat)
    requires
        v.wf(),
    ensures
        v.removed_times(y, times).wf(),
        v.removed_times(y, times).m == v.m,
        v.removed_times(y, times).k == v.k,
        forall|s: int|
            0 <= s < v.m ==> #[trigger] v.removed_times(y, times).counters[s] == floor_down(
                v.counters[s],
                times * hits(y, v.k, v.m, s as nat),
            ),
        forall|s: int|
            0 <= s < v.m ==> #[trigger] v.removed_times(y, times).counters[s] <= v.counters[s],
        forall|s: int|
            0 <= s < v.m && !v.probes(y, s as nat) ==> #[trigger] v.removed_times(
                y,
                times,
            ).counters[s] == v.counters[s],
    decreases times,
{
    if times > 0 {
        let t = (times - 1) as nat;
        lemma_remove_isolation(v, y, t);
        let w = v.removed_times(y, t);
        assert forall|s: int| 0 <= s < v.m implies #[trigger] v.removed_times(y, times).counters[s]
            == floor_down(v.counters[s], times * hits(y, v.k, v.m, s as nat)) by {
            let h = hits(y, v.k, v.m, s as nat);
            let w = v.removed_times(y, t);
            assert(v.removed_times(y, times) == w.removed(y));
            assert(w.removed(y).counters[s] == floor_down(w.counters[s], h));
            assert(times * h == t * h + h) by (nonlinear_arith)
                requires
                    times == t + 1,
            ;
        }
        assert forall|s: int| 0 <= s < v.m && !v.probes(y, s as nat) implies #[trigger] v.removed_times(
            y,
            times,
        ).counters[s] == v.counters[s] by {
            assert forall|j: nat| j < v.k implies #[trigger] probe(j, y, v.m) != s as nat by {
                if probe(j, y, v.m) == s as nat {
                    assert(v.probes(y, s as nat));
                }
            }
            lemma_hits_absent(y, v.k, v.m, s as nat);
        }
    }
}

/// Saturation: adding `x` any number of times raises each counter by its
/// share of `x`'s probes, clamped at the counter maximum; a counter at the
/// maximum stays there, and every slot `x` probes is at the maximum once `x`
/// has been added at least that many times.
pub proof fn lemma_saturation(v: FilterView, x: Seq<u8>, times: nat)
    requires
        v.wf(),
    ensures
        v.added_times(x, times).wf(),
        v.added_times(x, times).m == v.m,
        v.added_times(x, times).k == v.k,
        forall|s: int|
            0 <= s < v.m ==> #[trigger] v.added_times(x, times).counters[s] == sat_up(
                v.counters[s],
                times * hits(x, v.k, v.m, s as nat),
            ),
        forall|s: int|
            0 <= s < v.m && v.counters[s] == COUNTER_MAX ==> #[trigger] v.added_times(
                x,
                times,
            ).counters[s] == COUNTER_MAX,
        forall|s: int|
            0 <= s < v.m && v.probes(x, s as nat) && times >= COUNTER_MAX ==> #[trigger] v.added_times(
                x,
                times,
            ).counters[s] == COUNTER_MAX,
    decreases times,
{
    if times > 0 {
        let t = (times - 1) as nat;
        lemma_saturation(v, x, t);
        assert forall|s: int| 0 <= s < v.m implies #[trigger] v.added_times(x, times).counters[s]
            == sat_up(v.counters[s], times * hits(x, v.k, v.m, s as nat)) by {
            let h = hits(x, v.k, v.m, s as nat);
            let w = v.added_times(x, t);
            assert(v.added_times(x, times) == w.added(x));
            assert(w.added(x).counters[s] == sat_up(w.counters[s], h));
            assert(times * h == t * h + h) by (nonlinear_arith)
                requires
                    times == t + 1,
            ;
        }
        assert forall|s: int| 0 <= s < v.m && v.probes(x, s as nat) && times >= COUNTER_MAX implies #[trigger] v.added_times(
            x,
            times,
        ).counters[s] == COUNTER_MAX by {
            let i = choose|i: nat| i < v.k && #[trigger] probe(i, x, v.m) == s as nat;
            lemma_hits_positive(x, v.k, v.m, i);
            let h = hits(x, v.k, v.m, s as nat);
            assert(times * h >= times) by (nonlinear_arith)
                requires
                    h >= 1,
            ;
        }
    }
}

/// What the false-positive estimate reads after an add: the slot and probe
/// counts stay, and the insertion count does not go down (it goes up by one
/// unless already at its maximum).
pub proof fn lemma_add_grows_size(v: FilterView, x: Seq<u8>)
    requires
        v.wf(),
    ensures
        v.added(x).m == v.m,
        v.added(x).k == v.k,
        v.added(x).observed >= v.observed,
        v.observed < i64::MAX ==> v.added(x).observed == v.observed + 1,
{
}

/// After `reset`, no item is reported and the insertion count is zero.
pub proof fn lemma_reset_clears(v: FilterView, x: Seq<u8>)
    requires
        v.wf(),
    ensures
        v.cleared().wf(),
        v.cleared().observed == 0,
        !v.cleared().contains(x),
{
    assert(v.cleared().counters[probe(0, x, v.m) as int] == 0);
}

} // verus!
