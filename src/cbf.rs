//! Counting Bloom filter: `m` saturating 8-bit counters probed `k` times per
//! item. Counters never wrap on overflow and never go below zero on removal.
use vstd::prelude::*;
use crate::hash::{hash_fn, probe};

verus! {

/// Largest value a counter can hold; adds saturate here.
pub const COUNTER_MAX: u8 = 255;

/// The only way construction can fail.
#[derive(Debug, Clone, Copy, PartialEq, Eq, Structural)]
pub enum FilterError {
    InvalidParameters,
}

/// Abstract state of a filter.
pub struct FilterView {
    /// Net number of `add` calls minus `remove` calls.
    pub observed: int,
    pub m: nat,
    pub k: nat,
    pub counters: Seq<u8>,
}

/// Number of the first `j` probes of `item` that land on `slot`.
pub open spec fn hits(item: Seq<u8>, j: nat, m: nat, slot: nat) -> nat
    decreases j,
{
    if j == 0 {
        0
    } else {
        hits(item, (j - 1) as nat, m, slot) + if probe((j - 1) as nat, item, m) == slot {
            1nat
        } else {
            0nat
        }
    }
}

/// A counter after `n` saturating increments.
pub open spec fn sat_up(c: u8, n: nat) -> u8 {
    if c + n >= COUNTER_MAX {
        COUNTER_MAX
    } else {
        (c + n) as u8
    }
}

/// A counter after `n` decrements that stop at zero.
pub open spec fn floor_down(c: u8, n: nat) -> u8 {
    if c <= n {
        0
    } else {
        (c - n) as u8
    }
}

impl FilterView {
    /// Parameters in range and one counter per slot.
    pub open spec fn wf(self) -> bool {
        &&& 0 < self.k <= self.m <= u32::MAX
        &&& self.counters.len() == self.m
        &&& i64::MIN <= self.observed <= i64::MAX
    }

    /// Whether every slot that `item` probes holds a nonzero counter.
    pub open spec fn contains(self, item: Seq<u8>) -> bool {
        forall|i: nat| i < self.k ==> self.counters[#[trigger] probe(i, item, self.m) as int] != 0
    }

    /// Whether `slot` is one of the slots that `item` probes.
    pub open spec fn probes(self, item: Seq<u8>, slot: nat) -> bool {
        exists|i: nat| i < self.k && #[trigger] probe(i, item, self.m) == slot
    }

    /// The state after `add(item)`: each counter rises by the number of
    /// probes of `item` that land on it, clamped at the counter maximum; the
    /// insertion count rises by one, stopping at `i64::MAX`.
    pub open spec fn added(self, item: Seq<u8>) -> FilterView {
        FilterView {
            observed: if self.observed < i64::MAX { self.observed + 1 } else { self.observed },
            m: self.m,
            k: self.k,
            counters: Seq::new(
                self.m,
                |s: int| sat_up(self.counters[s], hits(item, self.k, self.m, s as nat)),
            ),
        }
    }

    /// The state after `remove(item)`: each counter falls by the number of
    /// probes of `item` that land on it, but not below zero; the insertion
    /// count falls by one, stopping at `i64::MIN`.
    pub open spec fn removed(self, item: Seq<u8>) -> FilterView {
        FilterView {
            observed: if self.observed > i64::MIN { self.observed - 1 } else { self.observed },
            m: self.m,
            k: self.k,
            counters: Seq::new(
                self.m,
                |s: int| floor_down(self.counters[s], hits(item, self.k, self.m, s as nat)),
            ),
        }
    }

    /// The state after `reset`: all counters and the insertion count zero.
    pub open spec fn cleared(self) -> FilterView {
        FilterView { observed: 0, m: self.m, k: self.k, counters: Seq::new(self.m, |s: int| 0u8) }
    }
}

/// A fresh filter with `m` slots and `k` probes.
pub open spec fn empty_filter(m: nat, k: nat) -> FilterView {
    FilterView { observed: 0, m, k, counters: Seq::new(m, |s: int| 0u8) }
}

/// A counting Bloom filter over byte strings.
pub struct CountingBloomFilter {
    n: i64,
    m: u32,
    k: u32,
    bits: Vec<u8>,
}

impl View for CountingBloomFilter {
    type V = FilterView;

    closed spec fn view(&self) -> FilterView {
        FilterView { observed: self.n as int, m: self.m as nat, k: self.k as nat, counters: self.bits@ }
    }
}

/// `len` zero counters.
fn zeroed(len: u32) -> (v: Vec<u8>)
    ensures
        v@ == Seq::new(len as nat, |s: int| 0u8),
{
    let mut v: Vec<u8> = Vec::new();
    let mut i: u32 = 0;
    while i < len
        invariant
            i <= len,
            v@ == Seq::new(i as nat, |s: int| 0u8),
        decreases len - i,
    {
        v.push(0u8);
        i += 1;
        assert(v@ =~= Seq::new(i as nat, |s: int| 0u8));
    }
    v
}

impl CountingBloomFilter {
    /// Creates an empty filter of `m` counters probed `k` times per item.
    pub fn new(m: u32, k: u32) -> (r: Result<CountingBloomFilter, FilterError>)
        ensures
            r is Err <==> (m == 0 || k == 0 || k > m),
            r is Err ==> r->Err_0 == FilterError::InvalidParameters,
            r is Ok ==> r->Ok_0@ == empty_filter(m as nat, k as nat) && r->Ok_0@.wf(),
    {
        if m == 0 || k == 0 || k > m {
            return Err(FilterError::InvalidParameters);
        }
        Ok(CountingBloomFilter { n: 0, m, k, bits: zeroed(m) })
    }

    /// Number of counter slots.
    pub fn slots(&self) -> (r: u32)
        ensures
            r == self@.m,
    {
        self.m
    }

    /// Number of probes per item.
    pub fn hashes(&self) -> (r: u32)
        ensures
            r == self@.k,
    {
        self.k
    }

    /// Net number of adds minus removes.
    pub fn size(&self) -> (r: i64)
        ensures
            r == self@.observed,
    {
        self.n
    }

    /// Records one insertion of `data`: each probed counter goes up by one,
    /// stopping at the counter maximum.
    pub fn add(&mut self, data: &Vec<u8>)
        requires
            old(self)@.wf(),
        ensures
            final(self)@ == old(self)@.added(data@),
            final(self)@.wf(),
    {
        let ghost start = self@;
        let mut i: u32 = 0;
        while i < self.k
            invariant
                start.wf(),
                i <= self.k,
                self.n == start.observed,
                self.m == start.m,
                self.k == start.k,
                self.bits@.len() == start.m,
                forall|s: int|
                    0 <= s < start.m ==> #[trigger] self.bits@[s] == sat_up(
                        start.counters[s],
                        hits(data@, i as nat, start.m, s as nat),
                    ),
            decreases self.k - i,
        {
            let slot = hash_fn(i, self.m, data);
            let c = self.bits[slot];
            if c < COUNTER_MAX {
                self.bits.set(slot, c + 1);
            }
            i += 1;
        }
        if self.n < i64::MAX {
            self.n = self.n + 1;
        }
        assert(self@.counters =~= start.added(data@).counters);
    }

    /// Records one removal of `data`: each probed counter goes down by one,
    /// except that a counter already at zero stays there.
    pub fn remove(&mut self, data: &Vec<u8>)
        requires
            old(self)@.wf(),
        ensures
            final(self)@ == old(self)@.removed(data@),
            final(self)@.wf(),
    {
        let ghost start = self@;
        let mut i: u32 = 0;
        while i < self.k
            invariant
                start.wf(),
                i <= self.k,
                self.n == start.observed,
                self.m == start.m,
                self.k == start.k,
                self.bits@.len() == start.m,
                forall|s: int|
                    0 <= s < start.m ==> #[trigger] self.bits@[s] == floor_down(
                        start.counters[s],
                        hits(data@, i as nat, start.m, s as nat),
                    ),
            decreases self.k - i,
        {
            let slot = hash_fn(i, self.m, data);
            let c = self.bits[slot];
            if c > 0 {
                self.bits.set(slot, c - 1);
            }
            i += 1;
        }
        if self.n > i64::MIN {
            self.n = self.n - 1;
        }
        assert(self@.counters =~= start.removed(data@).counters);
    }

    /// Whether every probed counter of `data` is nonzero.
    pub fn contains(&self, data: &Vec<u8>) -> (r: bool)
        requires
            self@.wf(),
        ensures
            r == self@.contains(data@),
    {
        let mut i: u32 = 0;
        while i < self.k
            invariant
                self@.wf(),
                i <= self.k,
                forall|j: nat| j < i ==> self.bits@[#[trigger] probe(j, data@, self.m as nat) as int] != 0,
            decreases self.k - i,
        {
            let slot = hash_fn(i, self.m, data);
            if self.bits[slot] == 0 {
                return false;
            }
            i += 1;
        }
        true
    }

    /// Zeroes every counter and the insertion count; `m` and `k` stay.
    pub fn reset(&mut self)
        requires
            old(self)@.wf(),
        ensures
            final(self)@ == old(self)@.cleared(),
            final(self)@.wf(),
    {
        self.bits = zeroed(self.m);
        self.n = 0;
    }
}

} // verus!
