//! The hash family of the filter: one 64-bit hash of the whole item (FNV-1a
//! followed by a 64-bit finalizer), split into two halves that are combined
//! by double hashing into `k` probes over `[0, m)`.
use vstd::prelude::*;
use vstd::arithmetic::div_mod::{lemma_mul_mod_noop_left, lemma_mul_mod_noop_right, lemma_small_mod};
use vstd::arithmetic::mul::lemma_mul_is_associative;
use vstd::wrapping::u64_specs::wrapping_mul;

verus! {

pub const FNV_OFFSET: u64 = 0xcbf2_9ce4_8422_2325;

pub const FNV_PRIME: u64 = 0x0000_0100_0000_01b3;

pub const MIX_A: u64 = 0xff51_afd7_ed55_8ccd;

pub const MIX_B: u64 = 0xc4ce_b9fe_1a85_ec53;

/// One FNV-1a round: fold a byte into the running state.
pub open spec fn fnv_step(state: u64, byte: u8) -> u64 {
    wrapping_mul(state ^ (byte as u64), FNV_PRIME)
}

/// FNV-1a over all of `bytes`, each byte folded in order.
pub open spec fn fnv1a(bytes: Seq<u8>) -> u64
    decreases bytes.len(),
{
    if bytes.len() == 0 {
        FNV_OFFSET
    } else {
        fnv_step(fnv1a(bytes.drop_last()), bytes.last())
    }
}

/// The 64-bit finalizer that spreads every input bit over the output.
pub open spec fn finalize(h: u64) -> u64 {
    let a = h ^ (h >> 33u64);
    let b = wrapping_mul(a, MIX_A);
    let c = b ^ (b >> 33u64);
    let d = wrapping_mul(c, MIX_B);
    d ^ (d >> 33u64)
}

/// The base hash of an item.
pub open spec fn item_hash(item: Seq<u8>) -> u64 {
    finalize(fnv1a(item))
}

/// Low half of the base hash: the first probe's offset.
pub open spec fn low_half(item: Seq<u8>) -> nat {
    (item_hash(item) % 0x1_0000_0000) as nat
}

/// High half of the base hash: the stride between probes.
pub open spec fn high_half(item: Seq<u8>) -> nat {
    (item_hash(item) / 0x1_0000_0000) as nat
}

/// Slot chosen by probe `i` of `item` among `m` slots.
pub open spec fn probe(i: nat, item: Seq<u8>, m: nat) -> nat
    recommends
        m > 0,
{
    ((low_half(item) + i * high_half(item)) % m) as nat
}

/// Multiplying by a constant that has an inverse modulo 2^64 loses nothing.
proof fn lemma_mul_invertible(x: u64, y: u64, c: u64, c_inv: u64)
    requires
        (c as int * c_inv as int) % 0x1_0000_0000_0000_0000 == 1,
        wrapping_mul(x, c) == wrapping_mul(y, c),
    ensures
        x == y,
{
    let n: int = 0x1_0000_0000_0000_0000;
    assert forall|z: u64| #[trigger] ((wrapping_mul(z, c) as int) * c_inv) % n == z as int by {
        lemma_mul_mod_noop_left(z as int * c as int, c_inv as int, n);
        lemma_mul_is_associative(z as int, c as int, c_inv as int);
        lemma_mul_mod_noop_right(z as int, c as int * c_inv as int, n);
        lemma_small_mod(z as nat, n as nat);
    }
    assert(((wrapping_mul(x, c) as int) * c_inv) % n == x as int);
    assert(((wrapping_mul(y, c) as int) * c_inv) % n == y as int);
}

proof fn lemma_xorshift_injective(x: u64, y: u64)
    requires
        x ^ (x >> 33u64) == y ^ (y >> 33u64),
    ensures
        x == y,
{
    assert(x ^ (x >> 33u64) == y ^ (y >> 33u64) ==> x == y) by (bit_vector);
}

/// The finalizer is a bijection, so it keeps every difference in its input.
proof fn lemma_finalize_injective(x: u64, y: u64)
    requires
        finalize(x) == finalize(y),
    ensures
        x == y,
{
    let xa = x ^ (x >> 33u64);
    let ya = y ^ (y >> 33u64);
    let xb = wrapping_mul(xa, MIX_A);
    let yb = wrapping_mul(ya, MIX_A);
    let xc = xb ^ (xb >> 33u64);
    let yc = yb ^ (yb >> 33u64);
    let xd = wrapping_mul(xc, MIX_B);
    let yd = wrapping_mul(yc, MIX_B);
    lemma_xorshift_injective(xd, yd);
    lemma_mul_invertible(xc, yc, MIX_B, 0x9cb4_b2f8_1293_37db);
    lemma_xorshift_injective(xb, yb);
    lemma_mul_invertible(xa, ya, MIX_A, 0x4f74_430c_22a5_4005);
    lemma_xorshift_injective(x, y);
}

proof fn lemma_fnv_step_injective(s1: u64, b1: u8, s2: u64, b2: u8)
    requires
        fnv_step(s1, b1) == fnv_step(s2, b2),
    ensures
        s1 == s2 <==> b1 == b2,
{
    lemma_mul_invertible(s1 ^ (b1 as u64), s2 ^ (b2 as u64), FNV_PRIME, 0xce96_5057_aff6_957b);
    let c1 = b1 as u64;
    let c2 = b2 as u64;
    assert(s1 ^ c1 == s2 ^ c2 ==> (s1 == s2 <==> c1 == c2)) by (bit_vector);
}

proof fn lemma_fnv_one_byte_apart(a: Seq<u8>, b: Seq<u8>, j: int)
    requires
        a.len() == b.len(),
        0 <= j < a.len(),
        a[j] != b[j],
        forall|i: int| 0 <= i < a.len() && i != j ==> a[i] == b[i],
    ensures
        fnv1a(a) != fnv1a(b),
    decreases a.len(),
{
    let n = a.len() - 1;
    if j == n {
        assert(a.drop_last() =~= b.drop_last());
    } else {
        lemma_fnv_one_byte_apart(a.drop_last(), b.drop_last(), j);
        assert(a.last() == b.last());
    }
    if fnv1a(a) == fnv1a(b) {
        lemma_fnv_step_injective(fnv1a(a.drop_last()), a.last(), fnv1a(b.drop_last()), b.last());
    }
}

/// The base hash depends on every byte of the item: two items of one length
/// that differ in a single byte, wherever it stands, hash differently.
pub proof fn lemma_hash_depends_on_every_byte(a: Seq<u8>, b: Seq<u8>, j: int)
    requires
        a.len() == b.len(),
        0 <= j < a.len(),
        a[j] != b[j],
        forall|i: int| 0 <= i < a.len() && i != j ==> a[i] == b[i],
    ensures
        item_hash(a) != item_hash(b),
{
    lemma_fnv_one_byte_apart(a, b, j);
    if item_hash(a) == item_hash(b) {
        lemma_finalize_injective(fnv1a(a), fnv1a(b));
    }
}

fn finalize_exec(h: u64) -> (r: u64)
    ensures
        r == finalize(h),
{
    let a = h ^ (h >> 33u64);
    let b = a.wrapping_mul(MIX_A);
    let c = b ^ (b >> 33u64);
    let d = c.wrapping_mul(MIX_B);
    d ^ (d >> 33u64)
}

/// Computes the base hash of `data`.
pub fn hash_bytes(data: &Vec<u8>) -> (h: u64)
    ensures
        h == item_hash(data@),
{
    let mut state: u64 = FNV_OFFSET;
    let mut i: usize = 0;
    while i < data.len()
        invariant
            i <= data.len(),
            state == fnv1a(data@.subrange(0, i as int)),
        decreases data.len() - i,
    {
        state = (state ^ (data[i] as u64)).wrapping_mul(FNV_PRIME);
        assert(data@.subrange(0, i + 1).drop_last() =~= data@.subrange(0, i as int));
        i += 1;
    }
    assert(data@.subrange(0, data.len() as int) =~= data@);
    finalize_exec(state)
}

/// Slot of probe `i` for `data` in a filter of `m` slots.
pub fn hash_fn(i: u32, m: u32, data: &Vec<u8>) -> (slot: usize)
    requires
        m > 0,
    ensures
        slot == probe(i as nat, data@, m as nat),
        slot < m,
{
    let h = hash_bytes(data);
    let lo: u64 = h % 0x1_0000_0000;
    let hi: u64 = h / 0x1_0000_0000;
    let step: u64 = i as u64;
    assert(step * hi <= 0xffff_ffff * 0xffff_ffff) by (nonlinear_arith)
        requires
            step <= 0xffff_ffff,
            hi <= 0xffff_ffff,
    ;
    let slot = (lo + step * hi) % (m as u64);
    slot as usize
}

} // verus!
