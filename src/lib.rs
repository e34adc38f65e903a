//! Counting Bloom filter with saturating counters, its hash family, and a
//! grow-only replicated counter.

pub mod cbf;
pub mod cbf_laws;
pub mod g_counter;
pub mod hash;
