//! Parallel processing of collections over provably disjoint indices.
//!
//! A single mutable collection can be handed out to several workers at
//! once, without per-record locks, provided no two workers ever reach the
//! same record. This crate makes that provision checkable. An *access
//! capability* ([`UnsyncAccess`]) describes indexed access to a
//! collection's records, with a contract that pins down exactly which
//! record each read or write touches. A *disjoint index domain*
//! ([`DisjointIndices`]) enumerates indices that provably never repeat:
//! structurally for a contiguous range, or by a one-time validation pass
//! for an arbitrary permutation ([`DisjointIndicesVec`], whose
//! construction fails with [`NotDisjoint`] on a duplicate). A *splittable
//! producer* ([`AccessProducerMut`]) pairs a capability handle with a
//! window into a domain and can be split, recursively, into independent
//! halves over disjoint sub-windows — the shape a divide-and-conquer
//! execution engine consumes ([`UnsyncAccessParIter`]).
//!
//! Because the domain is duplicate-free and the two halves of every split
//! own disjoint windows, the records reached by different workers are
//! pairwise distinct, which is exactly what the capability contract
//! demands; [`lemma_disjoint_write_sets_commute`] states the payoff, that
//! write batches over disjoint index sets commute.

use vstd::prelude::*;

mod access;
mod indices;
mod par_iter;
mod raw;
mod slice;

pub use access::lemma_disjoint_write_sets_commute;
pub use access::lemma_write_all_len;
pub use access::write_all;
pub use access::write_one;
pub use access::writes_disjoint;
pub use access::IntoUnsyncAccess;
pub use access::UnsyncAccess;
pub use indices::DisjointIndexSubsets;
pub use indices::DisjointIndices;
pub use indices::DisjointIndicesVec;
pub use indices::NotDisjoint;
pub use par_iter::disjoint_indices_par_iter;
pub use par_iter::AccessProducerMut;
pub use par_iter::UnsyncAccessParIter;
pub use raw::into_raw_indexed_access;
pub use raw::RawSliceAccess;
pub use slice::UnsyncSliceAccess;

verus! {

} // verus!
