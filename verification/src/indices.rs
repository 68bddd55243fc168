//! Disjoint index domains: enumerations of indices that provably contain
//! no duplicates.

use std::collections::HashSet;
use std::ops::Range;

use vstd::prelude::*;

verus! {

broadcast use vstd::std_specs::hash::group_hash_axioms;

/// An ordered enumeration of indices that is guaranteed free of
/// duplicates.
///
/// The guarantee is the soundness foundation for concurrent mutable
/// access: whenever two workers are handed records at two distinct logical
/// positions of a domain, those positions map — by
/// [`DisjointIndices::lemma_indices_disjoint`] — to distinct underlying
/// indices, which is exactly the precondition the access-capability
/// contract demands (see [`crate::UnsyncAccess`]).
pub trait DisjointIndices: Sized + Sync + Send {
    /// The enumerated indices: logical position `i` maps to
    /// `index_seq()[i]`.
    spec fn index_seq(&self) -> Seq<usize>;

    /// Validity of the domain. Constructors establish it, and it is the
    /// only assumption under which disjointness is promised. For domains
    /// that are disjoint by construction it is simply `true`.
    spec fn inv(&self) -> bool;

    /// Looking up two distinct logical positions never yields the same
    /// underlying index. Implementors must prove this once; afterwards it
    /// is carried by the domain and never re-checked at access time.
    proof fn lemma_indices_disjoint(&self)
        requires
            self.inv(),
        ensures
            self.index_seq().no_duplicates(),
    ;

    /// Produces a duplicate domain that enumerates the same indices, so
    /// that the two halves of a split producer can each carry one.
    fn clone_indices(&self) -> (r: Self)
        ensures
            r.index_seq() == self.index_seq(),
            self.inv() ==> r.inv(),
    ;

    /// The number of enumerated indices.
    fn num_indices(&self) -> (r: usize)
        ensures
            r == self.index_seq().len(),
    ;

    /// The index at logical position `i`, without a runtime bounds check:
    /// the bound is discharged statically by the caller.
    fn get_unchecked(&self, i: usize) -> (r: usize)
        requires
            i < self.index_seq().len(),
        ensures
            r == self.index_seq()[i as int],
    ;
}

/// A contiguous range enumerates `start, start + 1, ..., end - 1`:
/// disjointness and order are structural, no validation is needed.
impl DisjointIndices for Range<usize> {
    open spec fn index_seq(&self) -> Seq<usize> {
        if self.start <= self.end {
            Seq::new((self.end - self.start) as nat, |i: int| (self.start + i) as usize)
        } else {
            Seq::empty()
        }
    }

    open spec fn inv(&self) -> bool {
        true
    }

    proof fn lemma_indices_disjoint(&self) {
        if self.start <= self.end {
            assert forall|i: int, j: int|
                0 <= i < self.index_seq().len() && 0 <= j < self.index_seq().len() && i != j
                    implies self.index_seq()[i] != self.index_seq()[j] by {
                assert(self.index_seq()[i] == self.start + i);
                assert(self.index_seq()[j] == self.start + j);
            }
        }
    }

    fn clone_indices(&self) -> (r: Self) {
        self.start..self.end
    }

    fn num_indices(&self) -> (r: usize) {
        self.end.saturating_sub(self.start)
    }

    fn get_unchecked(&self, i: usize) -> (r: usize) {
        self.start + i
    }
}

/// A division of a collection's indices into several disjoint groups, so
/// that each group can be handed to a worker of its own. No two subsets
/// share an index, and within one subset no index repeats.
pub trait DisjointIndexSubsets {
    type IndexSubset: DisjointIndices;

    /// The indices of subset number `subset_index`, in order.
    spec fn subset_seq(&self, subset_index: int) -> Seq<usize>;

    /// The number of subsets, as a specification-level count.
    spec fn subset_count(&self) -> nat;

    /// Indices never repeat, neither within one subset nor across two.
    proof fn lemma_subsets_disjoint(&self, i: int, j: int)
        requires
            0 <= i < self.subset_count(),
            0 <= j < self.subset_count(),
        ensures
            self.subset_seq(i).no_duplicates(),
            i != j ==> self.subset_seq(i).to_set().disjoint(self.subset_seq(j).to_set()),
    ;

    fn num_subsets(&self) -> (r: usize)
        ensures
            r == self.subset_count(),
    ;

    fn subset_len(&self, subset_index: usize) -> (r: usize)
        requires
            subset_index < self.subset_count(),
        ensures
            r == self.subset_seq(subset_index as int).len(),
    ;

    fn get_subset(&self, subset_index: usize) -> (r: Self::IndexSubset)
        requires
            subset_index < self.subset_count(),
        ensures
            r.index_seq() == self.subset_seq(subset_index as int),
    ;
}

/// The failure reported when a permutation domain is built from a source
/// that repeats an index.
#[derive(Debug)]
pub struct NotDisjoint;

/// An arbitrary enumeration of indices, validated once at construction:
/// building it from a source with a repeated index fails with
/// [`NotDisjoint`], and on success the sequence is stored in its original
/// order and never re-checked.
#[derive(Debug, Clone)]
pub struct DisjointIndicesVec {
    indices: Vec<usize>,
}

impl DisjointIndicesVec {
    /// Builds a domain from a sequence of candidate indices. The result is
    /// all-or-nothing: it is `Ok` exactly when the source holds no
    /// duplicate, and the domain then enumerates the source's indices in
    /// their original order.
    pub fn try_from_index_iter(indices: Vec<usize>) -> (r: Result<Self, NotDisjoint>)
        ensures
            r is Ok <==> indices@.no_duplicates(),
            r matches Ok(d) ==> d.index_seq() == indices@ && d.inv(),
    {
        Self::try_from_index_iter_inner(indices)
    }

    /// The validation pass: a single sweep that tracks the indices seen so
    /// far in a hash set and stops at the first repetition.
    fn try_from_index_iter_inner(indices: Vec<usize>) -> (r: Result<Self, NotDisjoint>)
        ensures
            r is Ok <==> indices@.no_duplicates(),
            r matches Ok(d) ==> d.index_seq() == indices@ && d.inv(),
    {
        let mut visited_indices: HashSet<usize> = HashSet::new();
        let n: usize = indices.len();
        let mut k: usize = 0;
        while k < n
            invariant
                n == indices@.len(),
                k <= n,
                indices@.take(k as int).no_duplicates(),
                forall|m: int| 0 <= m < k ==> visited_indices@.contains(#[trigger] indices@[m]),
                forall|x: usize|
                    #[trigger] visited_indices@.contains(x) ==> exists|m: int|
                        0 <= m < k && indices@[m] == x,
            decreases n - k,
        {
            let idx: usize = indices[k];
            let ghost pre_visited = visited_indices@;
            if !visited_indices.insert(idx) {
                proof {
                    let m: int = choose|m: int| 0 <= m < k && indices@[m] == idx;
                    assert(indices@[m] == indices@[k as int]);
                }
                return Err(NotDisjoint);
            }
            proof {
                assert forall|i: int, j: int|
                    #![trigger indices@.take(k + 1)[i], indices@.take(k + 1)[j]]
                    0 <= i < k + 1 && 0 <= j < k + 1 && i != j implies indices@.take(k + 1)[i]
                    != indices@.take(k + 1)[j] by {
                    if i == k as int || j == k as int {
                        let other: int = if i == k as int {
                            j
                        } else {
                            i
                        };
                        assert(pre_visited.contains(indices@[other]));
                    } else {
                        assert(indices@.take(k as int)[i] == indices@[i]);
                        assert(indices@.take(k as int)[j] == indices@[j]);
                    }
                }
            }
            k += 1;
        }
        proof {
            assert(indices@.take(n as int) =~= indices@);
        }
        Ok(DisjointIndicesVec { indices })
    }
}

impl DisjointIndices for DisjointIndicesVec {
    closed spec fn index_seq(&self) -> Seq<usize> {
        self.indices@
    }

    closed spec fn inv(&self) -> bool {
        self.indices@.no_duplicates()
    }

    proof fn lemma_indices_disjoint(&self) {
    }

    fn clone_indices(&self) -> (r: Self) {
        let mut indices: Vec<usize> = Vec::with_capacity(self.indices.len());
        let mut i: usize = 0;
        while i < self.indices.len()
            invariant
                i <= self.indices@.len(),
                indices@ == self.indices@.take(i as int),
            decreases self.indices@.len() - i,
        {
            indices.push(self.indices[i]);
            proof {
                assert(indices@ =~= self.indices@.take(i + 1));
            }
            i += 1;
        }
        proof {
            assert(indices@ =~= self.indices@);
        }
        DisjointIndicesVec { indices }
    }

    fn num_indices(&self) -> (r: usize) {
        self.indices.len()
    }

    fn get_unchecked(&self, i: usize) -> (r: usize) {
        self.indices[i]
    }
}

} // verus!
