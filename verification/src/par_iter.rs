//! The splittable parallel producer, and the bridge a divide-and-conquer
//! engine drives: report a length, split at an offset into two independent
//! halves, pull one record at a time from either end.

use vstd::prelude::*;

use crate::access::IntoUnsyncAccess;
use crate::access::UnsyncAccess;
use crate::indices::DisjointIndices;

verus! {

/// A parallel iteration over the records a capability reaches, restricted
/// to a disjoint index domain.
#[derive(Debug)]
pub struct UnsyncAccessParIter<Access, Indices> {
    access: Access,
    indices: Indices,
}

/// A splittable cursor over a window of logical positions into a domain,
/// paired with a capability handle of its own.
///
/// The window `[window_start, window_end)` is half-open over logical
/// positions; producing maps a position through the domain to an
/// underlying index and yields the record there. Splitting partitions the
/// window into two disjoint sub-windows, each paired with a congruent
/// capability handle, so the two halves may be driven independently.
pub struct AccessProducerMut<Access, Indices> {
    access: Access,
    indices: Indices,
    start_idx: usize,
    end_idx: usize,
}

impl<Access: UnsyncAccess, Indices: DisjointIndices> AccessProducerMut<Access, Indices> {
    /// The records of this producer's capability handle.
    pub closed spec fn access_contents(&self) -> Seq<Access::Record> {
        self.access.contents()
    }

    /// The full index domain the window points into.
    pub closed spec fn domain_seq(&self) -> Seq<usize> {
        self.indices.index_seq()
    }

    /// Validity of the domain.
    pub closed spec fn domain_inv(&self) -> bool {
        self.indices.inv()
    }

    /// The front of the window: the next logical position produced.
    pub closed spec fn window_start(&self) -> int {
        self.start_idx as int
    }

    /// Just past the back of the window.
    pub closed spec fn window_end(&self) -> int {
        self.end_idx as int
    }

    /// The underlying indices this producer has still to visit, in
    /// front-to-back order.
    pub open spec fn remaining_indices(&self) -> Seq<usize> {
        self.domain_seq().subrange(self.window_start(), self.window_end())
    }

    /// A well-formed producer: a valid domain, a window within it, and
    /// every enumerated index within the capability's bounds.
    pub open spec fn wf(&self) -> bool {
        &&& self.domain_inv()
        &&& 0 <= self.window_start() <= self.window_end() <= self.domain_seq().len()
        &&& forall|k: int|
            0 <= k < self.domain_seq().len() ==> (#[trigger] self.domain_seq()[k])
                < self.access_contents().len()
    }

    /// Produces the record at the front of the window: the front position
    /// is mapped through the domain and the record at the resulting index
    /// is yielded mutably; the front then advances by one. Yields nothing
    /// exactly when the window is exhausted.
    pub fn next(&mut self) -> (r: Option<&mut Access::Record>)
        requires
            old(self).wf(),
        ensures
            final(self).domain_seq() == old(self).domain_seq(),
            final(self).domain_inv() == old(self).domain_inv(),
            final(self).window_end() == old(self).window_end(),
            old(self).window_start() == old(self).window_end() ==> r is None && *final(self)
                == *old(self),
            old(self).window_start() < old(self).window_end() ==> (r matches Some(m) && {
                let pos = old(self).domain_seq()[old(self).window_start()] as int;
                &&& final(self).window_start() == old(self).window_start() + 1
                &&& *m == old(self).access_contents()[pos]
                &&& final(self).access_contents() == old(self).access_contents().update(
                    pos,
                    *final(m),
                )
            }),
    {
        if self.start_idx < self.end_idx {
            let index = self.indices.get_unchecked(self.start_idx);
            self.start_idx += 1;
            Some(self.access.get_unsync_mut(index))
        } else {
            None
        }
    }

    /// Produces the record at the back of the window, moving the back
    /// backward by one: the counterpart of [`AccessProducerMut::next`] for
    /// engines that consume from both ends.
    pub fn next_back(&mut self) -> (r: Option<&mut Access::Record>)
        requires
            old(self).wf(),
        ensures
            final(self).domain_seq() == old(self).domain_seq(),
            final(self).domain_inv() == old(self).domain_inv(),
            final(self).window_start() == old(self).window_start(),
            old(self).window_start() == old(self).window_end() ==> r is None && *final(self)
                == *old(self),
            old(self).window_start() < old(self).window_end() ==> (r matches Some(m) && {
                let pos = old(self).domain_seq()[old(self).window_end() - 1] as int;
                &&& final(self).window_end() == old(self).window_end() - 1
                &&& *m == old(self).access_contents()[pos]
                &&& final(self).access_contents() == old(self).access_contents().update(
                    pos,
                    *final(m),
                )
            }),
    {
        if self.end_idx > self.start_idx {
            self.end_idx -= 1;
            let index = self.indices.get_unchecked(self.end_idx);
            Some(self.access.get_unsync_mut(index))
        } else {
            None
        }
    }

    /// The producer is itself the cursor that yields its records one at a
    /// time.
    pub fn into_iter(self) -> (r: Self)
        ensures
            r == self,
    {
        AccessProducerMut {
            access: self.access,
            indices: self.indices,
            start_idx: self.start_idx,
            end_idx: self.end_idx,
        }
    }

    /// Within one well-formed producer's window, two distinct logical
    /// positions never map to the same underlying index: the producer
    /// hands out each of its records at most once.
    pub proof fn lemma_window_indices_disjoint(&self)
        requires
            self.wf(),
        ensures
            self.remaining_indices().no_duplicates(),
    {
        self.indices.lemma_indices_disjoint();
        assert forall|i: int, j: int|
            #![trigger self.remaining_indices()[i], self.remaining_indices()[j]]
            0 <= i < self.remaining_indices().len() && 0 <= j < self.remaining_indices().len()
                && i != j implies self.remaining_indices()[i]
            != self.remaining_indices()[j] by {
            assert(self.remaining_indices()[i] == self.domain_seq()[self.window_start() + i]);
            assert(self.remaining_indices()[j] == self.domain_seq()[self.window_start() + j]);
        }
    }

    /// The soundness of a split: two producers over the same domain whose
    /// windows do not overlap — as the two halves of any split, however
    /// deep the splitting — reach pairwise distinct underlying indices, so
    /// driving them concurrently mutates pairwise distinct records.
    pub proof fn lemma_disjoint_windows_reach_disjoint_indices(&self, other: &Self)
        requires
            self.wf(),
            other.wf(),
            self.domain_seq() == other.domain_seq(),
            self.window_end() <= other.window_start() || other.window_end()
                <= self.window_start(),
        ensures
            forall|i: int, j: int|
                0 <= i < self.remaining_indices().len() && 0 <= j
                    < other.remaining_indices().len() ==> (#[trigger] self.remaining_indices()[i])
                    != (#[trigger] other.remaining_indices()[j]),
    {
        self.indices.lemma_indices_disjoint();
        assert forall|i: int, j: int|
            0 <= i < self.remaining_indices().len() && 0 <= j < other.remaining_indices().len()
                implies (#[trigger] self.remaining_indices()[i])
            != (#[trigger] other.remaining_indices()[j]) by {
            assert(self.remaining_indices()[i] == self.domain_seq()[self.window_start() + i]);
            assert(other.remaining_indices()[j] == other.domain_seq()[other.window_start() + j]);
        }
    }

    /// Ends the producer's life — typically once its window is exhausted —
    /// and hands back its capability handle and domain, with whatever
    /// records the producer wrote.
    pub fn into_parts(self) -> (r: (Access, Indices))
        ensures
            r.0.contents() == self.access_contents(),
            r.1.index_seq() == self.domain_seq(),
            r.1.inv() == self.domain_inv(),
    {
        (self.access, self.indices)
    }

    /// Splits the window at offset `index`, yielding a left half over
    /// positions `[window_start, window_start + index)` and a right half
    /// over `[window_start + index, window_end)`. Each half carries a
    /// congruent capability handle of its own; their combined production
    /// sequence, left then right, equals the unsplit producer's.
    pub fn split_at(self, index: usize) -> (r: (Self, Self))
        requires
            self.wf(),
            0 < index < self.window_end() - self.window_start(),
        ensures
            r.0.wf(),
            r.1.wf(),
            r.0.access_contents() == self.access_contents(),
            r.1.access_contents() == self.access_contents(),
            r.0.domain_seq() == self.domain_seq(),
            r.1.domain_seq() == self.domain_seq(),
            r.0.window_start() == self.window_start(),
            r.0.window_end() == self.window_start() + index,
            r.1.window_start() == self.window_start() + index,
            r.1.window_end() == self.window_end(),
            r.0.remaining_indices() + r.1.remaining_indices() == self.remaining_indices(),
    {
        let left = AccessProducerMut {
            access: self.access.clone_access(),
            indices: self.indices.clone_indices(),
            start_idx: self.start_idx,
            end_idx: self.start_idx + index,
        };
        let right = AccessProducerMut {
            access: self.access,
            indices: self.indices,
            start_idx: left.end_idx,
            end_idx: self.end_idx,
        };
        proof {
            assert(left.remaining_indices() + right.remaining_indices()
                =~= self.remaining_indices());
        }
        (left, right)
    }
}

impl<Access: UnsyncAccess, Indices: DisjointIndices> UnsyncAccessParIter<Access, Indices> {
    /// The records of the underlying capability.
    pub closed spec fn access_contents(&self) -> Seq<Access::Record> {
        self.access.contents()
    }

    /// The index domain the iteration will visit.
    pub closed spec fn domain_seq(&self) -> Seq<usize> {
        self.indices.index_seq()
    }

    /// Validity of the domain.
    pub closed spec fn domain_inv(&self) -> bool {
        self.indices.inv()
    }

    /// A well-formed iteration: a valid domain, every enumerated index
    /// within the capability's bounds.
    pub open spec fn wf(&self) -> bool {
        &&& self.domain_inv()
        &&& forall|k: int|
            0 <= k < self.domain_seq().len() ==> (#[trigger] self.domain_seq()[k])
                < self.access_contents().len()
    }

    /// Combines a convertible collection and a disjoint index domain into
    /// a parallel iteration over the domain's records.
    pub fn from_access_and_indices<IA: IntoUnsyncAccess<Access = Access>>(
        into_access: IA,
        indices: Indices,
    ) -> (r: Self)
        ensures
            r.access_contents() == into_access.access_contents(),
            r.domain_seq() == indices.index_seq(),
            r.domain_inv() == indices.inv(),
    {
        let access = into_access.into_unsync_access();
        UnsyncAccessParIter { access, indices }
    }

    /// The number of records the iteration will visit, so that an engine
    /// can decide whether to split further or execute sequentially.
    pub fn len(&self) -> (r: usize)
        ensures
            r == self.domain_seq().len(),
    {
        self.indices.num_indices()
    }

    /// The exact remaining length, always known for this producer shape.
    pub fn opt_len(&self) -> (r: Option<usize>)
        ensures
            r matches Some(n) && n == self.domain_seq().len(),
    {
        Some(self.indices.num_indices())
    }

    /// Hands a freshly constructed producer covering the whole domain to
    /// the callback: the handoff shape a divide-and-conquer engine
    /// expects.
    pub fn with_producer<R, CB: FnOnce(AccessProducerMut<Access, Indices>) -> R>(
        self,
        callback: CB,
    ) -> (r: R)
        requires
            forall|p: AccessProducerMut<Access, Indices>|
                (p.access_contents() == self.access_contents() && p.domain_seq()
                    == self.domain_seq() && p.domain_inv() == self.domain_inv()
                    && p.window_start() == 0 && p.window_end() == self.domain_seq().len())
                    ==> #[trigger] call_requires(callback, (p,)),
        ensures
            exists|p: AccessProducerMut<Access, Indices>|
                (p.access_contents() == self.access_contents() && p.domain_seq()
                    == self.domain_seq() && p.domain_inv() == self.domain_inv()
                    && p.window_start() == 0 && p.window_end() == self.domain_seq().len())
                    && #[trigger] call_ensures(callback, (p,), r),
    {
        let end_idx = self.indices.num_indices();
        let producer = AccessProducerMut {
            access: self.access,
            indices: self.indices,
            start_idx: 0,
            end_idx,
        };
        callback(producer)
    }

    /// Performs the fork-join execution an external engine would drive:
    /// the whole domain is covered by one producer, whose window is split
    /// recursively down to single positions, and `op` is applied to the
    /// record at each of them. Every enumerated index is visited exactly
    /// once: its record is replaced by an application of `op` to the
    /// record's value from before the whole execution — however the
    /// splitting fell out — and records outside the domain are untouched.
    pub fn drive<F: Fn(&Access::Record) -> Access::Record>(self, op: &F) -> (r: Access)
        requires
            self.wf(),
            forall|v: Access::Record| #[trigger] call_requires(*op, (&v,)),
        ensures
            r.contents().len() == self.access_contents().len(),
            forall|j: usize|
                j < r.contents().len() && !self.domain_seq().contains(j)
                    ==> r.contents()[j as int] == #[trigger] self.access_contents()[j as int],
            forall|k: int|
                0 <= k < self.domain_seq().len() ==> call_ensures(
                    *op,
                    (&self.access_contents()[(#[trigger] self.domain_seq()[k]) as int],),
                    r.contents()[self.domain_seq()[k] as int],
                ),
    {
        let end_idx = self.indices.num_indices();
        let producer = AccessProducerMut {
            access: self.access,
            indices: self.indices,
            start_idx: 0,
            end_idx,
        };
        let (access, _indices) = run_split(producer, op);
        proof {
            assert forall|j: usize|
                j < access.contents().len() && !self.domain_seq().contains(j)
                    implies access.contents()[j as int] == self.access_contents()[j as int] by {
                if touched(producer.domain_seq(), 0, end_idx as int, j) {
                    let m = choose|m: int|
                        0 <= m < end_idx && producer.domain_seq()[m] == j;
                    assert(self.domain_seq()[m] == j);
                    assert(self.domain_seq().contains(j));
                }
            }
        }
        access
    }
}

/// Whether some logical position in `[lo, hi)` of `domain` maps to the
/// underlying index `j`.
spec fn touched(domain: Seq<usize>, lo: int, hi: int, j: usize) -> bool {
    exists|m: int| lo <= m < hi && domain[m] == j
}

/// The sequential stand-in for a work-stealing scheduler: splits the
/// producer's window by bisection down to single positions, applies `op`
/// at each of them, and joins the halves' capability handles back
/// together.
fn run_split<Access, Indices, F>(p: AccessProducerMut<Access, Indices>, op: &F) -> (r: (
    Access,
    Indices,
))
    where
        Access: UnsyncAccess,
        Indices: DisjointIndices,
        F: Fn(&Access::Record) -> Access::Record,
    requires
        p.wf(),
        forall|v: Access::Record| #[trigger] call_requires(*op, (&v,)),
    ensures
        r.1.index_seq() == p.domain_seq(),
        r.1.inv() == p.domain_inv(),
        r.0.contents().len() == p.access_contents().len(),
        forall|j: usize|
            j < p.access_contents().len() && !touched(
                p.domain_seq(),
                p.window_start(),
                p.window_end(),
                j,
            ) ==> r.0.contents()[j as int] == #[trigger] p.access_contents()[j as int],
        forall|k: int|
            p.window_start() <= k < p.window_end() ==> call_ensures(
                *op,
                (&p.access_contents()[(#[trigger] p.domain_seq()[k]) as int],),
                r.0.contents()[p.domain_seq()[k] as int],
            ),
    decreases p.window_end() - p.window_start(),
{
    let len = p.end_idx - p.start_idx;
    if len == 0 {
        (p.access, p.indices)
    } else if len == 1 {
        let idx = p.indices.get_unchecked(p.start_idx);
        let mut access = p.access;
        let newv = op(access.get_unsync(idx));
        let m = access.get_unsync_mut(idx);
        *m = newv;
        (access, p.indices)
    } else {
        let mid = len / 2;
        let start = p.start_idx;
        let end = p.end_idx;
        let (left, right) = p.split_at(mid);
        let (mut al, il) = run_split(left, op);
        let (mut ar, _ir) = run_split(right, op);
        let ghost al0 = al.contents();
        let ghost ar0 = ar.contents();
        let ghost domain = p.domain_seq();
        proof {
            il.lemma_indices_disjoint();
        }
        let boundary = start + mid;
        let mut k = boundary;
        while k < end
            invariant
                boundary <= k <= end,
                boundary == start + mid,
                il.index_seq() == domain,
                il.inv(),
                domain.no_duplicates(),
                end <= domain.len(),
                al.contents().len() == al0.len(),
                ar.contents().len() == ar0.len(),
                al0.len() == ar0.len(),
                forall|i: int|
                    0 <= i < domain.len() ==> (#[trigger] domain[i]) < al0.len(),
                forall|m: int|
                    boundary <= m < k ==> al.contents()[(#[trigger] domain[m]) as int]
                        == ar0[domain[m] as int],
                forall|j: usize|
                    j < al0.len() && !touched(domain, boundary as int, k as int, j)
                        ==> al.contents()[j as int] == #[trigger] al0[j as int],
                forall|j: usize|
                    j < ar0.len() && !touched(domain, boundary as int, k as int, j)
                        ==> ar.contents()[j as int] == #[trigger] ar0[j as int],
            decreases end - k,
        {
            let idx = il.get_unchecked(k);
            proof {
                assert(!touched(domain, boundary as int, k as int, idx));
            }
            core::mem::swap(al.get_unsync_mut(idx), ar.get_unsync_mut(idx));
            k += 1;
        }
        proof {
            assert forall|j: usize|
                j < p.access_contents().len() && !touched(
                    domain,
                    p.window_start(),
                    p.window_end(),
                    j,
                ) implies al.contents()[j as int] == p.access_contents()[j as int] by {
                assert(!touched(domain, start as int, boundary as int, j));
                assert(!touched(domain, boundary as int, end as int, j));
            }
            assert forall|m: int| p.window_start() <= m < p.window_end() implies call_ensures(
                *op,
                (&p.access_contents()[domain[m] as int],),
                al.contents()[domain[m] as int],
            ) by {
                if m < boundary {
                    assert(!touched(domain, boundary as int, end as int, domain[m]));
                    assert(al.contents()[domain[m] as int] == al0[domain[m] as int]);
                } else {
                    assert(al.contents()[domain[m] as int] == ar0[domain[m] as int]);
                }
            }
        }
        (al, il)
    }
}

/// Combines a convertible collection and a disjoint index domain into a
/// parallel iteration over the domain's records.
pub fn disjoint_indices_par_iter<Access, Indices, IA>(access: IA, indices: Indices) -> (r:
    UnsyncAccessParIter<Access, Indices>)
    where
        Access: UnsyncAccess,
        Indices: DisjointIndices,
        IA: IntoUnsyncAccess<Access = Access>,
    ensures
        r.access_contents() == access.access_contents(),
        r.domain_seq() == indices.index_seq(),
        r.domain_inv() == indices.inv(),
{
    UnsyncAccessParIter::from_access_and_indices(access, indices)
}

} // verus!
