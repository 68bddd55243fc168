//! The access-capability traits: unsynchronized indexed access to the
//! records of a collection.

use vstd::prelude::*;

verus! {

/// A capability granting indexed access to the records of a collection.
///
/// The capability is deliberately free of any per-record bookkeeping: it
/// is a pair of (storage, record count), and every operation is specified
/// against [`UnsyncAccess::contents`], the mathematical sequence of
/// records reachable through the capability.
///
/// Safety contract for implementors and callers: concurrent immutable
/// access to the same record is sound; concurrent mutable access is sound
/// only if the records touched are pairwise distinct across all
/// simultaneously live mutable handles, and no record is held both mutably
/// and immutably at once; a single thread must never hold two live handles
/// to the same record if either is mutable. Here that discipline is not
/// left to the caller's care: every access goes through a contract that
/// pins down which record is read or written, and disjointness of index
/// domains is established at construction time (see
/// [`crate::DisjointIndices`]).
pub trait UnsyncAccess: Sized + Sync + Send {
    /// The type of the records reached through the capability.
    type Record;

    /// The records reachable through this capability, in index order.
    spec fn contents(&self) -> Seq<Self::Record>;

    /// Produces a congruent handle: one that reaches the same records.
    fn clone_access(&self) -> (r: Self)
        ensures
            r.contents() == self.contents(),
    ;

    /// Determine if the provided index is in bounds.
    fn in_bounds(&self, index: usize) -> (r: bool)
        ensures
            r <==> index < self.contents().len(),
    ;

    /// Unsynchronized immutable lookup of a record, without a runtime
    /// bounds check: the bound is discharged statically by the caller.
    fn get_unsync_unchecked(&self, index: usize) -> (r: &Self::Record)
        requires
            index < self.contents().len(),
        ensures
            *r == self.contents()[index as int],
    ;

    /// Unsynchronized mutable lookup of a record, without a runtime bounds
    /// check: the bound is discharged statically by the caller.
    fn get_unsync_unchecked_mut(&mut self, index: usize) -> (r: &mut Self::Record)
        requires
            index < old(self).contents().len(),
        ensures
            *r == old(self).contents()[index as int],
            final(self).contents() == old(self).contents().update(
                index as int,
                *final(r),
            ),
    ;

    /// Unsynchronized immutable lookup of a record. The index must be in
    /// bounds; an out-of-bounds index is a defect in the caller, not a
    /// recoverable condition, so no soft error is offered.
    fn get_unsync(&self, index: usize) -> (r: &Self::Record)
        requires
            index < self.contents().len(),
        ensures
            *r == self.contents()[index as int],
    {
        self.get_unsync_unchecked(index)
    }

    /// Unsynchronized mutable lookup of a record. Writing through the
    /// returned reference updates exactly the record at `index` and no
    /// other.
    fn get_unsync_mut(&mut self, index: usize) -> (r: &mut Self::Record)
        requires
            index < old(self).contents().len(),
        ensures
            *r == old(self).contents()[index as int],
            final(self).contents() == old(self).contents().update(
                index as int,
                *final(r),
            ),
    {
        self.get_unsync_unchecked_mut(index)
    }
}

/// One write through a capability: the record at position `w.0` is
/// replaced by `w.1`. A write outside the bounds of the contents leaves
/// them unchanged.
pub open spec fn write_one<T>(s: Seq<T>, w: (usize, T)) -> Seq<T> {
    if w.0 < s.len() {
        s.update(w.0 as int, w.1)
    } else {
        s
    }
}

/// A batch of writes through one capability handle, applied in order.
pub open spec fn write_all<T>(s: Seq<T>, writes: Seq<(usize, T)>) -> Seq<T>
    decreases writes.len(),
{
    if writes.len() == 0 {
        s
    } else {
        write_all(write_one(s, writes[0]), writes.drop_first())
    }
}

/// Whether two batches of writes touch pairwise distinct positions.
pub open spec fn writes_disjoint<T>(a: Seq<(usize, T)>, b: Seq<(usize, T)>) -> bool {
    forall|i: int, j: int|
        0 <= i < a.len() && 0 <= j < b.len() ==> (#[trigger] a[i]).0 != (#[trigger] b[j]).0
}

/// Applying a batch of writes never changes the record count.
pub proof fn lemma_write_all_len<T>(s: Seq<T>, writes: Seq<(usize, T)>)
    ensures
        write_all(s, writes).len() == s.len(),
    decreases writes.len(),
{
    if writes.len() > 0 {
        lemma_write_all_len(write_one(s, writes[0]), writes.drop_first());
    }
}

/// A single write commutes with a whole batch that avoids its position.
proof fn lemma_write_one_all_commute<T>(s: Seq<T>, w: (usize, T), writes: Seq<(usize, T)>)
    requires
        forall|i: int| 0 <= i < writes.len() ==> (#[trigger] writes[i]).0 != w.0,
    ensures
        write_all(write_one(s, w), writes) == write_one(write_all(s, writes), w),
    decreases writes.len(),
{
    if writes.len() > 0 {
        assert(write_one(write_one(s, w), writes[0]) =~= write_one(
            write_one(s, writes[0]),
            w,
        ));
        lemma_write_one_all_commute(write_one(s, writes[0]), w, writes.drop_first());
    }
}

/// The law licensing a capability's use across workers: mutating the
/// records at one set of positions through a capability and the records
/// at a disjoint set of positions through a congruent clone of it yields
/// the same final contents whichever of the two batches is applied first,
/// so the outcome of a concurrent run is the outcome of either sequential
/// order.
pub proof fn lemma_disjoint_write_sets_commute<T>(
    s: Seq<T>,
    a: Seq<(usize, T)>,
    b: Seq<(usize, T)>,
)
    requires
        writes_disjoint(a, b),
    ensures
        write_all(write_all(s, a), b) == write_all(write_all(s, b), a),
    decreases b.len(),
{
    if b.len() > 0 {
        let w = b[0];
        assert(forall|i: int| 0 <= i < a.len() ==> (#[trigger] a[i]).0 != w.0);
        lemma_write_one_all_commute(s, w, a);
        lemma_disjoint_write_sets_commute(write_one(s, w), a, b.drop_first());
        assert(write_all(write_all(s, b), a) == write_all(
            write_all(write_one(s, w), b.drop_first()),
            a,
        ));
    }
}

/// Conversion of a collection into an access capability over its records.
pub trait IntoUnsyncAccess: Sized {
    type Access: UnsyncAccess;

    /// The records the resulting capability will reach.
    spec fn access_contents(&self) -> Seq<<Self::Access as UnsyncAccess>::Record>;

    fn into_unsync_access(self) -> (r: Self::Access)
        ensures
            r.contents() == self.access_contents(),
    ;
}

} // verus!
