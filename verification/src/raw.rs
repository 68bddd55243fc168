//! A standalone, length-based shape of the sequence capability, for
//! callers that drive raw indexed access directly rather than through the
//! capability trait.

use vstd::prelude::*;

verus! {

/// An access capability over a contiguous sequence of records, described
/// by its record count alone: the counterpart of
/// [`crate::UnsyncSliceAccess`] with `len` as the primary bounds contract
/// instead of `in_bounds`.
pub struct RawSliceAccess<T> {
    data: Vec<T>,
}

impl<T: Copy> RawSliceAccess<T> {
    /// The records reachable through this capability, in index order.
    pub closed spec fn contents(&self) -> Seq<T> {
        self.data@
    }

    /// Produces a congruent handle: one that reaches the same records.
    pub fn clone_access(&self) -> (r: Self)
        ensures
            r.contents() == self.contents(),
    {
        let mut data: Vec<T> = Vec::with_capacity(self.data.len());
        let mut i: usize = 0;
        while i < self.data.len()
            invariant
                i <= self.data@.len(),
                data@ == self.data@.take(i as int),
            decreases self.data@.len() - i,
        {
            data.push(self.data[i]);
            proof {
                assert(data@ =~= self.data@.take(i + 1));
            }
            i += 1;
        }
        proof {
            assert(data@ =~= self.data@);
        }
        RawSliceAccess { data }
    }

    /// Raw immutable lookup of the record at a global index.
    pub fn get_raw(&self, global_index: usize) -> (r: &T)
        requires
            global_index < self.contents().len(),
        ensures
            *r == self.contents()[global_index as int],
    {
        &self.data[global_index]
    }

    /// Raw mutable lookup of the record at a global index. Writing
    /// through the returned reference updates exactly that record.
    pub fn get_raw_mut(&mut self, global_index: usize) -> (r: &mut T)
        requires
            global_index < old(self).contents().len(),
        ensures
            *r == old(self).contents()[global_index as int],
            final(self).contents() == old(self).contents().update(
                global_index as int,
                *final(r),
            ),
    {
        &mut self.data[global_index]
    }

    /// The record count: an index is valid exactly when it is below it.
    pub fn len(&self) -> (r: usize)
        ensures
            r == self.contents().len(),
    {
        self.data.len()
    }

    /// Ends the capability's life and hands the records back to their
    /// owner.
    pub fn into_inner(self) -> (r: Vec<T>)
        ensures
            r@ == self.contents(),
    {
        self.data
    }
}

/// Converts an exclusively owned sequence into a raw indexed access
/// capability over its records.
pub fn into_raw_indexed_access<T: Copy>(data: Vec<T>) -> (r: RawSliceAccess<T>)
    ensures
        r.contents() == data@,
{
    RawSliceAccess { data }
}

} // verus!
