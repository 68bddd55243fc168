//! The reference access capability: a contiguous sequence of records.

use vstd::prelude::*;

use crate::access::IntoUnsyncAccess;
use crate::access::UnsyncAccess;

verus! {

/// An access capability over a contiguous sequence of records.
///
/// This is the reference implementation that new collection types should
/// imitate: the capability is (storage, record count), record lookup is
/// plain indexing, and a congruent handle is produced by copying the
/// scalar description of the storage. Any container whose records can be
/// reached by an index-computation rule can implement the same capability
/// by substituting its own offset formula.
#[derive(Debug)]
pub struct UnsyncSliceAccess<T> {
    data: Vec<T>,
}

impl<T: Copy + Sync + Send> UnsyncAccess for UnsyncSliceAccess<T> {
    type Record = T;

    closed spec fn contents(&self) -> Seq<T> {
        self.data@
    }

    fn clone_access(&self) -> (r: Self) {
        let mut data: Vec<T> = Vec::with_capacity(self.data.len());
        let mut i: usize = 0;
        while i < self.data.len()
            invariant
                i <= self.data@.len(),
                data@ == self.data@.take(i as int),
            decreases self.data@.len() - i,
        {
            data.push(self.data[i]);
            proof {
                assert(data@ =~= self.data@.take(i + 1));
            }
            i += 1;
        }
        proof {
            assert(data@ =~= self.data@);
        }
        UnsyncSliceAccess { data }
    }

    fn in_bounds(&self, index: usize) -> (r: bool) {
        index < self.data.len()
    }

    fn get_unsync_unchecked(&self, index: usize) -> (r: &T) {
        &self.data[index]
    }

    fn get_unsync_unchecked_mut(&mut self, index: usize) -> (r: &mut T) {
        &mut self.data[index]
    }
}

impl<T: Copy + Sync + Send> UnsyncSliceAccess<T> {
    /// The record count, as a convenience beside
    /// [`UnsyncAccess::in_bounds`].
    pub fn len(&self) -> (r: usize)
        ensures
            r == self.contents().len(),
    {
        self.data.len()
    }

    /// Ends the capability's life and hands the records back to their
    /// owner.
    pub fn into_inner(self) -> (r: Vec<T>)
        ensures
            r@ == self.contents(),
    {
        self.data
    }
}

/// An access capability is trivially convertible into itself, so that a
/// capability obtained earlier can be handed to anything that asks for a
/// convertible collection.
impl<T: Copy + Sync + Send> IntoUnsyncAccess for UnsyncSliceAccess<T> {
    type Access = Self;

    open spec fn access_contents(&self) -> Seq<T> {
        self.contents()
    }

    fn into_unsync_access(self) -> (r: Self::Access) {
        self
    }
}

impl<T: Copy + Sync + Send> IntoUnsyncAccess for Vec<T> {
    type Access = UnsyncSliceAccess<T>;

    open spec fn access_contents(&self) -> Seq<T> {
        self@
    }

    fn into_unsync_access(self) -> (r: Self::Access) {
        UnsyncSliceAccess { data: self }
    }
}

} // verus!
