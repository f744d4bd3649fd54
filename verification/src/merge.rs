//! Merging of attributes.

use vstd::prelude::*;

verus! {

/// Trait for merging two attributes.
pub trait Merge: Sized {
    /// The value that merging `other` into `self` leaves.
    spec fn merged(self, other: Self) -> Self;

    /// Whether merging `other` into `self` is reported as a change.
    spec fn merge_changes(self, other: Self) -> bool;

    /// Merges `other` into `self` and answers whether that counts as a
    /// change.
    fn merge(&mut self, other: Self) -> (changed: bool)
        ensures
            *final(self) == old(self).merged(other),
            changed == old(self).merge_changes(other),
    ;
}

impl Merge for bool {
    open spec fn merged(self, other: bool) -> bool {
        self || other
    }

    open spec fn merge_changes(self, other: bool) -> bool {
        self != other
    }

    /// A flag that is set stays set. Two flags that differ are reported as
    /// a change.
    fn merge(&mut self, other: Self) -> (changed: bool) {
        if *self != other {
            *self = *self || other;
            true
        } else {
            false
        }
    }
}

} // verus!
