//! Structural edits of the shared target store.
//!
//! The store itself is an ordered, index-addressed list of targets.
//! The process keeps it behind an exclusive lock and always copies it
//! out before matching; these functions are what the editing surface
//! performs on the locked list. Each edit must be followed by the
//! re-sync pulse ([`crate::send_resync`]) once the lock is released.

use vstd::prelude::*;
use vstd::pervasive::VecAdditionalExecFns;

use crate::target::Target;

verus! {

/// Appends a target at the end of the store.
pub fn insert_target(store: &mut Vec<Target>, t: Target)
    ensures
        final(store)@ == old(store)@.push(t),
{
    store.push(t);
}

/// Replaces the target at a position with an edited copy.
pub fn replace_at(store: &mut Vec<Target>, i: usize, t: Target)
    requires
        i < old(store)@.len(),
    ensures
        final(store)@ == old(store)@.update(i as int, t),
{
    store.set(i, t);
}

/// Removes and returns the target at a position.
pub fn remove_at(store: &mut Vec<Target>, i: usize) -> (removed: Target)
    requires
        i < old(store)@.len(),
    ensures
        final(store)@ == old(store)@.remove(i as int),
        removed == old(store)@[i as int],
{
    store.remove(i)
}

} // verus!
