//! Torpedo fusing and the torpedoes kept from one frame to the next.

use vstd::prelude::*;

verus! {

/// Milliseconds a torpedo must have flown before its safety fuse arms it.
pub const FUSE_MS: u128 = 500;

/// A torpedo is armed once strictly more than the fuse time has passed
/// since it was fired.
pub open spec fn armed(age_ms: u128) -> bool {
    age_ms > FUSE_MS
}

/// Whether a torpedo fired `age_ms` milliseconds ago is armed.
pub fn is_armed(age_ms: u128) -> (result: bool)
    ensures
        result == armed(age_ms),
        result == (age_ms > 500),
{
    age_ms > FUSE_MS
}

/// The torpedoes carried into the next frame. Every torpedo is kept while
/// the reference position (player two's updated position) lies inside the
/// play field, and all are dropped when it lies outside; the caller passes
/// that test as `reference_in_field`.
pub fn surviving_torps<T: Copy>(torps: &Vec<T>, reference_in_field: bool) -> (kept: Vec<T>)
    ensures
        reference_in_field ==> kept@ == torps@,
        !reference_in_field ==> kept@ == Seq::<T>::empty(),
{
    let mut kept: Vec<T> = Vec::new();
    let mut idx: usize = 0;
    while idx < torps.len()
        invariant
            idx <= torps.len(),
            reference_in_field ==> kept@ == torps@.take(idx as int),
            !reference_in_field ==> kept@ == Seq::<T>::empty(),
        decreases torps.len() - idx,
    {
        if reference_in_field {
            kept.push(torps[idx]);
            proof {
                assert(torps@.take(idx as int).push(torps@[idx as int]) =~= torps@.take(idx + 1));
            }
        }
        idx = idx + 1;
    }
    proof {
        assert(torps@.take(torps@.len() as int) =~= torps@);
    }
    kept
}


/// The fuse is a single threshold: a torpedo is armed exactly when more than
/// 500 ms have passed since it was fired, so once armed it stays armed.
pub proof fn lemma_fuse_is_threshold(age: u128, later: u128)
    ensures
        armed(age) <==> age > 500,
        age <= later && armed(age) ==> armed(later),
        !armed(0),
        armed(501),
{
}

} // verus!
