//! Rights, which say who may change what.

use vstd::prelude::*;

verus! {

/// A right to take one step. It is used up by the step.
///
/// There is no way to copy a right, and nothing is known of a new one. So whoever holds a right
/// that is known to be the one that a step asks for has been given just that right.
pub struct Right {
    identity: Ghost<int>,
}

impl Right {
    /// A right that has not been there before.
    pub(crate) fn new() -> Right {
        Right { identity: Ghost(arbitrary()) }
    }
}

/// The rights in one build: `rights[k]` is that of task `k` to fill its slot, `claim` is that of
/// the result to take the slots away, and `seal` marks the one ledger of the build.
pub struct Terms {
    pub seal: Right,
    pub rights: Seq<Right>,
    pub claim: Right,
}

} // verus!
