use vstd::prelude::*;

verus! {

/// The answer to a lock request.
#[derive(Debug, Clone, Copy, PartialEq, Eq, Structural)]
pub enum LockResult {
    Locked,
    LockFailed,
}

} // verus!
