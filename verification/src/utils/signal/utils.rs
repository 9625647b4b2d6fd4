//! Shutdown queries without a signal handler.
use vstd::prelude::*;

verus! {

/// Without a handler there is no shutdown request to see: always `false`.
pub fn should_shutdown() -> (b: bool)
    ensures
        !b,
{
    false
}

} // verus!
