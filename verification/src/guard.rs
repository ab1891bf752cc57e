use vstd::prelude::*;

use crate::error::ApiError;

verus! {

/// Argument guard: every batched endpoint rejects a request whose
/// cardinality exceeds the configured maximum, before any subsystem is
/// contacted.  Callers invoke this on the raw input list, ahead of any
/// collaborator call.
pub fn check_batch_size(n: usize, max_arguments: u64) -> (r: Result<(), ApiError>)
    ensures
        r is Ok <==> n as u64 <= max_arguments,
        r is Err ==> r == Err::<(), ApiError>(ApiError::TooManyArguments),
{
    if n as u64 > max_arguments {
        Err(ApiError::TooManyArguments)
    } else {
        Ok(())
    }
}

} // verus!
