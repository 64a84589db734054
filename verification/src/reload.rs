//! Reloading a resource: a fresh value replaces the old one only when it
//! could be made; otherwise the old one stays and the error is handed on.

use vstd::prelude::*;

verus! {

/// Puts the freshly made value into `slot` when `outcome` holds one, and
/// hands on the error, leaving `slot` unchanged, when it does not.
pub fn replace_on_success<T, E>(slot: &mut T, outcome: Result<T, E>) -> (r: Result<(), E>)
    ensures
        match outcome {
            Ok(v) => *final(slot) == v && r is Ok,
            Err(e) => *final(slot) == *old(slot) && r == Err::<(), E>(e),
        },
{
    match outcome {
        Ok(v) => {
            *slot = v;
            Ok(())
        },
        Err(e) => Err(e),
    }
}

} // verus!
