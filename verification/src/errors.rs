//! The library's error representation for failed session-client calls.

use vstd::prelude::*;

verus! {

/// A session-client failure, reduced to the textual description the client
/// library gave for it.  The supervisor only ever inspects whether a call
/// failed, so the description is carried for logging alone.
pub struct ClientError {
    pub detail: String,
}

/// Wrap a client failure's description into the library's error type.
pub fn map_client_error(detail: String) -> (e: ClientError)
    ensures
        e.detail@ == detail@,
{
    ClientError { detail }
}

} // verus!
