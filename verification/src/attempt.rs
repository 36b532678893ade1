//! How long a connection is waited for.

use vstd::prelude::*;

verus! {

/// What follows an attempt that found no connection.
#[derive(Clone, Copy, Debug, PartialEq, Eq, Structural)]
pub enum Attempt {
    Retry,
    GiveUp,
}

/// Decides what follows an attempt that found no connection after `waited_millis` of at most
/// `limit_millis` milliseconds.
pub fn next_attempt(waited_millis: u64, limit_millis: u64) -> (next: Attempt)
    ensures
        next == (if waited_millis >= limit_millis {
            Attempt::GiveUp
        } else {
            Attempt::Retry
        }),
{
    if waited_millis >= limit_millis {
        Attempt::GiveUp
    } else {
        Attempt::Retry
    }
}

} // verus!
