//! Circuit relay bookkeeping and the combinator that lets several protocol
//! handlers share one connection.

pub mod address;
pub mod behaviour;
pub mod copy;
pub mod handler;
pub mod protocol;
pub mod request;
pub mod upgrade;

use vstd::prelude::*;

verus! {

/// Draws a number with `rand::random`, which takes it from the generator of
/// the calling thread. Nothing is claimed of the number drawn.
#[verifier::external_body]
pub(crate) fn random_u64() -> u64 {
    rand::random()
}

/// Identifies one exchange with a peer, so that what comes of the exchange
/// can be told to whoever began it.
#[derive(Debug, Copy, Clone, PartialEq, Eq, Hash, Structural)]
pub struct RequestId(u64);

impl View for RequestId {
    type V = u64;

    closed spec fn view(&self) -> u64 {
        self.0
    }
}

impl RequestId {
    /// A fresh identifier, drawn at random. Identifiers are not checked
    /// against those in use: two requests share one with negligible
    /// probability only.
    pub fn new() -> RequestId {
        RequestId(random_u64())
    }

    /// The identifier with the given number.
    pub fn from_u64(id: u64) -> (request: RequestId)
        ensures
            request@ == id,
    {
        RequestId(id)
    }

    /// The number that stands for this identifier.
    pub fn to_u64(self) -> (id: u64)
        ensures
            id == self@,
    {
        self.0
    }
}

/// A `usize` always fits a `u64`, so that lengths can be counted against
/// limits given in 64 bits.
pub proof fn lemma_usize_fits_u64(n: usize)
    ensures
        n <= u64::MAX,
{
}

} // verus!
