use vstd::prelude::*;

verus! {

/// An address is the ordinal of one of the statically declared addresses:
/// `0..n` for a postmaster made for `n` addresses.
pub type Address = usize;

/// A message in transit: who sent it and what it carries. The payload is the
/// application's encoding of one of its payload variants; the postmaster
/// moves it by value and never looks inside.
#[derive(Debug, Clone, Copy, PartialEq, Eq, Structural)]
pub struct Message {
    pub source: Address,
    pub payload: u64,
}

impl Message {
    pub fn new(source: Address, payload: u64) -> (r: Message)
        ensures
            r.source == source,
            r.payload == payload,
    {
        Message { source, payload }
    }
}

} // verus!
