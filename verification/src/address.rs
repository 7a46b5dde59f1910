use vstd::prelude::*;

verus! {

/// A chain-agnostic 32-byte identity: a program id, an admin key, an adapter
/// identity or a message endpoint address, held as two 128-bit halves so that
/// equality is plain integer equality.
#[derive(Clone, Copy, Debug, PartialEq, Eq, Structural)]
pub struct UniversalAddress {
    pub hi: u128,
    pub lo: u128,
}

impl UniversalAddress {
    pub fn new(hi: u128, lo: u128) -> (r: Self)
        ensures
            r.hi == hi,
            r.lo == lo,
    {
        UniversalAddress { hi, lo }
    }
}

/// A 32-byte payload hash, held like `UniversalAddress` but kept as its own
/// type so that an address is never mistaken for a hash.
#[derive(Clone, Copy, Debug, PartialEq, Eq, Structural)]
pub struct Bytes32 {
    pub hi: u128,
    pub lo: u128,
}

impl Bytes32 {
    pub fn new(hi: u128, lo: u128) -> (r: Self)
        ensures
            r.hi == hi,
            r.lo == lo,
    {
        Bytes32 { hi, lo }
    }
}

} // verus!
