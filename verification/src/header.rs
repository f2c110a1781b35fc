//! Primary keys: the 64-bit identifiers that name rows throughout the store.
use vstd::prelude::*;
use vstd::string::StringSliceAdditionalSpecFns;

verus! {

/// A 64-bit row identifier. Equality and hash of the raw value define
/// identity everywhere in the store.
#[derive(Clone, Copy, Debug, PartialEq, Eq, Structural, Hash)]
pub struct PrimaryKey {
    pub value: u64,
}

impl PrimaryKey {
    /// Wraps a raw 64-bit identifier.
    pub fn new(value: u64) -> (r: PrimaryKey)
        ensures
            r.value == value,
    {
        PrimaryKey { value }
    }

    /// The raw 64-bit identifier.
    pub fn as_u64(&self) -> (r: u64)
        ensures
            r == self.value,
    {
        self.value
    }

    /// Derives a key from a domain string by hashing its bytes.
    pub fn from_string(entropy: &str) -> (r: PrimaryKey)
        ensures
            r.value == crate::crypto::hash64_of(entropy.spec_bytes()),
    {
        PrimaryKey { value: crate::crypto::hash64_str(entropy) }
    }
}

} // verus!
