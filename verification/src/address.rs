//! Account identifiers.
//!
//! An address is a 160-bit unsigned value, held as a 32-bit high part and a
//! 128-bit low part. The all-zero address is a reserved sentinel: it means
//! "no owner" in the ledger and is never a valid mint recipient.

use vstd::prelude::*;

verus! {

/// A 160-bit account identifier. `hi` holds the upper 32 bits and `lo` the
/// lower 128 bits of the big-endian value.
#[derive(Clone, Copy, PartialEq, Eq, Structural, Debug, Hash)]
pub struct Address {
    pub hi: u32,
    pub lo: u128,
}

/// The reserved sentinel value meaning "no owner" / invalid recipient.
pub open spec fn zero_address() -> Address {
    Address { hi: 0, lo: 0 }
}

impl Address {
    /// Whether this address is the reserved zero sentinel.
    pub open spec fn spec_is_zero(&self) -> bool {
        *self == zero_address()
    }

    #[verifier::when_used_as_spec(spec_is_zero)]
    pub fn is_zero(&self) -> (r: bool)
        ensures
            r == self.spec_is_zero(),
    {
        self.hi == 0 && self.lo == 0
    }

    pub fn new(hi: u32, lo: u128) -> (r: Address)
        ensures
            r == (Address { hi, lo }),
    {
        Address { hi, lo }
    }

    /// The zero sentinel as a runtime value.
    pub fn zero() -> (r: Address)
        ensures
            r == zero_address(),
    {
        Address { hi: 0, lo: 0 }
    }
}

} // verus!
