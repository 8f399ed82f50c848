//! Ledger addresses: the 32-byte identities of wallets, asset kinds and records.

use vstd::prelude::*;
use vstd::std_specs::cmp::PartialEqSpecImpl;

verus! {

/// A 32-byte address. Two addresses are the same exactly when their bytes are.
#[derive(Clone, Copy, Debug)]
pub struct Address {
    pub bytes: [u8; 32],
}

impl View for Address {
    type V = Seq<u8>;

    /// The address as a sequence of its 32 bytes.
    open spec fn view(&self) -> Seq<u8> {
        self.bytes@
    }
}

impl PartialEq for Address {
    fn eq(&self, other: &Address) -> (same: bool) {
        let mut i: usize = 0;
        while i < 32
            invariant
                i <= 32,
                forall|j: int| 0 <= j < i ==> self.bytes[j] == other.bytes[j],
            decreases 32 - i,
        {
            if self.bytes[i] != other.bytes[i] {
                return false;
            }
            i += 1;
        }
        assert(self.bytes =~= other.bytes);
        true
    }
}

impl Eq for Address {

}

impl PartialEqSpecImpl for Address {
    open spec fn obeys_eq_spec() -> bool {
        true
    }

    open spec fn eq_spec(&self, other: &Address) -> bool {
        *self == *other
    }
}

impl Address {
    /// The address made of the given bytes.
    pub fn new(bytes: [u8; 32]) -> (address: Address)
        ensures
            address.bytes == bytes,
    {
        Address { bytes }
    }

    /// The bytes of the address.
    pub fn to_bytes(&self) -> (bytes: [u8; 32])
        ensures
            bytes == self.bytes,
    {
        self.bytes
    }

    /// The bytes of the address as a vector, first byte first.
    pub fn to_vec(&self) -> (out: Vec<u8>)
        ensures
            out@ == self@,
    {
        let mut out: Vec<u8> = Vec::new();
        let mut i: usize = 0;
        while i < 32
            invariant
                i <= 32,
                out@ == self@.take(i as int),
            decreases 32 - i,
        {
            out.push(self.bytes[i]);
            assert(self@.take(i as int).push(self@[i as int]) == self@.take(i + 1));
            i += 1;
        }
        assert(self@.take(32) == self@);
        out
    }
}

} // verus!
