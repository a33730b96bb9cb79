//! On-chain account addresses as plain 32-byte values.

use vstd::prelude::*;

verus! {

/// A 32-byte on-chain account address, held as plain bytes.
#[derive(Clone, Copy, Debug)]
pub struct Address {
    pub bytes: [u8; 32],
}

impl View for Address {
    type V = Seq<u8>;

    open spec fn view(&self) -> Seq<u8> {
        self.bytes@
    }
}

impl Address {
    /// The all-zero address, used as the unset placeholder.
    pub fn zeroed() -> (r: Address)
        ensures
            r@ == Seq::<u8>::new(32, |i: int| 0u8),
    {
        let a = Address { bytes: [0u8; 32] };
        proof {
            assert(a.bytes@ =~= Seq::<u8>::new(32, |i: int| 0u8));
        }
        a
    }

    /// Builds an address from its 32 raw bytes.
    pub fn from_bytes(bytes: [u8; 32]) -> (r: Address)
        ensures
            r@ == bytes@,
    {
        Address { bytes }
    }

    /// Hands back the raw 32 bytes of the address.
    pub fn to_bytes(&self) -> (r: [u8; 32])
        ensures
            r@ == self@,
    {
        self.bytes
    }
}

/// Reads the 32 address bytes at `off` of an account buffer.
pub fn read_address(data: &Vec<u8>, off: usize) -> (r: Address)
    requires
        off + 32 <= data@.len(),
    ensures
        r@ == data@.subrange(off as int, off + 32),
{
    let mut bytes: [u8; 32] = [0u8; 32];
    let data_len: usize = data.len();
    let mut j: usize = 0;
    while j < 32
        invariant
            off + 32 <= data@.len(),
            data@.len() == data_len,
            0 <= j <= 32,
            bytes@.len() == 32,
            forall|k: int| 0 <= k < j ==> bytes@[k] == data@[off + k],
        decreases 32 - j,
    {
        bytes[j] = data[off + j];
        j = j + 1;
    }
    proof {
        assert(bytes@ =~= data@.subrange(off as int, off + 32));
    }
    Address { bytes }
}

/// Whether `target` occurs in a list of addresses.
pub fn contains_address(accounts: &Vec<Address>, target: &Address) -> (r: bool)
    ensures
        r == exists|i: int| 0 <= i < accounts@.len() && (#[trigger] accounts@[i])@ == target@,
{
    let n: usize = accounts.len();
    let mut i: usize = 0;
    while i < n
        invariant
            n == accounts@.len(),
            0 <= i <= n,
            forall|j: int| 0 <= j < i ==> (#[trigger] accounts@[j])@ != target@,
        decreases n - i,
    {
        if accounts[i] == *target {
            return true;
        }
        i = i + 1;
    }
    false
}

impl PartialEq for Address {
    fn eq(&self, other: &Address) -> (r: bool) {
        let mut i: usize = 0;
        while i < 32
            invariant
                0 <= i <= 32,
                forall|j: int| 0 <= j < i ==> self.bytes@[j] == other.bytes@[j],
            decreases 32 - i,
        {
            if self.bytes[i] != other.bytes[i] {
                return false;
            }
            i = i + 1;
        }
        proof {
            assert(self.bytes@ =~= other.bytes@);
        }
        true
    }
}

impl vstd::std_specs::cmp::PartialEqSpecImpl for Address {
    open spec fn obeys_eq_spec() -> bool {
        true
    }

    open spec fn eq_spec(&self, other: &Address) -> bool {
        self.bytes@ == other.bytes@
    }
}

} // verus!
