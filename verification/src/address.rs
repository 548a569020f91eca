//! The 64-bit ROM code of a device and the cursor of a search.

use vstd::prelude::*;

verus! {

/// The ROM code of a device: family byte, six serial bytes and check byte, the family
/// byte in the lowest eight bits.
#[derive(Debug, Clone, Copy, PartialEq, Eq, Structural)]
pub struct Address(pub u64);

/// Where a search stands after a pass that found a device.
///
/// `address` is the code found. Bit `i` of `discrepancies` is set if at position `i`
/// devices answered with both values and the pass went on with 0, so that the branch
/// with 1 is still to be walked. `last_discrepancy_index` is the highest such position.
/// With no bit left in `discrepancies` the search is over.
#[derive(Debug, Clone, Copy, PartialEq, Eq, Structural)]
pub struct SearchState {
    pub address: u64,
    pub discrepancies: u64,
    pub last_discrepancy_index: u8,
}

/// Byte `k` of a code, counted from the least significant.
pub open spec fn byte_of(code: u64, k: int) -> u8 {
    ((code >> ((8 * k) as u64)) & 0xff) as u8
}

/// The eight bytes of a code in the order in which they go over the wire.
pub open spec fn le_bytes(code: u64) -> Seq<u8> {
    Seq::new(8, |k: int| byte_of(code, k))
}

impl Address {
    /// The eight bytes of the code, least significant first.
    pub fn to_le_bytes(&self) -> (bytes: Vec<u8>)
        ensures
            bytes@ == le_bytes(self.0),
    {
        let mut bytes: Vec<u8> = Vec::new();
        let mut k: u8 = 0;
        while k < 8
            invariant
                k <= 8,
                bytes@.len() == k,
                forall|m: int| 0 <= m < k ==> bytes@[m] == byte_of(self.0, m),
            decreases 8 - k,
        {
            let shift: u64 = 8 * (k as u64);
            let byte: u8 = ((self.0 >> shift) & 0xff) as u8;
            bytes.push(byte);
            k = k + 1;
        }
        assert(bytes@ =~= le_bytes(self.0));
        bytes
    }

    /// The family code: the first byte on the wire.
    pub fn family_code(&self) -> (family: u8)
        ensures
            family == byte_of(self.0, 0),
    {
        let code: u64 = self.0;
        assert((code >> 0u64) & 0xff == code & 0xff) by (bit_vector);
        (code & 0xff) as u8
    }
}

impl SearchState {
    /// Whether the search that led here is over: no branch is left to walk.
    pub open spec fn exhausted(self) -> bool {
        self.discrepancies == 0
    }

    /// Whether no branch is left to walk.
    pub fn is_exhausted(&self) -> (over: bool)
        ensures
            over == self.exhausted(),
    {
        self.discrepancies == 0
    }
}

} // verus!
