//! The 8-bit check of the 1-Wire protocol (polynomial x^8 + x^5 + x^4 + 1, bits taken
//! least significant first).

use vstd::prelude::*;
use crate::error::OneWireError;

verus! {

/// Whether bit `j` of a byte is set.
pub open spec fn byte_bit(byte: u8, j: u8) -> bool {
    j < 8 && (byte >> j) & 1 == 1
}

/// The check value after one more bit went in.
pub open spec fn crc8_bit(crc: u8, bit: bool) -> u8 {
    if ((crc & 1) == 1) != bit {
        (crc >> 1) ^ 0x8C
    } else {
        crc >> 1
    }
}

/// The check value after the lowest `bits` bits of `byte` went in, lowest first.
pub open spec fn crc8_bits(crc: u8, byte: u8, bits: nat) -> u8
    decreases bits,
{
    if bits == 0 {
        crc
    } else {
        crc8_bit(crc8_bits(crc, byte, (bits - 1) as nat), byte_bit(byte, (bits - 1) as u8))
    }
}

/// The check value of a byte sequence: from 0, every byte goes in, first byte first.
pub open spec fn crc8_of(bytes: Seq<u8>) -> u8
    decreases bytes.len(),
{
    if bytes.len() == 0 {
        0
    } else {
        crc8_bits(crc8_of(bytes.drop_last()), bytes.last(), 8)
    }
}

/// Whether a byte sequence that ends in its own check byte is intact: the check value
/// over all of it is then 0.
pub open spec fn intact(bytes: Seq<u8>) -> bool {
    crc8_of(bytes) == 0
}

/// Computes the check value of `data`.
pub fn crc8(data: &[u8]) -> (crc: u8)
    ensures
        crc == crc8_of(data@),
{
    let mut crc: u8 = 0;
    let mut n: usize = 0;
    while n < data.len()
        invariant
            n <= data.len(),
            crc == crc8_of(data@.take(n as int)),
        decreases data.len() - n,
    {
        let byte: u8 = data[n];
        let ghost before = crc;
        let mut j: u8 = 0;
        while j < 8
            invariant
                j <= 8,
                crc == crc8_bits(before, byte, j as nat),
            decreases 8 - j,
        {
            let bit: bool = (byte >> j) & 1 == 1;
            let low: bool = (crc & 1) == 1;
            crc = crc >> 1;
            if low != bit {
                crc = crc ^ 0x8C;
            }
            j = j + 1;
        }
        proof {
            let taken = data@.take(n + 1);
            assert(taken.drop_last() =~= data@.take(n as int));
            assert(taken.last() == byte);
        }
        n = n + 1;
    }
    proof {
        assert(data@.take(n as int) =~= data@);
    }
    crc
}

/// Accepts `data` if it is intact, and reports a mismatch if it is not.
pub fn check_crc8<E>(data: &[u8]) -> (result: Result<(), OneWireError<E>>)
    ensures
        intact(data@) ==> result == Ok::<(), OneWireError<E>>(()),
        !intact(data@) ==> result == Err::<(), OneWireError<E>>(OneWireError::CrcMismatch),
{
    if crc8(data) == 0 {
        Ok(())
    } else {
        Err(OneWireError::CrcMismatch)
    }
}

} // verus!
