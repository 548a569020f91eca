//! Single bits of a 64-bit ROM code, counted from the least significant, which is the
//! first on the wire.

use vstd::prelude::*;

verus! {

/// Whether bit `i` of `x` is set. Positions from 64 on hold no bit.
pub open spec fn bit(x: u64, i: u64) -> bool {
    i < 64 && (x >> i) & 1 == 1
}

/// `x` with bit `i` made equal to `value`, and `x` itself for a position from 64 on.
pub open spec fn with_bit(x: u64, i: u64, value: bool) -> u64 {
    if i >= 64 {
        x
    } else if value {
        x | (1u64 << i)
    } else {
        x & !(1u64 << i)
    }
}

/// The bits of `x` below position `i`, the others cleared: what has gone over the wire
/// once `i` bits of `x` were sent.
pub open spec fn low(x: u64, i: u64) -> u64 {
    if i >= 64 {
        x
    } else {
        x & !(u64::MAX << i)
    }
}

/// Tests bit `i` of `x`.
pub fn test_bit(x: u64, i: u8) -> (set: bool)
    ensures
        set == bit(x, i as u64),
{
    if i < 64 {
        (x >> (i as u64)) & 1 == 1
    } else {
        false
    }
}

/// Gives bit `i` of `x` the given value.
pub fn put_bit(x: u64, i: u8, value: bool) -> (y: u64)
    ensures
        y == with_bit(x, i as u64, value),
{
    if i >= 64 {
        x
    } else if value {
        x | (1u64 << (i as u64))
    } else {
        x & !(1u64 << (i as u64))
    }
}

/// Writing one bit changes that bit and no other.
pub proof fn lemma_with_bit(x: u64, i: u64, value: bool, j: u64)
    requires
        i < 64,
    ensures
        bit(with_bit(x, i, value), j) == (if j == i { value } else { bit(x, j) }),
{
    if j < 64 {
        assert(((x | (1u64 << i)) >> j) & 1 == 1 <==> (j == i || (x >> j) & 1 == 1))
            by (bit_vector)
            requires
                i < 64,
                j < 64,
        ;
        assert(((x & !(1u64 << i)) >> j) & 1 == 1 <==> (j != i && (x >> j) & 1 == 1))
            by (bit_vector)
            requires
                i < 64,
                j < 64,
        ;
    }
}

/// Writing bit `i` leaves what lies below it untouched.
pub proof fn lemma_with_bit_low(x: u64, i: u64, value: bool, k: u64)
    requires
        k <= i < 64,
    ensures
        low(with_bit(x, i, value), k) == low(x, k),
{
    assert((x | (1u64 << i)) & !(u64::MAX << k) == x & !(u64::MAX << k)) by (bit_vector)
        requires
            k <= i < 64,
    ;
    assert((x & !(1u64 << i)) & !(u64::MAX << k) == x & !(u64::MAX << k)) by (bit_vector)
        requires
            k <= i < 64,
    ;
}

/// Two codes agree below position `i + 1` exactly when they agree below `i` and in bit `i`.
pub proof fn lemma_low_step(x: u64, y: u64, i: u64)
    requires
        i < 64,
    ensures
        low(x, (i + 1) as u64) == low(y, (i + 1) as u64) <==> (low(x, i) == low(y, i) && bit(x, i)
            == bit(y, i)),
{
    if i < 63 {
        let k = (i + 1) as u64;
        assert((x & !(u64::MAX << k) == y & !(u64::MAX << k)) <==> ((x & !(u64::MAX << i)) == (y
            & !(u64::MAX << i)) && (((x >> i) & 1 == 1) <==> ((y >> i) & 1 == 1))))
            by (bit_vector)
            requires
                i < 63,
                k == i + 1,
        ;
    } else {
        assert((x == y) <==> ((x & !(u64::MAX << i)) == (y & !(u64::MAX << i)) && (((x >> i) & 1
            == 1) <==> ((y >> i) & 1 == 1)))) by (bit_vector)
            requires
                i == 63,
        ;
    }
}

/// Codes that agree below position `i` agree below every earlier position, and in
/// every bit below `i`.
pub proof fn lemma_low_below(x: u64, y: u64, i: u64, k: u64)
    requires
        low(x, i) == low(y, i),
        k <= i,
    ensures
        low(x, k) == low(y, k),
        k < i ==> bit(x, k) == bit(y, k),
{
    if i >= 64 {
    } else {
        assert((x & !(u64::MAX << i)) == (y & !(u64::MAX << i)) ==> (x & !(u64::MAX << k)) == (y
            & !(u64::MAX << k))) by (bit_vector)
            requires
                k <= i < 64,
        ;
        if k < i {
            assert((x & !(u64::MAX << i)) == (y & !(u64::MAX << i)) ==> (((x >> k) & 1 == 1)
                <==> ((y >> k) & 1 == 1))) by (bit_vector)
                requires
                    k < i < 64,
            ;
        }
    }
}

/// Below position 0 there is nothing, so any two codes agree there.
pub proof fn lemma_low_zero(x: u64)
    ensures
        low(x, 0) == 0,
{
    assert(x & !(u64::MAX << 0u64) == 0) by (bit_vector);
}

/// A code other than 0 has a bit set.
pub proof fn lemma_some_bit(x: u64)
    requires
        x != 0,
    ensures
        exists|i: u64| i < 64 && (x >> i) & 1 == 1,
{
    // The highest set bit is found by halving the range six times.
    let a32: u64 = if x >> 32 != 0 { 32 } else { 0 };
    let x32 = x >> a32;
    let a16: u64 = if x32 >> 16 != 0 { 16 } else { 0 };
    let x16 = x32 >> a16;
    let a8: u64 = if x16 >> 8 != 0 { 8 } else { 0 };
    let x8 = x16 >> a8;
    let a4: u64 = if x8 >> 4 != 0 { 4 } else { 0 };
    let x4 = x8 >> a4;
    let a2: u64 = if x4 >> 2 != 0 { 2 } else { 0 };
    let x2 = x4 >> a2;
    let a1: u64 = if x2 >> 1 != 0 { 1 } else { 0 };
    let top = (a32 + a16 + a8 + a4 + a2 + a1) as u64;
    assert(top < 64 && (x >> top) & 1 == 1) by (bit_vector)
        requires
            x != 0,
            a32 == (if x >> 32 != 0 { 32u64 } else { 0u64 }),
            x32 == x >> a32,
            a16 == (if x32 >> 16 != 0 { 16u64 } else { 0u64 }),
            x16 == x32 >> a16,
            a8 == (if x16 >> 8 != 0 { 8u64 } else { 0u64 }),
            x8 == x16 >> a8,
            a4 == (if x8 >> 4 != 0 { 4u64 } else { 0u64 }),
            x4 == x8 >> a4,
            a2 == (if x4 >> 2 != 0 { 2u64 } else { 0u64 }),
            x2 == x4 >> a2,
            a1 == (if x2 >> 1 != 0 { 1u64 } else { 0u64 }),
            top == a32 + a16 + a8 + a4 + a2 + a1,
    ;
}

} // verus!
