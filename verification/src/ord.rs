//! Ordering keys. An episode is numbered by a binary64 number, so that
//! "1.5" can sit between 1 and 2. The library never computes with such
//! numbers: it only orders them, and it does so on a signed integer that is
//! made from the number's bit pattern and ordered the same way.
use vstd::prelude::*;

verus! {

pub const MAGNITUDE_MASK: u64 = 0x7fff_ffff_ffff_ffff;

/// The magnitude bits of the infinities. Every pattern whose magnitude is
/// larger stands for no number.
pub const INFINITY_BITS: u64 = 0x7ff0_0000_0000_0000;

/// The magnitude of a bit pattern: everything but the sign bit.
pub open spec fn magnitude(bits: u64) -> u64 {
    bits & MAGNITUDE_MASK
}

/// Whether the sign bit of a bit pattern is set.
pub open spec fn is_negative(bits: u64) -> bool {
    bits & !MAGNITUDE_MASK != 0
}

/// Whether a bit pattern stands for a number that can be ordered.
pub open spec fn is_ordered(bits: u64) -> bool {
    magnitude(bits) <= INFINITY_BITS
}

/// The key of a bit pattern: its magnitude, negated under a set sign bit.
/// Both zeros have the key 0.
pub open spec fn key_of(bits: u64) -> int {
    if is_negative(bits) {
        -(magnitude(bits) as int)
    } else {
        magnitude(bits) as int
    }
}

/// Whether `key` is the key of some ordered bit pattern.
pub open spec fn is_key(key: int) -> bool {
    -(INFINITY_BITS as int) <= key <= INFINITY_BITS as int
}

/// The bit pattern that a key was made from (the positive zero for 0).
pub open spec fn bits_of(key: int) -> u64 {
    if key < 0 {
        ((-key) as u64) | !MAGNITUDE_MASK
    } else {
        key as u64
    }
}

/// The ordering key of the number with the bit pattern `bits`, if it has
/// one.
pub fn ord_key(bits: u64) -> (key: Option<i64>)
    ensures
        key == if is_ordered(bits) { Some(key_of(bits) as i64) } else { None::<i64> },
        key matches Some(k) ==> is_key(k as int) && k as int == key_of(bits),
{
    let mag: u64 = bits & MAGNITUDE_MASK;
    assert(mag <= 0x7fff_ffff_ffff_ffff) by (bit_vector)
        requires
            mag == bits & 0x7fff_ffff_ffff_ffff,
    ;
    if mag > INFINITY_BITS {
        None
    } else if bits & !MAGNITUDE_MASK != 0 {
        Some(0 - (mag as i64))
    } else {
        Some(mag as i64)
    }
}

/// The bit pattern of the number with the ordering key `key`.
pub fn ord_bits(key: i64) -> (bits: u64)
    requires
        is_key(key as int),
    ensures
        bits == bits_of(key as int),
        is_ordered(bits),
        key_of(bits) == key,
{
    proof {
        law_key_round_trip(key as int);
    }
    if key < 0 {
        ((0 - key) as u64) | !MAGNITUDE_MASK
    } else {
        key as u64
    }
}

/// A key gives back itself through its bit pattern.
pub proof fn law_key_round_trip(key: int)
    requires
        is_key(key),
    ensures
        is_ordered(bits_of(key)),
        key_of(bits_of(key)) == key,
{
    if key < 0 {
        let m: u64 = (-key) as u64;
        assert(m <= 0x7ff0_0000_0000_0000);
        assert((m | !0x7fff_ffff_ffff_ffffu64) & 0x7fff_ffff_ffff_ffff == m
            && (m | !0x7fff_ffff_ffff_ffffu64) & !0x7fff_ffff_ffff_ffffu64 != 0) by (bit_vector)
            requires
                m <= 0x7ff0_0000_0000_0000,
        ;
    } else {
        let m: u64 = key as u64;
        assert(m & 0x7fff_ffff_ffff_ffff == m && m & !0x7fff_ffff_ffff_ffffu64 == 0)
            by (bit_vector)
            requires
                m <= 0x7ff0_0000_0000_0000,
        ;
    }
}

/// Two ordered bit patterns with the same key differ at most in the sign
/// of a zero.
pub proof fn law_equal_keys_equal_numbers(a: u64, b: u64)
    requires
        key_of(a) == key_of(b),
    ensures
        a == b || (magnitude(a) == 0 && magnitude(b) == 0),
{
    let ma = a & 0x7fff_ffff_ffff_ffff;
    let mb = b & 0x7fff_ffff_ffff_ffff;
    if ma != 0 || mb != 0 {
        assert(ma == mb);
        assert((a & !0x7fff_ffff_ffff_ffffu64 != 0) == (b & !0x7fff_ffff_ffff_ffffu64 != 0));
        assert(a == b) by (bit_vector)
            requires
                a & 0x7fff_ffff_ffff_ffff == b & 0x7fff_ffff_ffff_ffff,
                (a & !0x7fff_ffff_ffff_ffffu64 != 0) == (b & !0x7fff_ffff_ffff_ffffu64 != 0),
        ;
    }
}

} // verus!
