use vstd::prelude::*;

verus! {

/// Bits of a 32-bit float at and above this value have the sign bit set.
pub const SIGN_BIT: u32 = 0x8000_0000;

/// The magnitude bits of positive infinity; larger magnitudes are NaN.
pub const INFINITY_BITS: u32 = 0x7f80_0000;

/// The order key of a 32-bit float given by its bits: the magnitude bits,
/// negated when the sign bit is set, so that keys order as the floats do and
/// both zeros share the key 0. A NaN has no key.
pub open spec fn spec_order_key(bits: u32) -> Option<int> {
    let mag = bits % SIGN_BIT;
    if mag > INFINITY_BITS {
        None
    } else if bits >= SIGN_BIT {
        Some(-(mag as int))
    } else {
        Some(mag as int)
    }
}

/// Keys of floats that are not NaN.
pub open spec fn is_key(k: int) -> bool {
    -(INFINITY_BITS as int) <= k <= INFINITY_BITS as int
}

/// The bits of the float whose order key is `k`; the key 0 gives positive zero.
pub open spec fn spec_key_bits(k: int) -> u32 {
    if k < 0 {
        (SIGN_BIT + (-k)) as u32
    } else {
        k as u32
    }
}

pub fn order_key(bits: u32) -> (r: Option<i64>)
    ensures
        match r {
            Some(k) => spec_order_key(bits) == Some(k as int),
            None => spec_order_key(bits).is_none(),
        },
{
    let mag = bits % SIGN_BIT;
    if mag > INFINITY_BITS {
        None
    } else if bits >= SIGN_BIT {
        Some(-(mag as i64))
    } else {
        Some(mag as i64)
    }
}

pub fn key_bits(k: i64) -> (r: u32)
    requires
        is_key(k as int),
    ensures
        r == spec_key_bits(k as int),
        spec_order_key(r) == Some(k as int),
{
    if k < 0 {
        SIGN_BIT + ((-k) as u32)
    } else {
        k as u32
    }
}

/// Every float but NaN has a key, and its bits come back from that key,
/// negative zero excepted, which shares its key with positive zero.
pub proof fn lemma_key_round_trip(bits: u32)
    requires
        bits % SIGN_BIT <= INFINITY_BITS,
        bits != SIGN_BIT,
    ensures
        spec_order_key(bits) is Some,
        is_key(spec_order_key(bits)->0),
        spec_key_bits(spec_order_key(bits)->0) == bits,
{
}

/// Each key names exactly one bit pattern.
pub proof fn lemma_key_bits_round_trip(k: int)
    requires
        is_key(k),
    ensures
        spec_order_key(spec_key_bits(k)) == Some(k),
{
}

} // verus!
