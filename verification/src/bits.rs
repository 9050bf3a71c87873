//! Sign-bit masking: the integer heart of the branch-free absolute value.
//!
//! An IEEE 754 value is non-negative exactly when its top bit is clear, so
//! masking that bit off the value's bit pattern yields the bit pattern of
//! its absolute value. The masking itself is pure integer work and is done
//! and proved here, for both widths; the rim reinterprets float bits as
//! integers and back around these calls.

use vstd::prelude::*;

verus! {

/// Clear the top (sign) bit of a 32-bit pattern; the rest is untouched.
pub fn clear_sign_bit_32(bits: u32) -> (r: u32)
    ensures
        r == bits & 0x7fff_ffff,
        r == bits % 0x8000_0000,
        r == if bits >= 0x8000_0000 { (bits - 0x8000_0000) as u32 } else { bits },
{
    proof {
        assert(bits & 0x7fff_ffff == bits % 0x8000_0000) by (bit_vector);
        assert(bits % 0x8000_0000 == if bits >= 0x8000_0000 {
            (bits - 0x8000_0000) as u32
        } else {
            bits
        }) by (bit_vector);
    }
    bits & 0x7fff_ffff
}

/// Clear the top (sign) bit of a 64-bit pattern; the rest is untouched.
pub fn clear_sign_bit_64(bits: u64) -> (r: u64)
    ensures
        r == bits & 0x7fff_ffff_ffff_ffff,
        r == bits % 0x8000_0000_0000_0000,
        r == if bits >= 0x8000_0000_0000_0000 { (bits - 0x8000_0000_0000_0000) as u64 } else { bits },
{
    proof {
        assert(bits & 0x7fff_ffff_ffff_ffff == bits % 0x8000_0000_0000_0000) by (bit_vector);
        assert(bits % 0x8000_0000_0000_0000 == if bits >= 0x8000_0000_0000_0000 {
            (bits - 0x8000_0000_0000_0000) as u64
        } else {
            bits
        }) by (bit_vector);
    }
    bits & 0x7fff_ffff_ffff_ffff
}

} // verus!
