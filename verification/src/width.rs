//! The unsigned integer type that holds a field of a given width in bits.

use vstd::prelude::*;

verus! {

/// The name of the narrowest unsigned integer type with at least `bits` bits.
pub fn width_type(bits: usize) -> (name: &'static str)
    requires
        1 <= bits <= 128,
    ensures
        name@ == (if bits <= 8 {
            "u8"@
        } else if bits <= 16 {
            "u16"@
        } else if bits <= 32 {
            "u32"@
        } else if bits <= 64 {
            "u64"@
        } else {
            "u128"@
        }),
{
    if bits <= 8 {
        "u8"
    } else if bits <= 16 {
        "u16"
    } else if bits <= 32 {
        "u32"
    } else if bits <= 64 {
        "u64"
    } else {
        "u128"
    }
}

} // verus!
