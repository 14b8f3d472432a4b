//! The integer types of a given width.
use crate::field::IoType;
use vstd::prelude::*;

verus! {

/// The signed integer type of `size` bits.
pub fn sign(size: usize) -> (r: IoType)
    ensures
        r == IoType::Signed(size),
{
    IoType::Signed(size)
}

/// The unsigned integer type of `size` bits.
pub fn unsign(size: usize) -> (r: IoType)
    ensures
        r == IoType::Unsigned(size),
{
    IoType::Unsigned(size)
}

} // verus!
