//! Registers with bit-precise fields.
//!
//! A register is a single unsigned integer of 8, 16, 32, 64 or 128 bits. A field names a
//! contiguous run of bits in it, from its least significant bit `lsb` to its most significant
//! bit `msb`, and reads as an unsigned value or as a two's complement signed value.
//!
//! The library holds what a register description means: the masks and bounds of each field,
//! the reading and writing of field values in a register value, and the checks on the
//! arguments of a register description.
pub mod arith;
pub mod bitfield;
pub mod field;
pub mod number;
pub mod raw;
pub mod register;
pub mod util;
pub mod value;

use vstd::prelude::*;

verus! {

/// What can go wrong when a field of a register is written.
#[derive(Debug, PartialEq, Eq, Structural, Clone, Copy)]
pub enum Error {
    /// The value does not fit in the field.
    OutOfBoundsFieldWrite,
}

impl Error {
    /// The message that describes the error.
    pub fn message(&self) -> (r: &'static str)
        ensures
            r@ == "Field write out of bounds"@,
    {
        match self {
            Error::OutOfBoundsFieldWrite => "Field write out of bounds",
        }
    }
}

/// The result of a field write.
pub type Result<T> = core::result::Result<T, Error>;

/// The default of the `read` and `write` switches of a field or a register: on.
pub fn _true() -> (r: bool)
    ensures
        r,
{
    true
}

} // verus!
