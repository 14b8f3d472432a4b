//! A number of one of the primitive integer types, tagged with its type.
use crate::arith::{lemma_width_pow2, supported_width};
use vstd::arithmetic::power2::pow2;
use vstd::prelude::*;
use vstd::std_specs::cmp::PartialEqSpecImpl;

verus! {

/// An integer together with the primitive type it has: the masks and bounds of a field are
/// numbers of the register's own width.
#[derive(Debug, Clone, Copy)]
pub enum Number {
    U8(u8),
    U16(u16),
    U32(u32),
    U64(u64),
    U128(u128),
    I8(i8),
    I16(i16),
    I32(i32),
    I64(i64),
    I128(i128),
}

impl Number {
    /// The mathematical value of the number.
    pub open spec fn value(self) -> int {
        match self {
            Number::U8(n) => n as int,
            Number::U16(n) => n as int,
            Number::U32(n) => n as int,
            Number::U64(n) => n as int,
            Number::U128(n) => n as int,
            Number::I8(n) => n as int,
            Number::I16(n) => n as int,
            Number::I32(n) => n as int,
            Number::I64(n) => n as int,
            Number::I128(n) => n as int,
        }
    }

    /// The number of bits of the number's type.
    pub open spec fn bit_width(self) -> nat {
        match self {
            Number::U8(_) | Number::I8(_) => 8,
            Number::U16(_) | Number::I16(_) => 16,
            Number::U32(_) | Number::I32(_) => 32,
            Number::U64(_) | Number::I64(_) => 64,
            Number::U128(_) | Number::I128(_) => 128,
        }
    }

    /// Whether the number's type is a signed one.
    pub open spec fn is_signed(self) -> bool {
        match self {
            Number::U8(_) | Number::U16(_) | Number::U32(_) | Number::U64(_) | Number::U128(_) => false,
            _ => true,
        }
    }

    /// The unsigned number of the given width with the given value.
    pub fn unsigned_of_width(width: usize, v: u128) -> (r: Number)
        requires
            supported_width(width as nat),
            v < pow2(width as nat),
        ensures
            r.bit_width() == width,
            !r.is_signed(),
            r.value() == v,
    {
        proof {
            lemma_width_pow2(width as nat);
        }
        if width == 8 {
            Number::U8(v as u8)
        } else if width == 16 {
            Number::U16(v as u16)
        } else if width == 32 {
            Number::U32(v as u32)
        } else if width == 64 {
            Number::U64(v as u64)
        } else {
            Number::U128(v)
        }
    }

    /// The signed number of the given width with the given value.
    pub fn signed_of_width(width: usize, v: i128) -> (r: Number)
        requires
            supported_width(width as nat),
            -pow2((width - 1) as nat) <= v < pow2((width - 1) as nat),
        ensures
            r.bit_width() == width,
            r.is_signed(),
            r.value() == v,
    {
        proof {
            lemma_width_pow2(width as nat);
        }
        if width == 8 {
            Number::I8(v as i8)
        } else if width == 16 {
            Number::I16(v as i16)
        } else if width == 32 {
            Number::I32(v as i32)
        } else if width == 64 {
            Number::I64(v as i64)
        } else {
            Number::I128(v)
        }
    }

    /// Compares the number with an unsigned 128-bit integer by value.
    pub fn eq_unsigned(&self, other: u128) -> (r: bool)
        ensures
            r == (self.value() == other as int),
    {
        match self {
            Number::U8(n) => *n as u128 == other,
            Number::U16(n) => *n as u128 == other,
            Number::U32(n) => *n as u128 == other,
            Number::U64(n) => *n as u128 == other,
            Number::U128(n) => *n == other,
            Number::I8(n) => {
                if *n < 0 {
                    false
                } else {
                    *n as u128 == other
                }
            },
            Number::I16(n) => {
                if *n < 0 {
                    false
                } else {
                    *n as u128 == other
                }
            },
            Number::I32(n) => {
                if *n < 0 {
                    false
                } else {
                    *n as u128 == other
                }
            },
            Number::I64(n) => {
                if *n < 0 {
                    false
                } else {
                    *n as u128 == other
                }
            },
            Number::I128(n) => {
                if *n < 0 {
                    false
                } else {
                    *n as u128 == other
                }
            },
        }
    }

    /// Compares the number with a signed 128-bit integer by value.
    pub fn eq_signed(&self, other: i128) -> (r: bool)
        ensures
            r == (self.value() == other as int),
    {
        match self {
            Number::U8(n) => *n as i128 == other,
            Number::U16(n) => *n as i128 == other,
            Number::U32(n) => *n as i128 == other,
            Number::U64(n) => *n as i128 == other,
            Number::U128(n) => {
                if *n > i128::MAX as u128 {
                    false
                } else {
                    *n as i128 == other
                }
            },
            Number::I8(n) => *n as i128 == other,
            Number::I16(n) => *n as i128 == other,
            Number::I32(n) => *n as i128 == other,
            Number::I64(n) => *n as i128 == other,
            Number::I128(n) => *n == other,
        }
    }
}

impl PartialEq<u128> for Number {
    fn eq(&self, other: &u128) -> (r: bool) {
        self.eq_unsigned(*other)
    }
}

impl PartialEqSpecImpl<u128> for Number {
    open spec fn obeys_eq_spec() -> bool {
        true
    }

    open spec fn eq_spec(&self, other: &u128) -> bool {
        self.value() == *other as int
    }
}

impl PartialEq<i128> for Number {
    fn eq(&self, other: &i128) -> (r: bool) {
        self.eq_signed(*other)
    }
}

impl PartialEqSpecImpl<i128> for Number {
    open spec fn obeys_eq_spec() -> bool {
        true
    }

    open spec fn eq_spec(&self, other: &i128) -> bool {
        self.value() == *other as int
    }
}

} // verus!
