//! The primitive unsigned integers that hold a register's bits.
use crate::arith::{lemma_width_pow2, supported_width};
use vstd::arithmetic::power2::pow2;
use vstd::prelude::*;

verus! {

/// An unsigned integer type that holds the bits of a register, together with the signed
/// integer type of the same width, through which signed fields are read and written.
pub trait RawRegister: Sized + Copy {
    /// The signed integer type of the same width.
    type Signed: Copy;

    /// The number of bits.
    spec fn bit_count() -> nat;

    /// The bits, as an unsigned number.
    spec fn value(self) -> nat;

    /// The value of a signed integer of the same width.
    spec fn signed_value(s: Self::Signed) -> int;

    /// The number of bits.
    fn width() -> (r: usize)
        ensures
            r == Self::bit_count(),
    ;

    /// The bits, as an unsigned 128-bit number.
    fn to_u128(self) -> (r: u128)
        ensures
            r == self.value(),
    ;

    /// The integer whose bits are those of `v`.
    fn from_u128(v: u128) -> (r: Self)
        requires
            v < pow2(Self::bit_count()),
        ensures
            r.value() == v,
    ;

    /// A signed integer of the same width, as a signed 128-bit number.
    fn signed_to_i128(s: Self::Signed) -> (r: i128)
        ensures
            r == Self::signed_value(s),
    ;

    /// The signed integer of the same width with the value `v`.
    fn signed_from_i128(v: i128) -> (r: Self::Signed)
        requires
            -pow2((Self::bit_count() - 1) as nat) <= v < pow2((Self::bit_count() - 1) as nat),
        ensures
            Self::signed_value(r) == v,
    ;

    /// The width is a register width, and the bits make a number below two to the width.
    proof fn lemma_bounds(self)
        ensures
            supported_width(Self::bit_count()),
            self.value() < pow2(Self::bit_count()),
    ;

    /// A signed integer of the same width lies in the two's complement range of that width.
    proof fn lemma_signed_bounds(s: Self::Signed)
        ensures
            supported_width(Self::bit_count()),
            -pow2((Self::bit_count() - 1) as nat) <= Self::signed_value(s) < pow2(
                (Self::bit_count() - 1) as nat,
            ),
    ;
}

impl RawRegister for u8 {
    type Signed = i8;

    open spec fn bit_count() -> nat {
        8
    }

    open spec fn value(self) -> nat {
        self as nat
    }

    open spec fn signed_value(s: i8) -> int {
        s as int
    }

    fn width() -> (r: usize) {
        8
    }

    fn to_u128(self) -> (r: u128) {
        self as u128
    }

    fn from_u128(v: u128) -> (r: u8) {
        proof {
            lemma_width_pow2(8);
        }
        v as u8
    }

    fn signed_to_i128(s: i8) -> (r: i128) {
        s as i128
    }

    fn signed_from_i128(v: i128) -> (r: i8) {
        proof {
            lemma_width_pow2(8);
        }
        v as i8
    }

    proof fn lemma_bounds(self) {
        lemma_width_pow2(8);
    }

    proof fn lemma_signed_bounds(s: i8) {
        lemma_width_pow2(8);
    }
}

impl RawRegister for u16 {
    type Signed = i16;

    open spec fn bit_count() -> nat {
        16
    }

    open spec fn value(self) -> nat {
        self as nat
    }

    open spec fn signed_value(s: i16) -> int {
        s as int
    }

    fn width() -> (r: usize) {
        16
    }

    fn to_u128(self) -> (r: u128) {
        self as u128
    }

    fn from_u128(v: u128) -> (r: u16) {
        proof {
            lemma_width_pow2(16);
        }
        v as u16
    }

    fn signed_to_i128(s: i16) -> (r: i128) {
        s as i128
    }

    fn signed_from_i128(v: i128) -> (r: i16) {
        proof {
            lemma_width_pow2(16);
        }
        v as i16
    }

    proof fn lemma_bounds(self) {
        lemma_width_pow2(16);
    }

    proof fn lemma_signed_bounds(s: i16) {
        lemma_width_pow2(16);
    }
}

impl RawRegister for u32 {
    type Signed = i32;

    open spec fn bit_count() -> nat {
        32
    }

    open spec fn value(self) -> nat {
        self as nat
    }

    open spec fn signed_value(s: i32) -> int {
        s as int
    }

    fn width() -> (r: usize) {
        32
    }

    fn to_u128(self) -> (r: u128) {
        self as u128
    }

    fn from_u128(v: u128) -> (r: u32) {
        proof {
            lemma_width_pow2(32);
        }
        v as u32
    }

    fn signed_to_i128(s: i32) -> (r: i128) {
        s as i128
    }

    fn signed_from_i128(v: i128) -> (r: i32) {
        proof {
            lemma_width_pow2(32);
        }
        v as i32
    }

    proof fn lemma_bounds(self) {
        lemma_width_pow2(32);
    }

    proof fn lemma_signed_bounds(s: i32) {
        lemma_width_pow2(32);
    }
}

impl RawRegister for u64 {
    type Signed = i64;

    open spec fn bit_count() -> nat {
        64
    }

    open spec fn value(self) -> nat {
        self as nat
    }

    open spec fn signed_value(s: i64) -> int {
        s as int
    }

    fn width() -> (r: usize) {
        64
    }

    fn to_u128(self) -> (r: u128) {
        self as u128
    }

    fn from_u128(v: u128) -> (r: u64) {
        proof {
            lemma_width_pow2(64);
        }
        v as u64
    }

    fn signed_to_i128(s: i64) -> (r: i128) {
        s as i128
    }

    fn signed_from_i128(v: i128) -> (r: i64) {
        proof {
            lemma_width_pow2(64);
        }
        v as i64
    }

    proof fn lemma_bounds(self) {
        lemma_width_pow2(64);
    }

    proof fn lemma_signed_bounds(s: i64) {
        lemma_width_pow2(64);
    }
}

impl RawRegister for u128 {
    type Signed = i128;

    open spec fn bit_count() -> nat {
        128
    }

    open spec fn value(self) -> nat {
        self as nat
    }

    open spec fn signed_value(s: i128) -> int {
        s as int
    }

    fn width() -> (r: usize) {
        128
    }

    fn to_u128(self) -> (r: u128) {
        self as u128
    }

    fn from_u128(v: u128) -> (r: u128) {
        proof {
            lemma_width_pow2(128);
        }
        v as u128
    }

    fn signed_to_i128(s: i128) -> (r: i128) {
        s as i128
    }

    fn signed_from_i128(v: i128) -> (r: i128) {
        proof {
            lemma_width_pow2(128);
        }
        v as i128
    }

    proof fn lemma_bounds(self) {
        lemma_width_pow2(128);
    }

    proof fn lemma_signed_bounds(s: i128) {
        lemma_width_pow2(128);
    }
}

} // verus!
