//! Register values: a register's bits, and the reading and writing of its fields.
use crate::arith::{lemma_pow2_below, lemma_pow2_fits, lemma_width_pow2, pow2_u128, supported_width};
use crate::bitfield::{
    field_bits,
    from_twos_complement,
    lemma_from_twos_complement_is_congruent,
    lemma_get_after_set,
    lemma_to_twos_complement_is_congruent,
    lemma_twos_complement_range,
    lemma_twos_complement_roundtrip,
    lemma_with_field_bits,
    to_twos_complement,
    with_field_bits,
};
use crate::field::Field;
use crate::raw::RawRegister;
use crate::{Error, Result};
use vstd::arithmetic::power2::{lemma_pow2_pos, lemma_pow2_unfold, pow2};
use vstd::prelude::*;
use vstd::std_specs::cmp::PartialEqSpecImpl;
use vstd::std_specs::convert::FromSpecImpl;

verus! {

/// The value of a register whose bits an unsigned integer of type `T` holds. It takes no
/// more room than that integer.
#[derive(Debug, Clone, Copy)]
pub struct RegisterValue<T> {
    reg: T,
}

impl<T: RawRegister> RegisterValue<T> {
    /// The integer that holds the register's bits.
    pub closed spec fn raw_value(self) -> T {
        self.reg
    }

    /// The register that holds the bits of `value`.
    pub closed spec fn holding(value: T) -> Self {
        RegisterValue { reg: value }
    }

    /// The number of bits of the register.
    pub open spec fn width() -> nat {
        T::bit_count()
    }

    /// The register's bits, as an unsigned number.
    pub open spec fn bits(self) -> nat {
        self.raw_value().value()
    }

    /// The register's width is a supported one, and its bits make a number below two to the
    /// width.
    pub proof fn lemma_bits_bound(self)
        ensures
            supported_width(Self::width()),
            self.bits() < pow2(Self::width()),
    {
        self.reg.lemma_bounds();
    }

    /// A register with all its bits clear.
    pub fn new() -> (r: Self)
        ensures
            r.bits() == 0,
    {
        proof {
            lemma_pow2_pos(T::bit_count());
        }
        RegisterValue { reg: T::from_u128(0) }
    }

    /// The register that holds the bits of `value`.
    pub fn from_raw(value: T) -> (r: Self)
        ensures
            r == Self::holding(value),
            r.raw_value() == value,
            r.bits() == value.value(),
    {
        RegisterValue { reg: value }
    }

    /// The integer that holds the register's bits.
    pub fn raw(&self) -> (r: T)
        ensures
            r == self.raw_value(),
    {
        self.reg
    }

    /// The integer that holds the register's bits.
    pub fn into_raw(self) -> (r: T)
        ensures
            r == self.raw_value(),
    {
        self.reg
    }

    /// Clears every bit of the register.
    pub fn clear(&mut self)
        ensures
            final(self).bits() == 0,
    {
        proof {
            lemma_pow2_pos(T::bit_count());
        }
        self.reg = T::from_u128(0);
    }

    /// Whether the register holds exactly the bits of `other`.
    pub fn eq_raw(&self, other: T) -> (r: bool)
        ensures
            r == (self.bits() == other.value()),
    {
        self.reg.to_u128() == other.to_u128()
    }

    /// The `n` bits from bit `lsb` up, as an unsigned number.
    fn bits_at(&self, lsb: usize, n: usize) -> (r: u128)
        requires
            lsb < Self::width(),
            n < Self::width(),
        ensures
            r == field_bits(self.bits(), lsb as nat, n as nat),
            r < pow2(n as nat),
    {
        proof {
            self.reg.lemma_bounds();
            lemma_pow2_pos(n as nat);
        }
        let p = pow2_u128(lsb);
        let q = pow2_u128(n);
        (self.reg.to_u128() / p) % q
    }

    /// Replaces the `n` bits from bit `lsb` up with the bits of `v`, losing those of its bits
    /// that would land at or above the register's top.
    fn replace_bits_at(&mut self, lsb: usize, n: usize, v: u128)
        requires
            lsb < Self::width(),
            n < Self::width(),
            v < pow2(n as nat),
        ensures
            final(self).bits() == with_field_bits(
                old(self).bits(),
                Self::width(),
                lsb as nat,
                n as nat,
                v as nat,
            ),
    {
        let raw = self.reg.to_u128();
        let w = T::width();
        proof {
            self.reg.lemma_bounds();
            lemma_width_pow2(w as nat);
            lemma_with_field_bits(raw as nat, w as nat, lsb as nat, n as nat, v as nat);
        }
        let p = pow2_u128(lsb);
        let q = pow2_u128(n);
        let cur = (raw / p) % q;
        let cleared = raw - cur * p;
        let part: u128 = if lsb + n <= w {
            v * p
        } else {
            let c = pow2_u128(w - lsb);
            (v % c) * p
        };
        self.reg = T::from_u128(cleared + part);
    }

    /// Reads an unsigned field.
    pub fn get_unsigned(&self, field: &Field) -> (r: T)
        requires
            field.typ is Unsigned,
            field.fits(Self::width()),
        ensures
            r.value() == field_bits(self.bits(), field.lsb as nat, field.size() as nat),
            r.value() <= field.max_value(),
    {
        proof {
            self.reg.lemma_bounds();
        }
        let u = self.bits_at(field.lsb, field.field_size());
        proof {
            lemma_pow2_below(field.size() as nat, T::bit_count());
        }
        T::from_u128(u)
    }

    /// Reads a signed field: its bits as a two's complement number.
    pub fn get_signed(&self, field: &Field) -> (r: T::Signed)
        requires
            field.typ is Signed,
            field.fits(Self::width()),
        ensures
            T::signed_value(r) == from_twos_complement(
                field_bits(self.bits(), field.lsb as nat, field.size() as nat),
                field.size() as nat,
            ),
            field.min_value() <= T::signed_value(r) <= field.max_value(),
            T::signed_value(r) % (pow2(field.size() as nat) as int) == field_bits(
                self.bits(),
                field.lsb as nat,
                field.size() as nat,
            ) as int,
            -pow2((field.size() - 1) as nat) <= T::signed_value(r) < pow2(
                (field.size() - 1) as nat,
            ),
    {
        proof {
            self.reg.lemma_bounds();
        }
        let n = field.field_size();
        let u = self.bits_at(field.lsb, n);
        let half = pow2_u128(n - 1);
        proof {
            lemma_pow2_unfold(n as nat);
            lemma_pow2_fits(n as nat);
            lemma_twos_complement_range(u as nat, n as nat);
            lemma_from_twos_complement_is_congruent(u as nat, n as nat);
            if n - 1 < T::bit_count() - 1 {
                vstd::arithmetic::power2::lemma_pow2_strictly_increases(
                    (n - 1) as nat,
                    (T::bit_count() - 1) as nat,
                );
            }
        }
        let v: i128 = if u >= half {
            (u - half) as i128 - half as i128
        } else {
            u as i128
        };
        T::signed_from_i128(v)
    }

    /// Writes an unsigned field. A value that does not fit in the field is refused, and the
    /// register is left as it was.
    pub fn set_unsigned(&mut self, field: &Field, val: T) -> (r: Result<()>)
        requires
            field.typ is Unsigned,
            field.fits(Self::width()),
        ensures
            r is Ok <==> val.value() <= field.max_value(),
            r is Ok <==> val.value() < pow2(field.size() as nat),
            r is Ok && field.msb < Self::width() ==> field_bits(
                final(self).bits(),
                field.lsb as nat,
                field.size() as nat,
            ) == val.value(),
            r is Ok ==> final(self).bits() == with_field_bits(
                old(self).bits(),
                Self::width(),
                field.lsb as nat,
                field.size() as nat,
                val.value(),
            ),
            r is Err ==> r == Err::<(), Error>(Error::OutOfBoundsFieldWrite) && *final(self)
                == *old(self),
    {
        proof {
            self.reg.lemma_bounds();
            lemma_pow2_pos(field.size() as nat);
        }
        let n = field.field_size();
        let max = pow2_u128(n) - 1;
        let v = val.to_u128();
        if v > max {
            return Err(Error::OutOfBoundsFieldWrite);
        }
        self.replace_bits_at(field.lsb, n, v);
        proof {
            if field.msb < T::bit_count() {
                lemma_get_after_set(
                    old(self).bits(),
                    T::bit_count(),
                    field.lsb as nat,
                    n as nat,
                    v as nat,
                );
            }
        }
        Ok(())
    }

    /// Writes a signed field as a two's complement number. A value outside the field's range
    /// is refused, and the register is left as it was.
    pub fn set_signed(&mut self, field: &Field, val: T::Signed) -> (r: Result<()>)
        requires
            field.typ is Signed,
            field.fits(Self::width()),
        ensures
            r is Ok <==> field.min_value() <= T::signed_value(val) <= field.max_value(),
            r is Ok <==> -pow2((field.size() - 1) as nat) <= T::signed_value(val) < pow2(
                (field.size() - 1) as nat,
            ),
            r is Ok ==> field_bits(final(self).bits(), field.lsb as nat, field.size() as nat) as int
                == T::signed_value(val) % (pow2(field.size() as nat) as int),
            r is Ok ==> final(self).bits() == with_field_bits(
                old(self).bits(),
                Self::width(),
                field.lsb as nat,
                field.size() as nat,
                to_twos_complement(T::signed_value(val), field.size() as nat),
            ),
            r is Err ==> r == Err::<(), Error>(Error::OutOfBoundsFieldWrite) && *final(self)
                == *old(self),
    {
        proof {
            self.reg.lemma_bounds();
        }
        let n = field.field_size();
        let half = pow2_u128(n - 1);
        proof {
            lemma_pow2_fits((n - 1) as nat);
            lemma_pow2_below((n - 1) as nat, 127);
            lemma_pow2_unfold(n as nat);
        }
        let v = T::signed_to_i128(val);
        let max: i128 = half as i128 - 1;
        let min: i128 = -(half as i128);
        if v > max || v < min {
            return Err(Error::OutOfBoundsFieldWrite);
        }
        proof {
            lemma_twos_complement_roundtrip(v as int, n as nat);
        }
        let enc: u128 = if v >= 0 {
            v as u128
        } else {
            (v + half as i128) as u128 + half
        };
        self.replace_bits_at(field.lsb, n, enc);
        proof {
            lemma_to_twos_complement_is_congruent(v as int, n as nat);
            lemma_get_after_set(
                old(self).bits(),
                T::bit_count(),
                field.lsb as nat,
                n as nat,
                enc as nat,
            );
            vstd::arithmetic::div_mod::lemma_small_mod(enc as nat, pow2(n as nat));
        }
        Ok(())
    }
}

impl<T: RawRegister> From<T> for RegisterValue<T> {
    fn from(value: T) -> (r: Self)
        ensures
            r.raw_value() == value,
            r.bits() == value.value(),
    {
        RegisterValue::from_raw(value)
    }
}

impl<T: RawRegister> FromSpecImpl<T> for RegisterValue<T> {
    open spec fn obeys_from_spec() -> bool {
        true
    }

    open spec fn from_spec(v: T) -> Self {
        Self::holding(v)
    }
}

impl<T: RawRegister> PartialEq<T> for RegisterValue<T> {
    fn eq(&self, other: &T) -> (r: bool) {
        self.eq_raw(*other)
    }
}

impl<T: RawRegister> PartialEqSpecImpl<T> for RegisterValue<T> {
    open spec fn obeys_eq_spec() -> bool {
        true
    }

    open spec fn eq_spec(&self, other: &T) -> bool {
        self.bits() == other.value()
    }
}

impl From<RegisterValue<u8>> for u8 {
    fn from(v: RegisterValue<u8>) -> (r: u8) {
        v.into_raw()
    }
}

impl FromSpecImpl<RegisterValue<u8>> for u8 {
    open spec fn obeys_from_spec() -> bool {
        true
    }

    open spec fn from_spec(v: RegisterValue<u8>) -> u8 {
        v.raw_value()
    }
}

impl From<RegisterValue<u16>> for u16 {
    fn from(v: RegisterValue<u16>) -> (r: u16) {
        v.into_raw()
    }
}

impl FromSpecImpl<RegisterValue<u16>> for u16 {
    open spec fn obeys_from_spec() -> bool {
        true
    }

    open spec fn from_spec(v: RegisterValue<u16>) -> u16 {
        v.raw_value()
    }
}

impl From<RegisterValue<u32>> for u32 {
    fn from(v: RegisterValue<u32>) -> (r: u32) {
        v.into_raw()
    }
}

impl FromSpecImpl<RegisterValue<u32>> for u32 {
    open spec fn obeys_from_spec() -> bool {
        true
    }

    open spec fn from_spec(v: RegisterValue<u32>) -> u32 {
        v.raw_value()
    }
}

impl From<RegisterValue<u64>> for u64 {
    fn from(v: RegisterValue<u64>) -> (r: u64) {
        v.into_raw()
    }
}

impl FromSpecImpl<RegisterValue<u64>> for u64 {
    open spec fn obeys_from_spec() -> bool {
        true
    }

    open spec fn from_spec(v: RegisterValue<u64>) -> u64 {
        v.raw_value()
    }
}

impl From<RegisterValue<u128>> for u128 {
    fn from(v: RegisterValue<u128>) -> (r: u128) {
        v.into_raw()
    }
}

impl FromSpecImpl<RegisterValue<u128>> for u128 {
    open spec fn obeys_from_spec() -> bool {
        true
    }

    open spec fn from_spec(v: RegisterValue<u128>) -> u128 {
        v.raw_value()
    }
}

} // verus!
