//! The fields of a register: their kinds, their bit ranges and what those imply.
use crate::arith::{lemma_pow2_below, lemma_pow2_fits, lemma_width_pow2, pow2_u128, supported_width};
use crate::bitfield::{field_bits, lemma_field_bits_of_zero, lemma_get_after_set, with_field_bits};
use crate::number::Number;
use vstd::arithmetic::div_mod::{lemma_small_mod, lemma_truncate_middle};
use vstd::arithmetic::mul::{lemma_mul_is_commutative, lemma_mul_strict_inequality};
use vstd::arithmetic::power2::{lemma_pow2_adds, lemma_pow2_pos, lemma_pow2_unfold, pow2};
use vstd::prelude::*;

verus! {

/// How the bits of a field are read.
#[derive(Debug, Clone, Copy, PartialEq, Eq, Structural)]
pub enum Typ {
    /// An unsigned integer.
    Unsigned,
    /// A two's complement signed integer.
    Signed,
    /// A single flag. No field declaration names this kind, and it has no accessors.
    Flag,
}

impl Default for Typ {
    fn default() -> (r: Typ)
        ensures
            r == Typ::Unsigned,
    {
        Typ::Unsigned
    }
}

/// The primitive type through which a field's value is read and written.
#[derive(Debug, Clone, Copy, PartialEq, Eq, Structural)]
pub enum IoType {
    /// `bool`.
    Bool,
    /// The unsigned integer type of the given number of bits.
    Unsigned(usize),
    /// The signed integer type of the given number of bits.
    Signed(usize),
}

/// The error of a field declaration whose type names none of the field kinds.
#[derive(Debug, Clone, PartialEq, Eq)]
pub enum FieldError {
    /// The type, as it was written, is not one of `u`, `i` and `b`.
    UnexpectedType(String),
}

/// A field of a register: the bits from `lsb` up to `msb`, both included.
#[derive(Debug, Clone)]
pub struct Field {
    /// The field's name, when it has one.
    pub ident: Option<String>,
    /// How the field's bits are read.
    pub typ: Typ,
    /// The index of the most significant bit.
    pub msb: usize,
    /// The index of the least significant bit.
    pub lsb: usize,
    /// Whether the field can be written.
    pub write: bool,
    /// Whether the field can be read.
    pub read: bool,
}

impl Default for Field {
    fn default() -> (r: Field)
        ensures
            r.ident is None,
            r.typ == Typ::Unsigned,
            r.msb == 15,
            r.lsb == 0,
            r.write,
            r.read,
    {
        Field { ident: None, typ: Typ::default(), msb: 15, lsb: 0, write: true, read: true }
    }
}

/// The field kind that a type name stands for: `u` for unsigned, `i` for signed. No other
/// name declares a field.
pub open spec fn typ_named(name: Seq<char>) -> Option<Typ> {
    if name == "u"@ {
        Some(Typ::Unsigned)
    } else if name == "i"@ {
        Some(Typ::Signed)
    } else {
        None
    }
}

/// Only the names `u` and `i` declare a field: `u` an unsigned one, `i` a signed one, and
/// every other name none.
pub proof fn lemma_only_u_and_i_name_fields()
    ensures
        forall|name: Seq<char>| #[trigger]
            typ_named(name) is Some <==> (name == "u"@ || name == "i"@),
        typ_named("u"@) == Some(Typ::Unsigned),
        typ_named("i"@) == Some(Typ::Signed),
{
    reveal_strlit("u");
    reveal_strlit("i");
    assert("u"@[0] == 'u' && "i"@[0] == 'i');
    assert("u"@ != "i"@);
}

/// The field kind that a declared type stands for, when the type is a plain name.
pub open spec fn named_typ(ty_ident: Option<String>) -> Option<Typ> {
    match ty_ident {
        Some(name) => typ_named(name@),
        None => None,
    }
}

/// Gives a parsed field the kind that its declared type names. `ty_ident` is the type's name
/// when the type is a plain name, and `ty_text` is the type as it was written.
pub fn finish(field: Field, ty_ident: Option<String>, ty_text: String) -> (r: core::result::Result<
    Field,
    FieldError,
>)
    ensures
        named_typ(ty_ident) is Some ==> r == Ok::<Field, FieldError>(
            field.with_typ(named_typ(ty_ident)->Some_0),
        ),
        named_typ(ty_ident) is None ==> r == Err::<Field, FieldError>(
            FieldError::UnexpectedType(ty_text),
        ),
        r is Ok <==> ty_ident is Some && (ty_ident->Some_0@ == "u"@ || ty_ident->Some_0@
            == "i"@),
        r is Ok && ty_ident->Some_0@ == "u"@ ==> r->Ok_0.typ == Typ::Unsigned,
        r is Ok && ty_ident->Some_0@ == "i"@ ==> r->Ok_0.typ == Typ::Signed,
        r is Err ==> r == Err::<Field, FieldError>(FieldError::UnexpectedType(ty_text)),
{
    proof {
        lemma_only_u_and_i_name_fields();
    }
    let typ = match ty_ident {
        Some(name) => {
            let u = "u".to_owned();
            let i = "i".to_owned();
            proof {
                reveal_strlit("u");
                reveal_strlit("i");
            }
            if name == u {
                Some(Typ::Unsigned)
            } else if name == i {
                Some(Typ::Signed)
            } else {
                None
            }
        },
        None => None,
    };
    match typ {
        Some(t) => {
            let mut field = field;
            field.typ = t;
            Ok(field)
        },
        None => Err(FieldError::UnexpectedType(ty_text)),
    }
}

impl Field {
    /// The same field with another kind.
    pub open spec fn with_typ(self, typ: Typ) -> Field {
        Field { typ, ..self }
    }

    /// The number of bits of the field.
    pub open spec fn size(self) -> int {
        self.msb - self.lsb + 1
    }

    /// The number of bits that carry the magnitude of a value: all of them for an unsigned
    /// field, all but the sign bit for a signed one.
    pub open spec fn magnitude_bits(self) -> int {
        if self.typ is Signed {
            self.size() - 1
        } else {
            self.size()
        }
    }

    /// The largest value the field holds.
    pub open spec fn max_value(self) -> int {
        pow2(self.magnitude_bits() as nat) - 1
    }

    /// The smallest value the field holds.
    pub open spec fn min_value(self) -> int {
        if self.typ is Signed {
            -pow2((self.size() - 1) as nat)
        } else {
            0
        }
    }

    /// The bits of the field set, in a register of `width` bits; the bits at or above the
    /// register's top are cut off.
    pub open spec fn mask_value(self, width: nat) -> int {
        ((pow2(self.size() as nat) - 1) * pow2(self.lsb as nat)) % (pow2(width) as int)
    }

    /// The bits of the field but its top bit set.
    pub open spec fn nosignbit_mask_value(self) -> int {
        (pow2((self.size() - 1) as nat) - 1) * pow2(self.lsb as nat)
    }

    /// Whether the masks and bounds of the field can be computed for a register of `width`
    /// bits: the bits are in order, the field is narrower than the register and starts inside
    /// it, and a signed field ends inside it too.
    pub open spec fn fits(self, width: nat) -> bool {
        &&& self.lsb <= self.msb
        &&& self.size() < width
        &&& self.lsb < width
        &&& self.typ is Signed ==> self.msb < width
    }

    /// The number of bits of the field.
    pub fn field_size(&self) -> (r: usize)
        requires
            self.lsb <= self.msb,
            self.msb - self.lsb < usize::MAX,
        ensures
            r == self.size(),
    {
        self.msb - self.lsb + 1
    }

    /// The largest value the field holds, as a number of the register's width.
    pub fn field_max(&self, reg_size: usize) -> (r: Number)
        requires
            supported_width(reg_size as nat),
            !(self.typ is Flag),
            self.lsb <= self.msb,
            self.magnitude_bits() < reg_size,
        ensures
            r.bit_width() == reg_size,
            !r.is_signed(),
            r.value() == self.max_value(),
            self.typ is Signed ==> r.value() == pow2((self.msb - self.lsb) as nat) - 1,
            self.typ is Unsigned ==> r.value() == pow2((self.msb - self.lsb + 1) as nat) - 1,
    {
        let offset: usize = match self.typ {
            Typ::Signed => 1,
            _ => 0,
        };
        let bits = self.field_size() - offset;
        let p = pow2_u128(bits);
        proof {
            lemma_pow2_pos(bits as nat);
            lemma_pow2_below(bits as nat, reg_size as nat);
        }
        Number::unsigned_of_width(reg_size, p - 1)
    }

    /// The smallest value the field holds: zero for an unsigned field, and for a signed one
    /// the negative number of the register's width whose magnitude is one more than the
    /// largest value.
    pub fn field_min(&self, reg_size: usize) -> (r: Number)
        requires
            !(self.typ is Flag),
            self.typ is Signed ==> supported_width(reg_size as nat) && self.lsb <= self.msb
                && self.size() - 1 < reg_size,
        ensures
            self.typ is Unsigned ==> r == Number::U8(0),
            self.typ is Signed ==> r.is_signed() && r.bit_width() == reg_size && r.value()
                == self.min_value(),
            self.typ is Signed ==> r.value() == -pow2((self.msb - self.lsb) as nat),
    {
        if self.typ == Typ::Unsigned {
            return Number::U8(0);
        }
        let bits = self.field_size() - 1;
        let p = pow2_u128(bits);
        proof {
            lemma_pow2_pos(bits as nat);
            lemma_pow2_below(bits as nat, reg_size as nat);
            lemma_pow2_fits(bits as nat);
            lemma_width_pow2(reg_size as nat);
        }
        let v: i128 = -((p - 1) as i128) - 1;
        Number::signed_of_width(reg_size, v)
    }

    /// The bits of the field set, in a number of the register's width. Where the field runs
    /// past the register's top bit, those bits are cut off.
    pub fn field_mask(&self, reg_size: usize) -> (r: Number)
        requires
            supported_width(reg_size as nat),
            self.lsb <= self.msb,
            self.size() < reg_size,
            self.lsb < reg_size,
        ensures
            r.bit_width() == reg_size,
            !r.is_signed(),
            r.value() == self.mask_value(reg_size as nat),
    {
        let size = self.field_size();
        let pz = pow2_u128(size);
        let ones = pz - 1;
        let p = pow2_u128(self.lsb);
        let ghost w = reg_size as nat;
        proof {
            lemma_pow2_pos(size as nat);
            lemma_pow2_pos(self.lsb as nat);
            lemma_pow2_pos(w);
            lemma_width_pow2(w);
            lemma_pow2_fits(self.lsb as nat);
        }
        let m: u128 = if self.msb < reg_size {
            proof {
                lemma_pow2_adds(size as nat, self.lsb as nat);
                lemma_mul_strict_inequality(ones as int, pow2(size as nat) as int, p as int);
                if self.msb + 1 < reg_size {
                    lemma_pow2_below((self.msb + 1) as nat, w);
                }
                lemma_small_mod((ones * p) as nat, pow2(w));
            }
            ones * p
        } else {
            let c = pow2_u128(reg_size - self.lsb);
            proof {
                lemma_pow2_adds(self.lsb as nat, (w - self.lsb) as nat);
                lemma_pow2_pos((w - self.lsb) as nat);
                lemma_truncate_middle(ones as int, p as int, c as int);
                lemma_mul_is_commutative(ones as int, p as int);
                lemma_mul_strict_inequality((ones % c) as int, c as int, p as int);
                lemma_mul_is_commutative((ones % c) as int, p as int);
                lemma_mul_is_commutative(c as int, p as int);
            }
            (ones % c) * p
        };
        Number::unsigned_of_width(reg_size, m)
    }

    /// The bits of a signed field but its sign bit set, in a number of the register's width.
    pub fn signed_field_mask_nosignbit(&self, reg_size: usize) -> (r: Number)
        requires
            self.typ is Signed,
            supported_width(reg_size as nat),
            self.lsb <= self.msb < reg_size,
            self.size() < reg_size,
        ensures
            r.bit_width() == reg_size,
            !r.is_signed(),
            r.value() == self.nosignbit_mask_value(),
    {
        let bits = self.field_size() - 1;
        let pb = pow2_u128(bits);
        let ones = pb - 1;
        let p = pow2_u128(self.lsb);
        let ghost w = reg_size as nat;
        proof {
            lemma_pow2_pos(bits as nat);
            lemma_pow2_pos(self.lsb as nat);
            lemma_width_pow2(w);
            lemma_pow2_adds(bits as nat, self.lsb as nat);
            lemma_mul_strict_inequality(ones as int, pow2(bits as nat) as int, p as int);
            lemma_pow2_below(self.msb as nat, w);
        }
        Number::unsigned_of_width(reg_size, ones * p)
    }

    /// The primitive type of the field's values in a register of `reg_size` bits.
    pub fn io_ty(&self, reg_size: usize) -> (r: IoType)
        requires
            self.typ is Flag || supported_width(reg_size as nat),
        ensures
            r == (if self.typ is Flag {
                IoType::Bool
            } else if self.typ is Signed {
                IoType::Signed(reg_size)
            } else {
                IoType::Unsigned(reg_size)
            }),
    {
        if self.typ == Typ::Flag {
            return IoType::Bool;
        }
        if self.typ == Typ::Signed {
            crate::util::sign(reg_size)
        } else {
            crate::util::unsign(reg_size)
        }
    }
}

/// The smallest value of a field is the bitwise complement of its largest one: zero for an
/// unsigned field, and one less than the negated largest value for a signed one.
pub proof fn lemma_min_is_complement_of_max(field: Field)
    requires
        !(field.typ is Flag),
        field.lsb <= field.msb,
    ensures
        field.typ is Unsigned ==> field.min_value() == 0,
        field.typ is Signed ==> field.min_value() == -field.max_value() - 1,
{
}

/// The mask of a field that lies inside the register is the zero register with all the
/// field's bits set.
pub proof fn lemma_mask_is_full_field(field: Field, width: nat)
    requires
        field.lsb <= field.msb < width,
    ensures
        field.mask_value(width) == with_field_bits(
            0,
            width,
            field.lsb as nat,
            field.size() as nat,
            (pow2(field.size() as nat) - 1) as nat,
        ),
        field_bits(field.mask_value(width) as nat, field.lsb as nat, field.size() as nat) == pow2(
            field.size() as nat,
        ) - 1,
{
    let n = field.size() as nat;
    let lsb = field.lsb as nat;
    lemma_pow2_pos(n);
    lemma_pow2_pos(width);
    lemma_field_bits_of_zero(lsb, n);
    lemma_get_after_set(0, width, lsb, n, (pow2(n) - 1) as nat);
}

/// A signed field's mask is its mask without the sign bit, plus the sign bit.
pub proof fn lemma_mask_splits_at_sign_bit(field: Field, width: nat)
    requires
        field.lsb <= field.msb < width,
    ensures
        field.mask_value(width) == field.nosignbit_mask_value() + pow2(field.msb as nat),
{
    let n = field.size() as nat;
    let lsb = field.lsb as nat;
    let p = pow2(lsb) as int;
    let h = pow2((n - 1) as nat) as int;
    lemma_pow2_pos(n);
    lemma_pow2_pos(lsb);
    lemma_pow2_unfold(n);
    lemma_pow2_adds(lsb, (n - 1) as nat);
    lemma_pow2_adds(lsb, n);
    if field.msb + 1 < width {
        lemma_pow2_below((field.msb + 1) as nat, width);
    }
    assert((2 * h - 1) * p == (h - 1) * p + h * p && (2 * h - 1) * p < 2 * h * p) by (
    nonlinear_arith)
        requires
            p > 0,
            h > 0,
    ;
    assert(h * p == p * h) by (nonlinear_arith);
    assert(2 * h * p == p * (2 * h)) by (nonlinear_arith);
    lemma_small_mod(((2 * h - 1) * p) as nat, pow2(width));
}

/// The bounds of a field of `n` bits: an unsigned field holds `0` to `2^n - 1`, a signed one
/// holds the `n`-bit two's complement range `-2^(n-1)` to `2^(n-1) - 1`.
pub proof fn lemma_field_bounds(field: Field)
    requires
        field.lsb <= field.msb,
    ensures
        field.typ is Unsigned ==> field.min_value() == 0 && field.max_value() == pow2(
            (field.msb - field.lsb + 1) as nat,
        ) - 1,
        field.typ is Signed ==> field.min_value() == -pow2((field.msb - field.lsb) as nat)
            && field.max_value() == pow2((field.msb - field.lsb) as nat) - 1,
{
}

} // verus!
