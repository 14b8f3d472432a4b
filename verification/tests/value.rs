use registers::field::{Field, Typ};
use registers::value::RegisterValue;

fn field(typ: Typ, lsb: usize, msb: usize) -> Field {
    Field {
        ident: None,
        typ,
        msb,
        lsb,
        write: true,
        read: true,
    }
}

#[test]
fn get_after_set_gives_the_value_back() {
    let f = field(Typ::Unsigned, 3, 9);
    let mut reg = RegisterValue::<u16>::from_raw(0xFFFF);
    assert!(reg.set_unsigned(&f, 0x55).is_ok());
    assert_eq!(reg.get_unsigned(&f), 0x55);
    assert_eq!(reg.raw(), 0xFEAF);
}

#[test]
fn set_keeps_other_fields() {
    let a = field(Typ::Unsigned, 0, 7);
    let b = field(Typ::Unsigned, 8, 15);
    let c = field(Typ::Signed, 16, 23);
    let d = field(Typ::Unsigned, 24, 63);
    let mut reg = RegisterValue::<u64>::from_raw(0x0123_4567_89AB_CDEF);
    assert!(reg.set_unsigned(&b, 0x11).is_ok());
    assert_eq!(reg.get_unsigned(&a), 0xEF);
    assert_eq!(reg.get_signed(&c), -85);
    assert_eq!(reg.get_unsigned(&d), 0x01_2345_6789);
    assert_eq!(reg.raw(), 0x0123_4567_89AB_11EF);
}

#[test]
fn refused_write_leaves_the_register() {
    let f = field(Typ::Signed, 4, 7);
    let mut reg = RegisterValue::<u8>::from_raw(0xA5);
    assert_eq!(
        reg.set_signed(&f, 8),
        Err(registers::Error::OutOfBoundsFieldWrite)
    );
    assert_eq!(
        reg.set_signed(&f, -9),
        Err(registers::Error::OutOfBoundsFieldWrite)
    );
    assert_eq!(reg.raw(), 0xA5);
    assert!(reg.set_signed(&f, -8).is_ok());
    assert_eq!(reg.raw(), 0x85);
    assert_eq!(reg.get_signed(&f), -8);
}

#[test]
fn writing_the_current_value_changes_nothing() {
    let f = field(Typ::Unsigned, 5, 12);
    let mut reg = RegisterValue::<u32>::from_raw(0xDEADBEEF);
    let current = reg.get_unsigned(&f);
    assert!(reg.set_unsigned(&f, current).is_ok());
    assert_eq!(reg, 0xDEADBEEF);
}

#[test]
fn second_write_counts() {
    let f = field(Typ::Unsigned, 100, 110);
    let mut reg = RegisterValue::<u128>::from_raw(u128::MAX);
    assert!(reg.set_unsigned(&f, 3).is_ok());
    assert!(reg.set_unsigned(&f, 0x7FF).is_ok());
    assert_eq!(reg, u128::MAX);
    assert!(reg.set_unsigned(&f, 0x800).is_err());
}

#[test]
fn field_past_the_top_loses_the_high_bits() {
    // Bits 5 to 9 of an 8-bit register: only bits 5 to 7 exist.
    let f = field(Typ::Unsigned, 5, 9);
    let mut reg = RegisterValue::<u8>::from_raw(0xFF);
    assert_eq!(reg.get_unsigned(&f), 0b111);
    assert!(reg.set_unsigned(&f, 0b1_1010).is_ok());
    assert_eq!(reg.raw(), 0b0101_1111);
    assert_eq!(reg.get_unsigned(&f), 0b010);
}

#[test]
fn new_and_cleared_registers_read_zero() {
    let f = field(Typ::Signed, 2, 6);
    let mut reg = RegisterValue::<u16>::new();
    assert_eq!(reg.get_signed(&f), 0);
    reg = RegisterValue::from_raw(0x7C);
    assert_eq!(reg.get_signed(&f), -1);
    reg.clear();
    assert_eq!(reg.raw(), 0);
    assert_eq!(reg.get_signed(&f), 0);
}

#[test]
fn signed_wide_registers() {
    let f = field(Typ::Signed, 1, 127);
    let mut reg = RegisterValue::<u128>::new();
    assert!(reg.set_signed(&f, i128::MIN / 2).is_ok());
    assert_eq!(reg.get_signed(&f), i128::MIN / 2);
    assert_eq!(reg.raw(), 1u128 << 127);
    assert!(reg.set_signed(&f, i128::MAX / 2).is_ok());
    assert_eq!(reg.get_signed(&f), i128::MAX / 2);
    assert!(reg.set_signed(&f, i128::MAX / 2 + 1).is_err());
}

#[test]
fn into_gives_the_bits_back() {
    let reg = RegisterValue::<u64>::from(0x8000_0000_0000_0001);
    assert!(reg.eq_raw(0x8000_0000_0000_0001));
    assert_eq!(u64::from(reg), 0x8000_0000_0000_0001);
    assert_eq!(reg.into_raw(), 0x8000_0000_0000_0001);
}

#[test]
fn from_holds_the_given_bits() {
    let reg = RegisterValue::<u32>::from(5);
    assert_eq!(reg.raw(), 5);
    assert_eq!(reg, 5);
}

#[test]
fn disjoint_writes_commute() {
    let f = field(Typ::Unsigned, 2, 9);
    let g = field(Typ::Signed, 12, 15);
    let mut one = RegisterValue::<u16>::from_raw(0xA5A5);
    let mut two = one;
    assert!(one.set_unsigned(&f, 0x3C).is_ok());
    assert!(one.set_signed(&g, -3).is_ok());
    assert!(two.set_signed(&g, -3).is_ok());
    assert!(two.set_unsigned(&f, 0x3C).is_ok());
    assert_eq!(one.raw(), two.raw());
    assert_eq!(one.get_unsigned(&f), 0x3C);
    assert_eq!(one.get_signed(&g), -3);
}
