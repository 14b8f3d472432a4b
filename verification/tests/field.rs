use registers::field::{finish, Field, FieldError, IoType, Typ};
use registers::number::Number;

fn unsigned_field(msb: usize, lsb: usize) -> Field {
    Field {
        msb,
        lsb,
        typ: Typ::Unsigned,
        ..Default::default()
    }
}

fn signed_field(msb: usize, lsb: usize) -> Field {
    Field {
        msb,
        lsb,
        typ: Typ::Signed,
        ..Default::default()
    }
}

#[test]
fn field_test_field_max() {
    let field = unsigned_field(3, 0);
    assert_eq!(field.field_max(32), 15u128);

    let field = signed_field(16, 10);
    assert_eq!(field.field_max(32), 63u128);
}

#[test]
fn field_test_field_min() {
    let field = unsigned_field(3, 0);
    assert_eq!(field.field_min(32), 0u128);

    let field = signed_field(16, 10);
    assert_eq!(field.field_min(32), -64i128);
}

#[test]
fn field_test_field_size() {
    let field = unsigned_field(3, 0);
    assert_eq!(field.field_size(), 4);

    let field = signed_field(16, 10);
    assert_eq!(field.field_size(), 7);
}

#[test]
fn field_test_field_mask() {
    let field = unsigned_field(3, 0);
    assert_eq!(field.field_mask(32), 0b1111u128);

    let field = signed_field(16, 10);
    assert_eq!(field.field_mask(32), 0b1_1111_1100_0000_0000u128);

    let field = signed_field(15, 1);
    assert!(matches!(
        field.field_mask(16),
        Number::U16(0b1111_1111_1111_1110)
    ));
}

#[test]
fn field_test_signed_abs_field_mask() {
    let field = signed_field(3, 0);
    assert_eq!(field.signed_field_mask_nosignbit(32), 0b0111u128);

    let field = signed_field(16, 10);
    assert_eq!(
        field.signed_field_mask_nosignbit(32),
        0b0_1111_1100_0000_0000u128
    );

    let field = signed_field(15, 1);
    assert!(matches!(
        field.signed_field_mask_nosignbit(16),
        Number::U16(0b0111_1111_1111_1110)
    ));
}

#[test]
fn test_from_field() {
    let parsed = Field {
        ident: Some("foo".to_string()),
        msb: 15,
        lsb: 0,
        ..Default::default()
    };
    let field = finish(parsed.clone(), Some("i".to_string()), "i".to_string())
        .expect("Failed to parse");
    assert_eq!(field.ident.map(|i| i.to_string()), Some("foo".to_string()));
    assert_eq!(field.lsb, 0);
    assert_eq!(field.msb, 15);
    assert!(field.typ == Typ::Signed);

    assert!(finish(parsed, Some("i32".to_string()), "i32".to_string()).is_err());
}

#[test]
fn common_test_field_max() {
    let field = unsigned_field(3, 0);
    assert_eq!(field.field_max(32), 15u128);

    let field = signed_field(16, 10);
    assert_eq!(field.field_max(32), 63u128);
}

#[test]
fn common_test_field_min() {
    let field = unsigned_field(3, 0);
    assert_eq!(field.field_min(32), 0u128);

    let field = signed_field(16, 10);
    assert_eq!(field.field_min(32), -64i128);
}

#[test]
fn common_test_field_size() {
    let field = unsigned_field(3, 0);
    assert_eq!(field.field_size(), 4);

    let field = signed_field(16, 10);
    assert_eq!(field.field_size(), 7);
}

#[test]
fn common_test_field_mask() {
    let field = unsigned_field(3, 0);
    assert_eq!(field.field_mask(32), 0b1111u128);

    let field = signed_field(16, 10);
    assert_eq!(field.field_mask(32), 0b1_1111_1100_0000_0000u128);
}

#[test]
fn common_test_signed_abs_field_mask() {
    let field = signed_field(3, 0);
    assert_eq!(field.signed_field_mask_nosignbit(32), 0b0111u128);

    let field = signed_field(16, 10);
    assert_eq!(
        field.signed_field_mask_nosignbit(32),
        0b0_1111_1100_0000_0000u128
    );
}

#[test]
fn finish_accepts_only_u_and_i() {
    let base = Field::default();
    let unsigned = finish(base.clone(), Some("u".to_string()), "u".to_string()).unwrap();
    assert!(unsigned.typ == Typ::Unsigned);
    assert_eq!(
        finish(base.clone(), Some("b".to_string()), "b".to_string()).unwrap_err(),
        FieldError::UnexpectedType("b".to_string())
    );
    assert_eq!(
        finish(base.clone(), Some("u32".to_string()), "u32".to_string()).unwrap_err(),
        FieldError::UnexpectedType("u32".to_string())
    );
    assert_eq!(
        finish(base, None, "[u8; 4]".to_string()).unwrap_err(),
        FieldError::UnexpectedType("[u8; 4]".to_string())
    );
}

#[test]
fn field_default_values() {
    let field = Field::default();
    assert_eq!(field.ident, None);
    assert!(field.typ == Typ::Unsigned);
    assert_eq!(field.msb, 15);
    assert_eq!(field.lsb, 0);
    assert!(field.write);
    assert!(field.read);
    assert!(Typ::default() == Typ::Unsigned);
}

#[test]
fn io_ty_follows_kind_and_width() {
    assert_eq!(unsigned_field(3, 0).io_ty(16), IoType::Unsigned(16));
    assert_eq!(signed_field(3, 0).io_ty(64), IoType::Signed(64));
    let flag = Field {
        typ: Typ::Flag,
        ..Default::default()
    };
    assert_eq!(flag.io_ty(7), IoType::Bool);
}

#[test]
fn field_mask_cuts_bits_past_the_top() {
    // Bits 5 to 9 of an 8-bit register: bits 8 and 9 are cut off.
    let field = unsigned_field(9, 5);
    assert!(matches!(field.field_mask(8), Number::U8(0b1110_0000)));
}

#[test]
fn field_bounds_for_each_width() {
    let field = signed_field(7, 1);
    assert!(matches!(field.field_max(8), Number::U8(63)));
    assert!(matches!(field.field_min(8), Number::I8(-64)));
    assert!(matches!(field.field_min(128), Number::I128(-64)));
    let wide = unsigned_field(126, 0);
    assert_eq!(wide.field_max(128), (1u128 << 127) - 1);
    let unsigned = unsigned_field(3, 0);
    assert!(matches!(unsigned.field_min(64), Number::U8(0)));
}
