use registers::number::Number;

#[test]
fn numbers_compare_by_value() {
    assert!(Number::U8(200) == 200u128);
    assert!(Number::U8(200) != 201u128);
    assert!(Number::I8(-1) != u128::MAX);
    assert!(Number::I8(-1) == -1i128);
    assert!(Number::I64(5) == 5u128);
    assert!(Number::U128(u128::MAX) != -1i128);
    assert!(Number::U128(7) == 7i128);
    assert!(Number::I128(i128::MIN) == i128::MIN);
    assert!(Number::U16(0xFFFF) == 0xFFFFi128);
    assert!(Number::U32(0) == 0u128);
}

#[test]
fn numbers_of_a_width() {
    assert!(matches!(Number::unsigned_of_width(8, 255), Number::U8(255)));
    assert!(matches!(Number::unsigned_of_width(64, 3), Number::U64(3)));
    assert!(matches!(Number::signed_of_width(16, -3), Number::I16(-3)));
    assert!(matches!(Number::signed_of_width(128, -3), Number::I128(-3)));
}
