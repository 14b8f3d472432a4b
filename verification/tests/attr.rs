use registers::field::{Field, Typ};
use registers::value::RegisterValue;

#[allow(clippy::upper_case_acronyms)]
type HIF1 = RegisterValue<u32>;

fn lower() -> Field {
    Field {
        ident: Some("lower".to_string()),
        typ: Typ::Unsigned,
        msb: 15,
        lsb: 0,
        write: false,
        read: true,
    }
}

fn upper() -> Field {
    Field {
        ident: Some("upper".to_string()),
        typ: Typ::Unsigned,
        msb: 31,
        lsb: 16,
        write: true,
        read: true,
    }
}

#[test]
pub fn test_attr() -> Result<(), registers::Error> {
    let mut reg = HIF1::from_raw(0xDEADBEEF);
    let upper_value = reg.get_unsigned(&upper());
    let lower_value = reg.get_unsigned(&lower());

    assert_eq!(upper_value, 0xDEAD);
    assert_eq!(lower_value, 0xBEEF);

    assert!(reg.set_unsigned(&upper(), 0xFFFF).is_ok());

    assert_eq!(reg.get_unsigned(&upper()), 0xFFFF);

    assert!(reg.set_unsigned(&upper(), 0xDEADF).is_err());

    assert_eq!(reg.get_unsigned(&upper()), 0xFFFF);

    assert_eq!(reg.get_unsigned(&lower()), 0xBEEF);

    Ok(())
}

#[test]
fn attr_test_from() {
    let reg: HIF1 = 0xDEADBEEF.into();

    assert_eq!(reg.get_unsigned(&upper()), 0xDEAD);
    assert_eq!(reg.get_unsigned(&lower()), 0xBEEF);

    let reg = HIF1::from(0xDEADBEEF);

    assert_eq!(reg.get_unsigned(&upper()), 0xDEAD);
    assert_eq!(reg.get_unsigned(&lower()), 0xBEEF);
}

#[test]
fn attr_test_into() {
    let reg = HIF1::from_raw(0xDEADBEEF);
    assert_eq!(<HIF1 as Into<u32>>::into(reg), 0xDEADBEEF);
}

#[test]
fn attr_test_clear() {
    let mut reg = HIF1::from_raw(0xDEADBEEF);
    reg.clear();
    assert_eq!(<HIF1 as Into<u32>>::into(reg), 0);
}
