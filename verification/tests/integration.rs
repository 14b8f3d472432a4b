use registers::field::{Field, Typ};
use registers::value::RegisterValue;

#[allow(clippy::upper_case_acronyms)]
type HIF1 = RegisterValue<u32>;

fn field(name: &str, typ: Typ, lsb: usize, msb: usize) -> Field {
    Field {
        ident: Some(name.to_string()),
        typ,
        msb,
        lsb,
        write: true,
        read: true,
    }
}

fn lower() -> Field {
    field("lower", Typ::Unsigned, 0, 15)
}

fn upper() -> Field {
    field("upper", Typ::Unsigned, 16, 31)
}

#[test]
pub fn test_get() {
    let reg = HIF1::from(0xDEADBEEF);
    let upper = reg.get_unsigned(&upper());
    let lower = reg.get_unsigned(&lower());

    assert_eq!(upper, 0xDEAD);
    assert_eq!(lower, 0xBEEF);
}

#[test]
fn test_set() -> registers::Result<()> {
    let mut reg = HIF1::new();
    assert_eq!(reg.get_unsigned(&upper()), 0);
    assert_eq!(reg.get_unsigned(&lower()), 0);

    reg.set_unsigned(&upper(), 0xDEAD)?;
    reg.set_unsigned(&lower(), 0xBEEF)?;

    assert_eq!(reg.get_unsigned(&upper()), 0xDEAD);
    assert_eq!(reg.get_unsigned(&lower()), 0xBEEF);

    assert_eq!(
        reg.set_unsigned(&upper(), 0x1_0000),
        Err(registers::Error::OutOfBoundsFieldWrite)
    );
    assert_eq!(
        reg.set_unsigned(&lower(), 0x1_0000),
        Err(registers::Error::OutOfBoundsFieldWrite)
    );

    assert_eq!(reg.get_unsigned(&upper()), 0xDEAD);
    assert_eq!(reg.get_unsigned(&lower()), 0xBEEF);

    Ok(())
}

#[test]
fn test_new() {
    let reg = HIF1::new();
    assert_eq!(reg, 0);
}

#[test]
fn integration_test_from() {
    let reg: HIF1 = 0xDEADBEEF.into();

    assert_eq!(reg.get_unsigned(&upper()), 0xDEAD);
    assert_eq!(reg.get_unsigned(&lower()), 0xBEEF);

    let reg = HIF1::from(0xDEADBEEF);

    assert_eq!(reg.get_unsigned(&upper()), 0xDEAD);
    assert_eq!(reg.get_unsigned(&lower()), 0xBEEF);
}

#[test]
fn integration_test_into() {
    let reg = HIF1::from(0xDEADBEEF);
    assert_eq!(<HIF1 as Into<u32>>::into(reg), 0xDEADBEEF);
}

#[test]
fn integration_test_clear() {
    let mut reg = HIF1::from(0xDEADBEEF);
    reg.clear();
    assert_eq!(<HIF1 as Into<u32>>::into(reg), 0);
}

#[test]
fn test_eq() {
    let reg = HIF1::from(0xDEADBEEF);
    assert_eq!(reg, 0xDEADBEEF);
}

#[test]
fn test_clone() {
    let reg = HIF1::from(0xDEADBEEF);
    assert_eq!(reg.clone(), 0xDEADBEEF);
}

#[test]
fn test_signed() {
    let lower = field("lower", Typ::Signed, 0, 15);
    let upper = field("upper", Typ::Unsigned, 16, 31);
    let mut reg = RegisterValue::<u32>::new();
    assert!(reg.set_signed(&lower, i16::MIN.into()).is_ok());

    assert_eq!(reg.get_unsigned(&upper), 0);
    assert_eq!(reg.get_signed(&lower), i16::MIN.into());

    assert!(reg.set_unsigned(&upper, u16::MAX.into()).is_ok());
    assert_eq!(reg.get_unsigned(&upper), u16::MAX.into());
    assert_eq!(reg.get_signed(&lower), i16::MIN.into());
}

#[test]
fn test_nonstd_signed() {
    let lower_four = field("lower_four", Typ::Signed, 0, 3);
    let reserved = field("reserved", Typ::Unsigned, 4, 31);
    let mut reg = RegisterValue::<u32>::new();

    assert!(reg.set_signed(&lower_four, -8).is_ok());
    assert_eq!(reg.get_signed(&lower_four), -8);
    assert_eq!(reg.get_unsigned(&reserved), 0);

    assert!(reg.set_signed(&lower_four, -5).is_ok());
    assert_eq!(reg.get_signed(&lower_four), -5);
    assert_eq!(reg.get_unsigned(&reserved), 0);

    assert!(reg.set_signed(&lower_four, 7).is_ok());
    assert_eq!(reg.get_signed(&lower_four), 7);
    assert_eq!(reg.get_unsigned(&reserved), 0);
}

#[test]
fn test_size() {
    assert_eq!(size_of::<HIF1>(), size_of::<u32>());
}
