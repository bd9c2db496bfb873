use oaidl::types::{Currency, Date, DecParts, DecWrapper, Int, SCode, UInt, VariantBool,
    VARIANT_TRUE};
use rust_decimal::Decimal;

#[test]
fn c_decimal() {
    let d = Decimal::new(0xFFFFFFFFFFFF, 0);
    let d = d * Decimal::new(0xFFFFFFFF, 0);
    assert_eq!(d.is_sign_positive(), true);
    assert_eq!(format!("{}", d), "1208925819333149903028225");

    let c = DecWrapper::build_c_decimal(&d);
    assert_eq!(c.hi32, 65535);
    assert_eq!(c.lo64, 18446462594437873665);
    assert_eq!(c.scale, 0);
    assert_eq!(c.sign, 0);
}

#[test]
fn rust_decimal_from() {
    let d = DecParts { scale: 0, sign: 0, hi32: 65535, lo64: 18446462594437873665 };
    let new_d = DecWrapper::build_rust_decimal(&d);
    assert_eq!(format!("{}", new_d), "1208925819333149903028225");
}

#[test]
fn variant_bool() {
    let vb = VariantBool::from(true);
    let pvb = vb.raw();
    assert_eq!(VARIANT_TRUE, pvb);

    let vb = VariantBool::from(false);
    let pvb = vb.raw();
    assert_ne!(VARIANT_TRUE, pvb);
}

#[test]
fn types_test_send() {
    fn assert_send<T: Send>() {}
    assert_send::<Currency>();
    assert_send::<Date>();
    assert_send::<DecWrapper>();
    assert_send::<Int>();
    assert_send::<SCode>();
    assert_send::<UInt>();
    assert_send::<VariantBool>();
}

#[test]
fn types_test_sync() {
    fn assert_sync<T: Sync>() {}
    assert_sync::<Currency>();
    assert_sync::<Date>();
    assert_sync::<DecWrapper>();
    assert_sync::<Int>();
    assert_sync::<SCode>();
    assert_sync::<UInt>();
    assert_sync::<VariantBool>();
}
