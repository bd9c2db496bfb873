use oaidl::host::Host;
use oaidl::record::{Slot, VT_BOOL, VT_BSTR, VT_CY, VT_DATE, VT_EMPTY, VT_ERROR, VT_I1, VT_I2,
    VT_I4, VT_I8, VT_INT, VT_NULL, VT_PBOOL, VT_PCY, VT_PDATE, VT_PERROR, VT_PI1, VT_PI2, VT_PI4,
    VT_PI8, VT_PR4, VT_PR8, VT_PUI1, VT_PUI2, VT_PUI4, VT_PUI8, VT_UI1, VT_UI2, VT_UI4, VT_UI8,
    VT_UINT, VT_VARIANT};
use oaidl::types::{Currency, Date, DecWrapper, Int, SCode, UInt, VariantBool};
use oaidl::variant::{decode_bool, decode_box_bool, decode_box_cy, decode_box_date,
    decode_box_f32_bits, decode_box_f64_bits, decode_box_i16, decode_box_i32, decode_box_i64,
    decode_box_i8, decode_box_scode, decode_box_u16, decode_box_u32, decode_box_u64,
    decode_box_u8, decode_cy, decode_date, decode_decimal, decode_empty, decode_f32_bits,
    decode_f64_bits, decode_i16, decode_i32, decode_i64, decode_i8, decode_int, decode_nested,
    decode_null, decode_scode, decode_string, decode_u16, decode_u32, decode_u64, decode_u8,
    decode_uint, encode_bool, encode_box_bool, encode_box_cy, encode_box_date,
    encode_box_f32_bits, encode_box_f64_bits, encode_box_i16, encode_box_i32, encode_box_i64,
    encode_box_i8, encode_box_scode, encode_box_u16, encode_box_u32, encode_box_u64,
    encode_box_u8, encode_cy, encode_date, encode_decimal, encode_empty, encode_f32_bits,
    encode_f64_bits, encode_i16, encode_i32, encode_i64, encode_i8, encode_int, encode_nested,
    encode_null, encode_string, encode_scode, encode_u16, encode_u32, encode_u64, encode_u8,
    encode_uint, Variant, Variants, VtEmpty, VtNull};
use rust_decimal::Decimal;
use widestring::U16String;

#[test]
fn test_i64() {
    let mut host = Host::new();
    let var = encode_i64(&mut host, 1337i64).unwrap();
    assert_eq!(var.as_ptr().vt as u32, VT_I8);
    assert_eq!(decode_i64(&mut host, var).unwrap(), 1337i64);
}

#[test]
fn variant_test_i32() {
    let mut host = Host::new();
    let var = encode_i32(&mut host, 1337i32).unwrap();
    assert_eq!(var.as_ptr().vt as u32, VT_I4);
    assert_eq!(decode_i32(&mut host, var).unwrap(), 1337i32);
}

#[test]
fn variant_test_u8() {
    let mut host = Host::new();
    let var = encode_u8(&mut host, 137u8).unwrap();
    assert_eq!(var.as_ptr().vt as u32, VT_UI1);
    assert_eq!(decode_u8(&mut host, var).unwrap(), 137u8);
}

#[test]
fn variant_test_i16() {
    let mut host = Host::new();
    let var = encode_i16(&mut host, 1337i16).unwrap();
    assert_eq!(var.as_ptr().vt as u32, VT_I2);
    assert_eq!(decode_i16(&mut host, var).unwrap(), 1337i16);
}

#[test]
fn variant_test_f32() {
    let mut host = Host::new();
    let v = 1337.9f32;
    let var = encode_f32_bits(&mut host, v.to_bits()).unwrap();
    assert_eq!(var.as_ptr().vt as u32, oaidl::record::VT_R4);
    assert_eq!(f32::from_bits(decode_f32_bits(&mut host, var).unwrap()), v);
}

#[test]
fn variant_test_f64() {
    let mut host = Host::new();
    let v = 1337.9f64;
    let var = encode_f64_bits(&mut host, v.to_bits()).unwrap();
    assert_eq!(var.as_ptr().vt as u32, oaidl::record::VT_R8);
    assert_eq!(f64::from_bits(decode_f64_bits(&mut host, var).unwrap()), v);
}

#[test]
fn test_bool_t() {
    let mut host = Host::new();
    let var = encode_bool(&mut host, VariantBool::from(true)).unwrap();
    assert_eq!(var.as_ptr().vt as u32, VT_BOOL);
    assert_eq!(decode_bool(&mut host, var).unwrap(), VariantBool::from(true));
}

#[test]
fn test_bool_f() {
    let mut host = Host::new();
    let var = encode_bool(&mut host, VariantBool::from(false)).unwrap();
    assert_eq!(var.as_ptr().vt as u32, VT_BOOL);
    assert_eq!(decode_bool(&mut host, var).unwrap(), VariantBool::from(false));
}

#[test]
fn variant_test_scode() {
    let mut host = Host::new();
    let var = encode_scode(&mut host, SCode::from(137)).unwrap();
    assert_eq!(var.as_ptr().vt as u32, VT_ERROR);
    assert_eq!(decode_scode(&mut host, var).unwrap(), SCode::from(137));
}

#[test]
fn variant_test_cy() {
    let mut host = Host::new();
    let var = encode_cy(&mut host, Currency::from(137)).unwrap();
    assert_eq!(var.as_ptr().vt as u32, VT_CY);
    assert_eq!(decode_cy(&mut host, var).unwrap(), Currency::from(137));
}

#[test]
fn variant_test_date() {
    let mut host = Host::new();
    let d = Date::from_bits(137.7f64.to_bits());
    let var = encode_date(&mut host, d).unwrap();
    assert_eq!(var.as_ptr().vt as u32, VT_DATE);
    assert_eq!(decode_date(&mut host, var).unwrap(), d);
}

#[test]
fn variant_test_str() {
    let mut host = Host::new();
    let s = U16String::from_str("testing abc1267 ?\u{164}\u{169}\u{159}\u{1d0}\u{a765}\u{a794}");
    let var = encode_string(&mut host, &s).unwrap();
    assert_eq!(var.as_ptr().vt as u32, VT_BSTR);
    assert_eq!(decode_string(&mut host, var).unwrap(), s);
}

#[test]
fn test_box_u8() {
    let mut host = Host::new();
    let var = encode_box_u8(&mut host, Box::new(139)).unwrap();
    assert_eq!(var.as_ptr().vt as u32, VT_PUI1);
    assert_eq!(decode_box_u8(&mut host, var).unwrap(), Box::new(139));
}

#[test]
fn test_box_i16() {
    let mut host = Host::new();
    let var = encode_box_i16(&mut host, Box::new(139)).unwrap();
    assert_eq!(var.as_ptr().vt as u32, VT_PI2);
    assert_eq!(decode_box_i16(&mut host, var).unwrap(), Box::new(139));
}

#[test]
fn test_box_i32() {
    let mut host = Host::new();
    let var = encode_box_i32(&mut host, Box::new(139)).unwrap();
    assert_eq!(var.as_ptr().vt as u32, VT_PI4);
    assert_eq!(decode_box_i32(&mut host, var).unwrap(), Box::new(139));
}

#[test]
fn test_box_i64() {
    let mut host = Host::new();
    let var = encode_box_i64(&mut host, Box::new(139)).unwrap();
    assert_eq!(var.as_ptr().vt as u32, VT_PI8);
    assert_eq!(decode_box_i64(&mut host, var).unwrap(), Box::new(139));
}

#[test]
fn test_box_f32() {
    let mut host = Host::new();
    let v = 1337.9f32;
    let var = encode_box_f32_bits(&mut host, Box::new(v.to_bits())).unwrap();
    assert_eq!(var.as_ptr().vt as u32, VT_PR4);
    assert_eq!(f32::from_bits(*decode_box_f32_bits(&mut host, var).unwrap()), v);
}

#[test]
fn test_box_f64() {
    let mut host = Host::new();
    let v = 1337.9f64;
    let var = encode_box_f64_bits(&mut host, Box::new(v.to_bits())).unwrap();
    assert_eq!(var.as_ptr().vt as u32, VT_PR8);
    assert_eq!(f64::from_bits(*decode_box_f64_bits(&mut host, var).unwrap()), v);
}

#[test]
fn test_box_bool() {
    let mut host = Host::new();
    let var = encode_box_bool(&mut host, Box::new(VariantBool::from(true))).unwrap();
    assert_eq!(var.as_ptr().vt as u32, VT_PBOOL);
    assert_eq!(decode_box_bool(&mut host, var).unwrap(), Box::new(VariantBool::from(true)));
}

#[test]
fn test_box_scode() {
    let mut host = Host::new();
    let var = encode_box_scode(&mut host, Box::new(SCode::from(-50))).unwrap();
    assert_eq!(var.as_ptr().vt as u32, VT_PERROR);
    assert_eq!(decode_box_scode(&mut host, var).unwrap(), Box::new(SCode::from(-50)));
}

#[test]
fn test_box_cy() {
    let mut host = Host::new();
    let var = encode_box_cy(&mut host, Box::new(Currency::from(137))).unwrap();
    assert_eq!(var.as_ptr().vt as u32, VT_PCY);
    assert_eq!(decode_box_cy(&mut host, var).unwrap(), Box::new(Currency::from(137)));
}

#[test]
fn test_box_date() {
    let mut host = Host::new();
    let d = Date::from_bits((-10.333f64).to_bits());
    let var = encode_box_date(&mut host, Box::new(d)).unwrap();
    assert_eq!(var.as_ptr().vt as u32, VT_PDATE);
    assert_eq!(decode_box_date(&mut host, var).unwrap(), Box::new(d));
}

#[test]
fn variant_test_i8() {
    let mut host = Host::new();
    let var = encode_i8(&mut host, -119i8).unwrap();
    assert_eq!(var.as_ptr().vt as u32, VT_I1);
    assert_eq!(decode_i8(&mut host, var).unwrap(), -119i8);
}

#[test]
fn variant_test_u16() {
    let mut host = Host::new();
    let var = encode_u16(&mut host, 119u16).unwrap();
    assert_eq!(var.as_ptr().vt as u32, VT_UI2);
    assert_eq!(decode_u16(&mut host, var).unwrap(), 119u16);
}

#[test]
fn variant_test_u32() {
    let mut host = Host::new();
    let var = encode_u32(&mut host, 11976u32).unwrap();
    assert_eq!(var.as_ptr().vt as u32, VT_UI4);
    assert_eq!(decode_u32(&mut host, var).unwrap(), 11976u32);
}

#[test]
fn test_u64() {
    let mut host = Host::new();
    let var = encode_u64(&mut host, 11976u64).unwrap();
    assert_eq!(var.as_ptr().vt as u32, VT_UI8);
    assert_eq!(decode_u64(&mut host, var).unwrap(), 11976u64);
}

#[test]
fn int_wrapper() {
    let mut host = Host::new();
    let var = encode_int(&mut host, Int::from(13875)).unwrap();
    assert_eq!(var.as_ptr().vt as u32, VT_INT);
    assert_eq!(decode_int(&mut host, var).unwrap(), Int::from(13875));
}

#[test]
fn uint_wrapper() {
    let mut host = Host::new();
    let var = encode_uint(&mut host, UInt::from(13875)).unwrap();
    assert_eq!(var.as_ptr().vt as u32, VT_UINT);
    assert_eq!(decode_uint(&mut host, var).unwrap(), UInt::from(13875));
}

#[test]
fn test_box_i8() {
    let mut host = Host::new();
    let var = encode_box_i8(&mut host, Box::new(-119i8)).unwrap();
    assert_eq!(var.as_ptr().vt as u32, VT_PI1);
    assert_eq!(decode_box_i8(&mut host, var).unwrap(), Box::new(-119i8));
}

#[test]
fn test_box_u16() {
    let mut host = Host::new();
    let var = encode_box_u16(&mut host, Box::new(119u16)).unwrap();
    assert_eq!(var.as_ptr().vt as u32, VT_PUI2);
    assert_eq!(decode_box_u16(&mut host, var).unwrap(), Box::new(119u16));
}

#[test]
fn test_box_u32() {
    let mut host = Host::new();
    let var = encode_box_u32(&mut host, Box::new(11976u32)).unwrap();
    assert_eq!(var.as_ptr().vt as u32, VT_PUI4);
    assert_eq!(decode_box_u32(&mut host, var).unwrap(), Box::new(11976u32));
}

#[test]
fn test_box_u64() {
    let mut host = Host::new();
    let var = encode_box_u64(&mut host, Box::new(11976u64)).unwrap();
    assert_eq!(var.as_ptr().vt as u32, VT_PUI8);
    assert_eq!(decode_box_u64(&mut host, var).unwrap(), Box::new(11976u64));
}

#[test]
fn decimal() {
    let mut host = Host::new();
    let d = DecWrapper::new(Decimal::new(2, 2));
    let var = encode_decimal(&mut host, &d).unwrap();
    assert_eq!(var.as_ptr().vt as u32, 0);
    let out = decode_decimal(&mut host, var).unwrap();
    assert_eq!(out.unwrap(), Decimal::new(2, 2));
}

#[test]
fn variant() {
    let mut host = Host::new();
    let b = 156u8;
    let c = Variant::<u8, u8>::wrap(b);
    let inner = encode_u8(&mut host, c.unwrap()).unwrap();
    let outer = encode_nested(&mut host, inner).unwrap();
    assert_eq!(outer.as_ptr().vt as u32, VT_VARIANT);
    let child = decode_nested(&mut host, outer).unwrap();
    let v: Variant<u8, u8> = Variant::wrap(decode_u8(&mut host, child).unwrap());
    let d = v.unwrap();
    assert_eq!(d, b);
}

#[test]
fn variant2() {
    let mut host = Host::new();
    let b = Variants::Byte(-77i8);
    let c = b.clone().into_variant(&mut host).unwrap();
    let d = Variants::from_variant(&mut host, c).unwrap();
    assert_eq!(d, b);
}

#[test]
fn empty() {
    let mut host = Host::new();
    let var = encode_empty(&mut host).unwrap();
    assert_eq!(var.as_ptr().vt as u32, VT_EMPTY);
    assert_eq!(decode_empty(&mut host, var).unwrap(), VtEmpty);
}

#[test]
fn null() {
    let mut host = Host::new();
    let var = encode_null(&mut host).unwrap();
    assert_eq!(var.as_ptr().vt as u32, VT_NULL);
    assert_eq!(decode_null(&mut host, var).unwrap(), VtNull);
}

#[test]
fn variant_test_send() {
    fn assert_send<T: Send>() {}
    assert_send::<Variant<i64, i64>>();
}

#[test]
fn variant_test_sync() {
    fn assert_sync<T: Sync>() {}
    assert_sync::<Variant<i64, i64>>();
}

#[test]
fn scenario_mismatched_float_tags() {
    let mut host = Host::new();
    let var = encode_f64_bits(&mut host, 2.5f64.to_bits()).unwrap();
    let got = decode_f32_bits(&mut host, var);
    assert!(matches!(
        got,
        Err(oaidl::errors::FromVariantError::VarTypeDoesNotMatch {
            expected: oaidl::record::VT_R4,
            found: oaidl::record::VT_R8,
        })
    ));
    // the record itself was still released exactly once
    assert_eq!(host.variant_allocs(), 1);
    assert_eq!(host.variant_frees(), 1);
}

#[test]
fn scenario_nested_u64() {
    let mut host = Host::new();
    let inner = encode_u64(&mut host, 100u64).unwrap();
    assert_eq!(inner.as_ptr().vt as u32, VT_UI8);
    let outer = encode_nested(&mut host, inner).unwrap();
    assert_eq!(outer.as_ptr().vt as u32, VT_VARIANT);
    let child = decode_nested(&mut host, outer).unwrap();
    assert_eq!(child.as_ptr().vt as u32, VT_UI8);
    assert_eq!(decode_u64(&mut host, child).unwrap(), 100u64);
}

#[test]
fn scenario_i32_record_shape() {
    let mut host = Host::new();
    let var = encode_i32(&mut host, 1337).unwrap();
    assert_eq!(var.as_ptr().vt as u32, VT_I4);
    match var.as_ptr().slot {
        Slot::Bits(b) => assert_eq!(b, 1337u64),
        _ => panic!("an inline kind stores its payload in the union slot"),
    }
    assert_eq!(decode_i32(&mut host, var).unwrap(), 1337);
}

#[test]
fn scenario_currency_raw_payload() {
    let mut host = Host::new();
    let var = encode_cy(&mut host, Currency::from(-1)).unwrap();
    match var.as_ptr().slot {
        Slot::Bits(b) => assert_eq!(b as i64, -1i64),
        _ => panic!("currency is an inline kind"),
    }
    assert_eq!(decode_cy(&mut host, var).unwrap(), Currency::from(-1));
}
