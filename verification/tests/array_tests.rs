use oaidl::array::{decode_sequence_bool, decode_sequence_cy, decode_sequence_date,
    decode_sequence_decimal, decode_sequence_f32_bits, decode_sequence_f64_bits,
    decode_sequence_i16, decode_sequence_i32, decode_sequence_i8, decode_sequence_scode,
    decode_sequence_string, decode_sequence_u16, decode_sequence_u32, decode_sequence_u8,
    decode_sequence_variants, encode_sequence_bool, encode_sequence_cy, encode_sequence_date,
    encode_sequence_decimal, encode_sequence_f32_bits, encode_sequence_f64_bits,
    encode_sequence_i16, encode_sequence_i32, encode_sequence_i8, encode_sequence_scode,
    encode_sequence_string, encode_sequence_u16, encode_sequence_u32, encode_sequence_u8,
    encode_sequence_variants};
use oaidl::host::Host;
use oaidl::record::{VT_I1, VT_I2};
use oaidl::types::{Currency, Date, DecWrapper, Int, SCode, UInt, VariantBool};
use oaidl::variant::Variants;
use rust_decimal::Decimal;
use widestring::U16String;

#[test]
fn array_test_i16() {
    let mut host = Host::new();
    let v: Vec<i16> = vec![0, 1, 2, 3, 4];
    let p = encode_sequence_i16(&mut host, v.clone()).unwrap();
    assert_eq!(p.as_ptr().get_vartype() as u32, VT_I2);
    let r = decode_sequence_i16(&mut host, p).unwrap();
    assert_eq!(r, v);
}

#[test]
fn array_test_i32() {
    let mut host = Host::new();
    let v: Vec<i32> = vec![0, 1, 2, 3, 4];
    let p = encode_sequence_i32(&mut host, v.clone()).unwrap();
    let r = decode_sequence_i32(&mut host, p).unwrap();
    assert_eq!(r, v);
}

#[test]
fn array_test_f32() {
    let mut host = Host::new();
    let v: Vec<u32> = vec![0.0f32, -1.333f32, 2f32, 3f32, 4f32].into_iter().map(
        f32::to_bits,
    ).collect();
    let p = encode_sequence_f32_bits(&mut host, v.clone()).unwrap();
    let r = decode_sequence_f32_bits(&mut host, p).unwrap();
    assert_eq!(r, v);
}

#[test]
fn array_test_f64() {
    let mut host = Host::new();
    let v: Vec<u64> = vec![0.0f64, -1.333f64, 2f64, 3f64, 4f64].into_iter().map(
        f64::to_bits,
    ).collect();
    let p = encode_sequence_f64_bits(&mut host, v.clone()).unwrap();
    let r = decode_sequence_f64_bits(&mut host, p).unwrap();
    assert_eq!(r, v);
}

#[test]
fn array_test_cy() {
    let mut host = Host::new();
    let v = vec![Currency::from(-1), Currency::from(2)];
    let p = encode_sequence_cy(&mut host, v.clone()).unwrap();
    let r = decode_sequence_cy(&mut host, p).unwrap();
    assert_eq!(r, v);
}

#[test]
fn array_test_date() {
    let mut host = Host::new();
    let v = vec![
        Date::from_bits(0.01f64.to_bits()),
        Date::from_bits((100.0f64 / 99.0f64).to_bits()),
    ];
    let p = encode_sequence_date(&mut host, v.clone()).unwrap();
    let r = decode_sequence_date(&mut host, p).unwrap();
    assert_eq!(r, v);
}

#[test]
fn array_test_str() {
    let mut host = Host::new();
    let v: Vec<U16String> = vec![
        U16String::from_str("validate"),
        U16String::from_str("test string"),
    ];
    let p = encode_sequence_string(&mut host, v.clone()).unwrap();
    let r = decode_sequence_string(&mut host, p).unwrap();
    assert_eq!(
        r,
        vec![U16String::from_str("validate"), U16String::from_str("test string")]
    );
}

#[test]
fn array_test_scode() {
    let mut host = Host::new();
    let v = vec![SCode::from(100), SCode::from(10000)];
    let p = encode_sequence_scode(&mut host, v.clone()).unwrap();
    let r = decode_sequence_scode(&mut host, p).unwrap();
    assert_eq!(r, v);
}

#[test]
fn test_bool() {
    let mut host = Host::new();
    let v = vec![
        VariantBool::from(true),
        VariantBool::from(false),
        VariantBool::from(true),
        VariantBool::from(true),
        VariantBool::from(false),
        VariantBool::from(false),
        VariantBool::from(true),
    ];
    let p = encode_sequence_bool(&mut host, v.clone()).unwrap();
    let r = decode_sequence_bool(&mut host, p).unwrap();
    assert_eq!(r, v);
}

#[test]
fn test_variant() {
    let mut host = Host::new();
    let v = vec![Variants::ULongLong(100u64)];
    let p = encode_sequence_variants(&mut host, v.clone()).unwrap();
    let r = decode_sequence_variants(&mut host, p).unwrap();
    assert_eq!(r, vec![Variants::ULongLong(100u64)]);
}

#[test]
fn variants() {
    let mut host = Host::new();
    let v: Vec<Variants> = vec![
        Variants::LongLong(100000),
        Variants::Long(10000),
        Variants::Char(126),
        Variants::Short(6747),
        Variants::Float(3.33f32.to_bits()),
        Variants::Double((-85.875509864564f64).to_bits()),
        Variants::Bool(true),
        Variants::Error(SCode::from(10)),
        Variants::Cy(Currency::from(7587)),
        Variants::Date(Date::from_bits(786.67f64.to_bits())),
        Variants::String(String::from("vi7r89748jh u o7o")),
        Variants::Byte(57),
        Variants::UShort(675),
        Variants::ULong(65769866),
        Variants::ULongLong(85784675378),
        Variants::Int(Int::from(56576)),
        Variants::UInt(UInt::from(86576)),
    ];
    let p = encode_sequence_variants(&mut host, v.clone()).unwrap();
    let r = decode_sequence_variants(&mut host, p).unwrap();
    assert_eq!(v, r);
}

#[test]
fn test_decimal() {
    let mut host = Host::new();
    let v = vec![
        DecWrapper::new(Decimal::new(2, 2)),
        DecWrapper::new(Decimal::new(3, 3)),
    ];
    let p = encode_sequence_decimal(&mut host, v.clone()).unwrap();
    let r = decode_sequence_decimal(&mut host, p).unwrap();
    let out: Vec<Decimal> = r.into_iter().map(DecWrapper::unwrap).collect();
    assert_eq!(out, vec![Decimal::new(2, 2), Decimal::new(3, 3)]);
}

#[test]
fn array_test_i8() {
    let mut host = Host::new();
    let v: Vec<i8> = vec![-1, 0, 1, 2, 3, 4];
    let p = encode_sequence_i8(&mut host, v.clone()).unwrap();
    assert_eq!(p.as_ptr().get_vartype() as u32, VT_I1);
    let r = decode_sequence_i8(&mut host, p).unwrap();
    assert_eq!(r, v);
}

#[test]
fn array_test_u8() {
    let mut host = Host::new();
    let v: Vec<u8> = vec![0, 1, 2, 3, 4];
    let p = encode_sequence_u8(&mut host, v.clone()).unwrap();
    let r = decode_sequence_u8(&mut host, p).unwrap();
    assert_eq!(r, v);
}

#[test]
fn array_test_u16() {
    let mut host = Host::new();
    let v: Vec<u16> = vec![0, 1, 2, 3, 4];
    let p = encode_sequence_u16(&mut host, v.clone()).unwrap();
    let r = decode_sequence_u16(&mut host, p).unwrap();
    assert_eq!(r, v);
}

#[test]
fn array_test_u32() {
    let mut host = Host::new();
    let v: Vec<u32> = vec![0, 1, 2, 3, 4];
    let p = encode_sequence_u32(&mut host, v.clone()).unwrap();
    let r = decode_sequence_u32(&mut host, p).unwrap();
    assert_eq!(r, v);
}
