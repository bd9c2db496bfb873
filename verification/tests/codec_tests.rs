use oaidl::array::{decode_sequence_i16, decode_sequence_string, decode_sequence_u32,
    decode_sequence_u8, encode_sequence_i16, encode_sequence_i8, encode_sequence_string,
    encode_sequence_u32, encode_sequence_u8, decode_sequence_i8};
use oaidl::bstr::{allocate_managed_bstr, deallocate_bstr, allocate_bstr, from_pbstr};
use oaidl::errors::{BStringError, ElementError, FromSafeArrElemError, FromSafeArrayError,
    FromVariantError, IntoSafeArrElemError, IntoSafeArrayError, IntoVariantError, SafeArrayError};
use oaidl::host::Host;
use oaidl::ptr::{DefaultDestructor, Ptr};
use oaidl::record::{ArrRec, DISP_E_BADINDEX, VT_I1, VT_I2, VT_UI1, VT_UNKNOWN};
use oaidl::variant::{decode_string, decode_unknown, decode_empty, encode_empty, encode_string,
    encode_unknown, variant_clear, Variants};
use widestring::U16String;

#[test]
fn string_release_is_counted_once() {
    // encode the eleven-unit string through the host allocator, decode it
    // back, and watch the release count rise by exactly one
    let mut host = Host::new();
    let s = U16String::from_str("test string");
    assert_eq!(s.len(), 11);
    let before_allocs = host.string_allocs();
    let before_frees = host.string_frees();
    let var = encode_string(&mut host, &s).unwrap();
    assert_eq!(host.string_allocs(), before_allocs + 1);
    let out = decode_string(&mut host, var).unwrap();
    assert_eq!(out, s);
    assert_eq!(host.string_frees(), before_frees + 1);
}

#[test]
fn embedded_nul_units_round_trip() {
    // an embedded zero code unit is ordinary data: the length comes from the
    // buffer, not from a terminator
    let mut host = Host::new();
    let s = U16String::from_vec(vec![0x74u16, 0u16, 0x65u16, 0u16]);
    let var = encode_string(&mut host, &s).unwrap();
    let out = decode_string(&mut host, var).unwrap();
    assert_eq!(out.len(), 4);
    assert_eq!(out, s);
}

#[test]
fn eight_bit_sequence_bounds() {
    let mut host = Host::new();
    let v: Vec<i8> = vec![0, 1, 2, 3, 4];
    let p = encode_sequence_i8(&mut host, v.clone()).unwrap();
    assert_eq!(p.as_ptr().get_vartype() as u32, VT_I1);
    assert_eq!(p.as_ptr().get_lbound(), 0);
    assert_eq!(p.as_ptr().get_ubound(), 4);
    assert_eq!(p.as_ptr().get_dims(), 1);
    let r = decode_sequence_i8(&mut host, p).unwrap();
    assert_eq!(r, v);
}

#[test]
fn empty_sequence_round_trip() {
    let mut host = Host::new();
    let v: Vec<u8> = vec![];
    let p = encode_sequence_u8(&mut host, v.clone()).unwrap();
    assert_eq!(p.as_ptr().get_ubound(), -1);
    let r = decode_sequence_u8(&mut host, p).unwrap();
    assert_eq!(r, v);
}

#[test]
fn large_sequence_round_trip() {
    let mut host = Host::new();
    let v: Vec<u32> = (0..10000u32).collect();
    let p = encode_sequence_u32(&mut host, v.clone()).unwrap();
    let r = decode_sequence_u32(&mut host, p).unwrap();
    assert_eq!(r, v);
}

#[test]
fn wrong_dimension_count_is_a_data_error() {
    // a record whose native dimension count is not one decodes to the
    // dimensions-invalid error, not a panic
    let mut host = Host::new();
    let arr = host.array_create(VT_I2 as u16, 2, 0, 3).unwrap();
    let p: Ptr<ArrRec, DefaultDestructor> = Ptr::new(arr);
    let r = decode_sequence_i16(&mut host, p);
    match r {
        Err(SafeArrayError::From(b)) => {
            assert!(matches!(*b, FromSafeArrayError::SafeArrayDimsInvalid { sa_dims: 2 }));
        },
        _ => panic!("expected the dimensions-invalid error"),
    }
}

#[test]
fn element_kind_mismatch_reports_both_tags() {
    let mut host = Host::new();
    let v: Vec<u8> = vec![1, 2];
    let p = encode_sequence_u8(&mut host, v).unwrap();
    let r = decode_sequence_i16(&mut host, p);
    match r {
        Err(SafeArrayError::From(b)) => {
            assert!(matches!(
                *b,
                FromSafeArrayError::VarTypeDoesNotMatch { expected: VT_I2, found: VT_UI1 }
            ));
        },
        _ => panic!("expected the element-discriminant mismatch error"),
    }
}

#[test]
fn short_storage_fails_at_first_missing_element() {
    // bounds that claim more elements than the storage holds fail with the
    // rejected-read error at the first index past the storage
    let mut host = Host::new();
    let mut arr = host.array_create(VT_I2 as u16, 1, 0, 3).unwrap();
    arr.put_ubound(9);
    let p: Ptr<ArrRec, DefaultDestructor> = Ptr::new(arr);
    let r = decode_sequence_i16(&mut host, p);
    match r {
        Err(SafeArrayError::From(b)) => match *b {
            FromSafeArrayError::ElementConversionFailed { index, element } => {
                assert_eq!(index, 3);
                match *element {
                    ElementError::From(fe) => {
                        assert!(matches!(
                            *fe,
                            FromSafeArrElemError::GetElementFailed { hr: DISP_E_BADINDEX }
                        ));
                    },
                    _ => panic!("expected a read-side element error"),
                }
            },
            _ => panic!("expected an element error carrying the index"),
        },
        _ => panic!("expected a decode-side array error"),
    }
}

#[test]
fn partial_string_encode_releases_everything_once() {
    // grant the array record and two string allocations; the third element
    // fails, and everything built so far is released exactly once
    let mut host = Host::with_budget(3);
    let v: Vec<U16String> = vec![
        U16String::from_str("ab"),
        U16String::from_str("cde"),
        U16String::from_str("fghi"),
        U16String::from_str("j"),
    ];
    let r = encode_sequence_string(&mut host, v);
    match r {
        Err(SafeArrayError::Into(b)) => match *b {
            IntoSafeArrayError::ElementConversionFailed { index, element } => {
                assert_eq!(index, 2);
                match *element {
                    ElementError::Into(ie) => match *ie {
                        IntoSafeArrElemError::BStringFailed(be) => {
                            assert!(matches!(*be, BStringError::AllocateFailed { len: 4 }));
                        },
                        _ => panic!("expected the allocation failure"),
                    },
                    _ => panic!("expected a write-side element error"),
                }
            },
            _ => panic!("expected an element error carrying the index"),
        },
        _ => panic!("expected an encode-side array error"),
    }
    // the array record was created once and released once; both strings that
    // were allocated were released
    assert_eq!(host.array_allocs(), 1);
    assert_eq!(host.array_frees(), 1);
    assert_eq!(host.string_allocs(), 2);
    assert_eq!(host.string_frees(), 2);
    assert_eq!(host.variant_allocs(), host.variant_frees());
}

#[test]
fn exhausted_budget_refuses_array_creation() {
    let mut host = Host::with_budget(0);
    let r = encode_sequence_i16(&mut host, vec![1, 2, 3]);
    match r {
        Err(SafeArrayError::Into(b)) => {
            assert!(matches!(*b, IntoSafeArrayError::SafeArrayCreateFailed));
        },
        _ => panic!("expected the creation failure"),
    }
    assert_eq!(host.array_allocs(), 0);
}

#[test]
fn exhausted_budget_refuses_string_allocation() {
    let mut host = Host::with_budget(0);
    let s = U16String::from_str("abc");
    let r = encode_string(&mut host, &s);
    match r {
        Err(IntoVariantError::AllocBStrFailed(b)) => {
            assert!(matches!(*b, BStringError::AllocateFailed { len: 3 }));
        },
        _ => panic!("expected the allocation failure"),
    }
    assert_eq!(host.string_allocs(), 0);
}

#[test]
fn string_sequence_counts_balance() {
    let mut host = Host::new();
    let v: Vec<U16String> = vec![U16String::from_str("one"), U16String::from_str("two")];
    let p = encode_sequence_string(&mut host, v.clone()).unwrap();
    assert_eq!(host.string_allocs(), 2);
    let r = decode_sequence_string(&mut host, p).unwrap();
    assert_eq!(r, v);
    assert_eq!(host.string_frees(), 2);
    assert_eq!(host.array_allocs(), 1);
    assert_eq!(host.array_frees(), 1);
    assert_eq!(host.variant_allocs(), 2);
    assert_eq!(host.variant_frees(), 2);
}

#[test]
fn dynamic_path_refuses_unknown_discriminant() {
    let mut host = Host::new();
    let var = encode_empty(&mut host).unwrap();
    let r = Variants::from_variant(&mut host, var);
    assert!(matches!(r, Err(FromVariantError::UnknownVarType(0))));
}

#[test]
fn null_object_reference_is_an_error() {
    let mut host = Host::new();
    let var = encode_unknown(&mut host, 0).unwrap();
    assert_eq!(var.as_ptr().vt as u32, VT_UNKNOWN);
    let r = decode_unknown(&mut host, var);
    assert!(matches!(r, Err(FromVariantError::VariantPtrNull)));
}

#[test]
fn object_reference_round_trip() {
    let mut host = Host::new();
    let var = encode_unknown(&mut host, 0x1000).unwrap();
    assert_eq!(decode_unknown(&mut host, var).unwrap(), 0x1000);
}

#[test]
fn managed_bstr_consume_disables_release() {
    let mut host = Host::new();
    let s = U16String::from_str("managed");
    let mut d = allocate_managed_bstr(&mut host, &s).unwrap();
    let taken = d.consume();
    assert!(taken.is_some());
    assert!(d.consume().is_none());
    // the consumed wrapper releases nothing; the caller owns the buffer now
    d.release(&mut host);
    assert_eq!(host.string_frees(), 0);
    host.free_bstr(taken.unwrap());
    assert_eq!(host.string_frees(), 1);
}

#[test]
fn bstr_read_uses_queried_length() {
    let mut host = Host::new();
    let s = U16String::from_vec(vec![7u16, 0u16, 9u16]);
    let p = allocate_bstr(&mut host, &s).unwrap();
    assert_eq!(host.bstr_len(p.as_ptr()), 3);
    let back = from_pbstr(&host, &p);
    assert_eq!(back, s);
    deallocate_bstr(&mut host, p);
    assert_eq!(host.string_frees(), 1);
}

#[test]
fn cleared_variant_counts_one_release() {
    let mut host = Host::new();
    let s = U16String::from_str("cleared");
    let var = encode_string(&mut host, &s).unwrap();
    variant_clear(&mut host, var);
    assert_eq!(host.variant_frees(), 1);
    assert_eq!(host.string_frees(), 1);
}

#[test]
fn empty_record_decodes_as_empty() {
    let mut host = Host::new();
    let var = encode_empty(&mut host).unwrap();
    let r = decode_empty(&mut host, var);
    assert!(r.is_ok());
}

#[test]
fn partial_variants_encode_releases_everything_once() {
    // grant the array record and one string; the second string element fails
    // and everything built so far is released exactly once
    let mut host = Host::with_budget(2);
    let v = vec![
        Variants::Long(1),
        Variants::String(String::from("aa")),
        Variants::String(String::from("bbb")),
    ];
    let r = oaidl::array::encode_sequence_variants(&mut host, v);
    match r {
        Err(SafeArrayError::Into(b)) => match *b {
            IntoSafeArrayError::ElementConversionFailed { index, element } => {
                assert_eq!(index, 2);
                match *element {
                    ElementError::Into(ie) => match *ie {
                        IntoSafeArrElemError::IntoVariantError(ive) => match *ive {
                            IntoVariantError::AllocBStrFailed(be) => {
                                assert!(matches!(*be, BStringError::AllocateFailed { len: 3 }));
                            },
                            _ => panic!("expected the allocation failure"),
                        },
                        _ => panic!("expected a value-record encode error"),
                    },
                    _ => panic!("expected a write-side element error"),
                }
            },
            _ => panic!("expected an element error carrying the index"),
        },
        _ => panic!("expected an encode-side array error"),
    }
    assert_eq!(host.array_allocs(), 1);
    assert_eq!(host.array_frees(), 1);
    assert_eq!(host.string_allocs(), 1);
    assert_eq!(host.string_frees(), 1);
    assert_eq!(host.variant_allocs(), host.variant_frees());
}

#[test]
fn null_variant_element_is_an_error() {
    // a freshly created dynamic-value array holds null elements; decoding
    // one is the null-pointer element error, and the record is still
    // released exactly once
    let mut host = Host::new();
    let arr = host.array_create(oaidl::record::VT_VARIANT as u16, 1, 0, 2).unwrap();
    let p: Ptr<ArrRec, DefaultDestructor> = Ptr::new(arr);
    let r = oaidl::array::decode_sequence_variants(&mut host, p);
    match r {
        Err(SafeArrayError::From(b)) => match *b {
            FromSafeArrayError::ElementConversionFailed { index, element } => {
                assert_eq!(index, 0);
                match *element {
                    ElementError::From(fe) => {
                        assert!(matches!(
                            *fe,
                            FromSafeArrElemError::FromVarError(ref w)
                                if matches!(**w, FromVariantError::VariantPtrNull)
                        ));
                    },
                    _ => panic!("expected a read-side element error"),
                }
            },
            _ => panic!("expected an element error carrying the index"),
        },
        _ => panic!("expected a decode-side array error"),
    }
    assert_eq!(host.array_frees(), 1);
}

#[test]
fn box_decimal_round_trip() {
    let mut host = Host::new();
    let d = rust_decimal::Decimal::new(-12345, 4);
    let var = oaidl::variant::encode_box_decimal(
        &mut host,
        Box::new(oaidl::types::DecWrapper::new(d)),
    ).unwrap();
    assert_eq!(var.as_ptr().vt as u32, oaidl::record::VT_PDECIMAL);
    let out = oaidl::variant::decode_box_decimal(&mut host, var).unwrap();
    assert_eq!(out.unwrap(), d);
}

#[test]
fn negative_zero_decimal_normalizes() {
    // a negative zero is the one value whose serialized image the decimal
    // round trip does not preserve: the rebuild clears the sign, and the
    // value stays equal
    let mut bytes = [0u8; 16];
    bytes[3] = 0x80;
    let d = rust_decimal::Decimal::deserialize(bytes);
    assert!(d.is_sign_negative());
    let mut host = Host::new();
    let var = oaidl::variant::encode_decimal(
        &mut host,
        &oaidl::types::DecWrapper::new(d),
    ).unwrap();
    let out = oaidl::variant::decode_decimal(&mut host, var).unwrap();
    let back = out.unwrap();
    assert!(back.is_sign_positive());
    assert_eq!(back, d);
}
