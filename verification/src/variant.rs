//! The value-record codec: encoding each supported kind into a
//! discriminant-tagged record and decoding it back.
//!
//! Encoding writes the kind's tag and its payload, inline for scalar kinds,
//! out of line for strings, cells, nested records and arrays. Decoding under
//! an expected kind first holds the record's discriminant against that kind's
//! tag and fails with a mismatch error carrying (expected, found) when they
//! differ: a payload is never read under a mismatched discriminant. A decode
//! consumes its record and releases it, also when it fails; the one exception
//! is the payload that decoding hands on to the caller (the child of a
//! nested record, the array record of an array payload). The dynamic path,
//! [`Variants`], carries the same kinds without the caller naming one at
//! compile time.

use vstd::prelude::*;
use crate::bstr::{lossy_of, u16string_from_str, u16string_from_vec, u16string_to_lossy,
    u16string_units, utf16_of, wide_units};
use crate::errors::{BStringError, FromVariantError, IntoVariantError};
use crate::host::Host;
use crate::ptr::{DefaultDestructor, Ptr, PtrDestructor};
use crate::record::{ArrRec, CellVal, Slot, VarRec, VT_ARRAY, VT_BOOL, VT_BSTR, VT_BYREF, VT_CY,
    VT_DATE, VT_DECIMAL, VT_DISPATCH, VT_EMPTY, VT_ERROR, VT_I1, VT_I2, VT_I4, VT_I8, VT_INT,
    VT_NULL, VT_PBOOL, VT_PCY, VT_PDATE, VT_PDECIMAL, VT_PERROR, VT_PI1, VT_PI2, VT_PI4, VT_PI8,
    VT_PINT, VT_PR4, VT_PR8, VT_PUI1, VT_PUI2, VT_PUI4, VT_PUI8, VT_PUINT, VT_R4, VT_R8, VT_UI1,
    VT_UI2, VT_UI4, VT_UI8, VT_UINT, VT_UNKNOWN, VT_VARIANT, arr_wf, rec_fp, rec_wf};
use crate::types::{Currency, DecParts, Date, DecWrapper, Int, SCode, UInt, VariantBool,
    parts_of_serial, serial_of_parts, dec_serial, DECIMAL_NEG};
use core::marker::PhantomData;

verus! {

/// Policy of handles whose release clears the value record recursively:
/// everything the record references is freed, and the record itself, each
/// exactly once. The release is the explicit operation [`variant_clear`],
/// since clearing is a host call.
#[derive(Clone, Copy, Debug)]
pub struct VariantDestructor;

impl PtrDestructor<VarRec> for VariantDestructor {

}

/// Releases a value record and everything it owns, each exactly once.
pub fn variant_clear(host: &mut Host, var: Ptr<VarRec, VariantDestructor>)
    ensures
        final(host).counts() == old(host).counts().plus_frees(rec_fp(var@)),
        final(host).budget() == old(host).budget(),
{
    host.clear_rec(var.into_inner());
}

/// The discriminant-mismatch error for a requested tag against a found one.
pub open spec fn mismatch(expected: u16, found: u16) -> FromVariantError {
    FromVariantError::VarTypeDoesNotMatch { expected: expected as u32, found: found as u32 }
}

/// The record an inline scalar kind encodes to: the kind's tag over the
/// value's bits.
pub open spec fn enc_bits(vt: u16, bits: u64) -> VarRec {
    VarRec { vt, slot: Slot::Bits(bits) }
}

/// Decoding an inline scalar payload under an expected tag: the bits when
/// the tags agree, the mismatch error otherwise.
pub open spec fn dec_bits(rec: VarRec, tag: u16) -> Result<u64, FromVariantError> {
    if rec.vt != tag {
        Err(mismatch(tag, rec.vt))
    } else {
        match rec.slot {
            Slot::Bits(b) => Ok(b),
            _ => Ok(0u64),
        }
    }
}

/// Decoding a by-reference payload under an expected tag: the cell when the
/// tags agree and the pointer is not null.
pub open spec fn dec_cell(rec: VarRec, tag: u16) -> Result<CellVal, FromVariantError> {
    if rec.vt != tag {
        Err(mismatch(tag, rec.vt))
    } else {
        match rec.slot {
            Slot::Cell(c) => match c {
                Some(cv) => Ok(*cv),
                None => Err(FromVariantError::VariantPtrNull),
            },
            _ => Err(FromVariantError::VariantPtrNull),
        }
    }
}

pub(crate) fn encode_bits_rec(host: &mut Host, vt: u16, bits: u64) -> (r: Ptr<
    VarRec,
    VariantDestructor,
>)
    ensures
        final(host).counts() == old(host).counts().variant_alloced(),
        final(host).budget() == old(host).budget(),
        r@ == enc_bits(vt, bits),
{
    host.tick_variant_alloc();
    Ptr::new(VarRec { vt, slot: Slot::Bits(bits) })
}

pub(crate) fn decode_bits_rec(host: &mut Host, tag: u16, var: Ptr<VarRec, VariantDestructor>) -> (r:
    Result<u64, FromVariantError>)
    requires
        rec_wf(var@),
    ensures
        final(host).counts() == old(host).counts().plus_frees(rec_fp(var@)),
        final(host).budget() == old(host).budget(),
        r == dec_bits(var@, tag),
{
    let rec = var.into_inner();
    let vt: u16 = rec.vt;
    let bits: u64 = match &rec.slot {
        Slot::Bits(b) => *b,
        _ => 0,
    };
    host.clear_rec(rec);
    if vt != tag {
        Err(FromVariantError::VarTypeDoesNotMatch { expected: tag as u32, found: vt as u32 })
    } else {
        Ok(bits)
    }
}

pub(crate) fn encode_cell_rec(host: &mut Host, vt: u16, cv: CellVal) -> (r: Ptr<
    VarRec,
    VariantDestructor,
>)
    ensures
        final(host).counts() == old(host).counts().variant_alloced(),
        final(host).budget() == old(host).budget(),
        r@.vt == vt,
        r@.slot matches Slot::Cell(c) && c matches Some(inner) && *inner == cv,
{
    host.tick_variant_alloc();
    Ptr::new(VarRec { vt, slot: Slot::Cell(Some(Box::new(cv))) })
}

pub(crate) fn decode_cell_rec(host: &mut Host, tag: u16, var: Ptr<VarRec, VariantDestructor>) -> (r:
    Result<CellVal, FromVariantError>)
    requires
        rec_wf(var@),
    ensures
        final(host).counts() == old(host).counts().plus_frees(rec_fp(var@)),
        final(host).budget() == old(host).budget(),
        r == dec_cell(var@, tag),
{
    let rec = var.into_inner();
    let vt: u16 = rec.vt;
    let cv: Option<CellVal> = match &rec.slot {
        Slot::Cell(c) => match c {
            Some(inner) => Some(**inner),
            None => None,
        },
        _ => None,
    };
    host.clear_rec(rec);
    if vt != tag {
        Err(FromVariantError::VarTypeDoesNotMatch { expected: tag as u32, found: vt as u32 })
    } else {
        match cv {
            Some(v) => Ok(v),
            None => Err(FromVariantError::VariantPtrNull),
        }
    }
}

pub(crate) fn trunc_u8(b: u64) -> (r: u8)
    ensures
        r == b as u8,
{
    #[verifier::truncate] (b as u8)
}

pub(crate) fn trunc_u16(b: u64) -> (r: u16)
    ensures
        r == b as u16,
{
    #[verifier::truncate] (b as u16)
}

pub(crate) fn trunc_u32(b: u64) -> (r: u32)
    ensures
        r == b as u32,
{
    #[verifier::truncate] (b as u32)
}

pub(crate) fn trunc_i8(b: u64) -> (r: i8)
    ensures
        r == (b as u8) as i8,
{
    #[verifier::truncate] ((#[verifier::truncate] (b as u8)) as i8)
}

pub(crate) fn trunc_i16(b: u64) -> (r: i16)
    ensures
        r == (b as u16) as i16,
{
    #[verifier::truncate] ((#[verifier::truncate] (b as u16)) as i16)
}

pub(crate) fn trunc_i32(b: u64) -> (r: i32)
    ensures
        r == (b as u32) as i32,
{
    #[verifier::truncate] ((#[verifier::truncate] (b as u32)) as i32)
}

pub(crate) fn trunc_i64(b: u64) -> (r: i64)
    ensures
        r == b as i64,
{
    #[verifier::truncate] (b as i64)
}

/// The decoded value of a record holding an 8-byte signed integer, or the error.
pub open spec fn dec_i64(rec: VarRec) -> Result<i64, FromVariantError> {
    match dec_bits(rec, VT_I8 as u16) {
        Ok(b) => Ok(b as i64),
        Err(e) => Err(e),
    }
}

/// Encodes an 8-byte signed integer as a value record tagged `VT_I8`.
pub fn encode_i64(host: &mut Host, value: i64) -> (r: Result<
    Ptr<VarRec, VariantDestructor>,
    IntoVariantError,
>)
    ensures
        final(host).counts() == old(host).counts().variant_alloced(),
        final(host).budget() == old(host).budget(),
        r matches Ok(p) && p@ == enc_bits(VT_I8 as u16, value as u64) && rec_wf(p@),
{
    Ok(encode_bits_rec(host, VT_I8 as u16, value as u64))
}

/// Decodes an 8-byte signed integer: fails with the mismatch error, carrying the requested and
/// the found tag, unless the record is tagged `VT_I8`. The record is
/// released on every path.
pub fn decode_i64(host: &mut Host, var: Ptr<VarRec, VariantDestructor>) -> (r: Result<
    i64,
    FromVariantError,
>)
    requires
        rec_wf(var@),
    ensures
        final(host).counts() == old(host).counts().plus_frees(rec_fp(var@)),
        final(host).budget() == old(host).budget(),
        r == dec_i64(var@),
{
    let b = decode_bits_rec(host, VT_I8 as u16, var)?;
    Ok(trunc_i64(b))
}

/// The decoded value of a record holding a 4-byte signed integer, or the error.
pub open spec fn dec_i32(rec: VarRec) -> Result<i32, FromVariantError> {
    match dec_bits(rec, VT_I4 as u16) {
        Ok(b) => Ok(((b as u32) as i32)),
        Err(e) => Err(e),
    }
}

/// Encodes a 4-byte signed integer as a value record tagged `VT_I4`.
pub fn encode_i32(host: &mut Host, value: i32) -> (r: Result<
    Ptr<VarRec, VariantDestructor>,
    IntoVariantError,
>)
    ensures
        final(host).counts() == old(host).counts().variant_alloced(),
        final(host).budget() == old(host).budget(),
        r matches Ok(p) && p@ == enc_bits(VT_I4 as u16, (value as u32) as u64) && rec_wf(p@),
{
    Ok(encode_bits_rec(host, VT_I4 as u16, (value as u32) as u64))
}

/// Decodes a 4-byte signed integer: fails with the mismatch error, carrying the requested and
/// the found tag, unless the record is tagged `VT_I4`. The record is
/// released on every path.
pub fn decode_i32(host: &mut Host, var: Ptr<VarRec, VariantDestructor>) -> (r: Result<
    i32,
    FromVariantError,
>)
    requires
        rec_wf(var@),
    ensures
        final(host).counts() == old(host).counts().plus_frees(rec_fp(var@)),
        final(host).budget() == old(host).budget(),
        r == dec_i32(var@),
{
    let b = decode_bits_rec(host, VT_I4 as u16, var)?;
    Ok(trunc_i32(b))
}

/// The decoded value of a record holding a 1-byte unsigned integer, or the error.
pub open spec fn dec_u8(rec: VarRec) -> Result<u8, FromVariantError> {
    match dec_bits(rec, VT_UI1 as u16) {
        Ok(b) => Ok((b as u8)),
        Err(e) => Err(e),
    }
}

/// Encodes a 1-byte unsigned integer as a value record tagged `VT_UI1`.
pub fn encode_u8(host: &mut Host, value: u8) -> (r: Result<
    Ptr<VarRec, VariantDestructor>,
    IntoVariantError,
>)
    ensures
        final(host).counts() == old(host).counts().variant_alloced(),
        final(host).budget() == old(host).budget(),
        r matches Ok(p) && p@ == enc_bits(VT_UI1 as u16, value as u64) && rec_wf(p@),
{
    Ok(encode_bits_rec(host, VT_UI1 as u16, value as u64))
}

/// Decodes a 1-byte unsigned integer: fails with the mismatch error, carrying the requested and
/// the found tag, unless the record is tagged `VT_UI1`. The record is
/// released on every path.
pub fn decode_u8(host: &mut Host, var: Ptr<VarRec, VariantDestructor>) -> (r: Result<
    u8,
    FromVariantError,
>)
    requires
        rec_wf(var@),
    ensures
        final(host).counts() == old(host).counts().plus_frees(rec_fp(var@)),
        final(host).budget() == old(host).budget(),
        r == dec_u8(var@),
{
    let b = decode_bits_rec(host, VT_UI1 as u16, var)?;
    Ok(trunc_u8(b))
}

/// The decoded value of a record holding a 2-byte signed integer, or the error.
pub open spec fn dec_i16(rec: VarRec) -> Result<i16, FromVariantError> {
    match dec_bits(rec, VT_I2 as u16) {
        Ok(b) => Ok(((b as u16) as i16)),
        Err(e) => Err(e),
    }
}

/// Encodes a 2-byte signed integer as a value record tagged `VT_I2`.
pub fn encode_i16(host: &mut Host, value: i16) -> (r: Result<
    Ptr<VarRec, VariantDestructor>,
    IntoVariantError,
>)
    ensures
        final(host).counts() == old(host).counts().variant_alloced(),
        final(host).budget() == old(host).budget(),
        r matches Ok(p) && p@ == enc_bits(VT_I2 as u16, (value as u16) as u64) && rec_wf(p@),
{
    Ok(encode_bits_rec(host, VT_I2 as u16, (value as u16) as u64))
}

/// Decodes a 2-byte signed integer: fails with the mismatch error, carrying the requested and
/// the found tag, unless the record is tagged `VT_I2`. The record is
/// released on every path.
pub fn decode_i16(host: &mut Host, var: Ptr<VarRec, VariantDestructor>) -> (r: Result<
    i16,
    FromVariantError,
>)
    requires
        rec_wf(var@),
    ensures
        final(host).counts() == old(host).counts().plus_frees(rec_fp(var@)),
        final(host).budget() == old(host).budget(),
        r == dec_i16(var@),
{
    let b = decode_bits_rec(host, VT_I2 as u16, var)?;
    Ok(trunc_i16(b))
}

/// The decoded value of a record holding the bits of a 4-byte float, or the error.
pub open spec fn dec_f32_bits(rec: VarRec) -> Result<u32, FromVariantError> {
    match dec_bits(rec, VT_R4 as u16) {
        Ok(b) => Ok((b as u32)),
        Err(e) => Err(e),
    }
}

/// Encodes the bits of a 4-byte float as a value record tagged `VT_R4`.
pub fn encode_f32_bits(host: &mut Host, value: u32) -> (r: Result<
    Ptr<VarRec, VariantDestructor>,
    IntoVariantError,
>)
    ensures
        final(host).counts() == old(host).counts().variant_alloced(),
        final(host).budget() == old(host).budget(),
        r matches Ok(p) && p@ == enc_bits(VT_R4 as u16, value as u64) && rec_wf(p@),
{
    Ok(encode_bits_rec(host, VT_R4 as u16, value as u64))
}

/// Decodes the bits of a 4-byte float: fails with the mismatch error, carrying the requested and
/// the found tag, unless the record is tagged `VT_R4`. The record is
/// released on every path.
pub fn decode_f32_bits(host: &mut Host, var: Ptr<VarRec, VariantDestructor>) -> (r: Result<
    u32,
    FromVariantError,
>)
    requires
        rec_wf(var@),
    ensures
        final(host).counts() == old(host).counts().plus_frees(rec_fp(var@)),
        final(host).budget() == old(host).budget(),
        r == dec_f32_bits(var@),
{
    let b = decode_bits_rec(host, VT_R4 as u16, var)?;
    Ok(trunc_u32(b))
}

/// The decoded value of a record holding the bits of an 8-byte float, or the error.
pub open spec fn dec_f64_bits(rec: VarRec) -> Result<u64, FromVariantError> {
    match dec_bits(rec, VT_R8 as u16) {
        Ok(b) => Ok(b),
        Err(e) => Err(e),
    }
}

/// Encodes the bits of an 8-byte float as a value record tagged `VT_R8`.
pub fn encode_f64_bits(host: &mut Host, value: u64) -> (r: Result<
    Ptr<VarRec, VariantDestructor>,
    IntoVariantError,
>)
    ensures
        final(host).counts() == old(host).counts().variant_alloced(),
        final(host).budget() == old(host).budget(),
        r matches Ok(p) && p@ == enc_bits(VT_R8 as u16, value) && rec_wf(p@),
{
    Ok(encode_bits_rec(host, VT_R8 as u16, value))
}

/// Decodes the bits of an 8-byte float: fails with the mismatch error, carrying the requested and
/// the found tag, unless the record is tagged `VT_R8`. The record is
/// released on every path.
pub fn decode_f64_bits(host: &mut Host, var: Ptr<VarRec, VariantDestructor>) -> (r: Result<
    u64,
    FromVariantError,
>)
    requires
        rec_wf(var@),
    ensures
        final(host).counts() == old(host).counts().plus_frees(rec_fp(var@)),
        final(host).budget() == old(host).budget(),
        r == dec_f64_bits(var@),
{
    let b = decode_bits_rec(host, VT_R8 as u16, var)?;
    Ok(b)
}

/// The decoded value of a record holding a 1-byte signed integer, or the error.
pub open spec fn dec_i8(rec: VarRec) -> Result<i8, FromVariantError> {
    match dec_bits(rec, VT_I1 as u16) {
        Ok(b) => Ok(((b as u8) as i8)),
        Err(e) => Err(e),
    }
}

/// Encodes a 1-byte signed integer as a value record tagged `VT_I1`.
pub fn encode_i8(host: &mut Host, value: i8) -> (r: Result<
    Ptr<VarRec, VariantDestructor>,
    IntoVariantError,
>)
    ensures
        final(host).counts() == old(host).counts().variant_alloced(),
        final(host).budget() == old(host).budget(),
        r matches Ok(p) && p@ == enc_bits(VT_I1 as u16, (value as u8) as u64) && rec_wf(p@),
{
    Ok(encode_bits_rec(host, VT_I1 as u16, (value as u8) as u64))
}

/// Decodes a 1-byte signed integer: fails with the mismatch error, carrying the requested and
/// the found tag, unless the record is tagged `VT_I1`. The record is
/// released on every path.
pub fn decode_i8(host: &mut Host, var: Ptr<VarRec, VariantDestructor>) -> (r: Result<
    i8,
    FromVariantError,
>)
    requires
        rec_wf(var@),
    ensures
        final(host).counts() == old(host).counts().plus_frees(rec_fp(var@)),
        final(host).budget() == old(host).budget(),
        r == dec_i8(var@),
{
    let b = decode_bits_rec(host, VT_I1 as u16, var)?;
    Ok(trunc_i8(b))
}

/// The decoded value of a record holding a 2-byte unsigned integer, or the error.
pub open spec fn dec_u16(rec: VarRec) -> Result<u16, FromVariantError> {
    match dec_bits(rec, VT_UI2 as u16) {
        Ok(b) => Ok((b as u16)),
        Err(e) => Err(e),
    }
}

/// Encodes a 2-byte unsigned integer as a value record tagged `VT_UI2`.
pub fn encode_u16(host: &mut Host, value: u16) -> (r: Result<
    Ptr<VarRec, VariantDestructor>,
    IntoVariantError,
>)
    ensures
        final(host).counts() == old(host).counts().variant_alloced(),
        final(host).budget() == old(host).budget(),
        r matches Ok(p) && p@ == enc_bits(VT_UI2 as u16, value as u64) && rec_wf(p@),
{
    Ok(encode_bits_rec(host, VT_UI2 as u16, value as u64))
}

/// Decodes a 2-byte unsigned integer: fails with the mismatch error, carrying the requested and
/// the found tag, unless the record is tagged `VT_UI2`. The record is
/// released on every path.
pub fn decode_u16(host: &mut Host, var: Ptr<VarRec, VariantDestructor>) -> (r: Result<
    u16,
    FromVariantError,
>)
    requires
        rec_wf(var@),
    ensures
        final(host).counts() == old(host).counts().plus_frees(rec_fp(var@)),
        final(host).budget() == old(host).budget(),
        r == dec_u16(var@),
{
    let b = decode_bits_rec(host, VT_UI2 as u16, var)?;
    Ok(trunc_u16(b))
}

/// The decoded value of a record holding a 4-byte unsigned integer, or the error.
pub open spec fn dec_u32(rec: VarRec) -> Result<u32, FromVariantError> {
    match dec_bits(rec, VT_UI4 as u16) {
        Ok(b) => Ok((b as u32)),
        Err(e) => Err(e),
    }
}

/// Encodes a 4-byte unsigned integer as a value record tagged `VT_UI4`.
pub fn encode_u32(host: &mut Host, value: u32) -> (r: Result<
    Ptr<VarRec, VariantDestructor>,
    IntoVariantError,
>)
    ensures
        final(host).counts() == old(host).counts().variant_alloced(),
        final(host).budget() == old(host).budget(),
        r matches Ok(p) && p@ == enc_bits(VT_UI4 as u16, value as u64) && rec_wf(p@),
{
    Ok(encode_bits_rec(host, VT_UI4 as u16, value as u64))
}

/// Decodes a 4-byte unsigned integer: fails with the mismatch error, carrying the requested and
/// the found tag, unless the record is tagged `VT_UI4`. The record is
/// released on every path.
pub fn decode_u32(host: &mut Host, var: Ptr<VarRec, VariantDestructor>) -> (r: Result<
    u32,
    FromVariantError,
>)
    requires
        rec_wf(var@),
    ensures
        final(host).counts() == old(host).counts().plus_frees(rec_fp(var@)),
        final(host).budget() == old(host).budget(),
        r == dec_u32(var@),
{
    let b = decode_bits_rec(host, VT_UI4 as u16, var)?;
    Ok(trunc_u32(b))
}

/// The decoded value of a record holding an 8-byte unsigned integer, or the error.
pub open spec fn dec_u64(rec: VarRec) -> Result<u64, FromVariantError> {
    match dec_bits(rec, VT_UI8 as u16) {
        Ok(b) => Ok(b),
        Err(e) => Err(e),
    }
}

/// Encodes an 8-byte unsigned integer as a value record tagged `VT_UI8`.
pub fn encode_u64(host: &mut Host, value: u64) -> (r: Result<
    Ptr<VarRec, VariantDestructor>,
    IntoVariantError,
>)
    ensures
        final(host).counts() == old(host).counts().variant_alloced(),
        final(host).budget() == old(host).budget(),
        r matches Ok(p) && p@ == enc_bits(VT_UI8 as u16, value) && rec_wf(p@),
{
    Ok(encode_bits_rec(host, VT_UI8 as u16, value))
}

/// Decodes an 8-byte unsigned integer: fails with the mismatch error, carrying the requested and
/// the found tag, unless the record is tagged `VT_UI8`. The record is
/// released on every path.
pub fn decode_u64(host: &mut Host, var: Ptr<VarRec, VariantDestructor>) -> (r: Result<
    u64,
    FromVariantError,
>)
    requires
        rec_wf(var@),
    ensures
        final(host).counts() == old(host).counts().plus_frees(rec_fp(var@)),
        final(host).budget() == old(host).budget(),
        r == dec_u64(var@),
{
    let b = decode_bits_rec(host, VT_UI8 as u16, var)?;
    Ok(b)
}

/// The decoded value of a record holding the automation boolean, or the error.
pub open spec fn dec_bool(rec: VarRec) -> Result<VariantBool, FromVariantError> {
    match dec_bits(rec, VT_BOOL as u16) {
        Ok(b) => Ok(VariantBool(((b as u16) as i16) < 0)),
        Err(e) => Err(e),
    }
}

/// Encodes the automation boolean as a value record tagged `VT_BOOL`.
pub fn encode_bool(host: &mut Host, value: VariantBool) -> (r: Result<
    Ptr<VarRec, VariantDestructor>,
    IntoVariantError,
>)
    ensures
        final(host).counts() == old(host).counts().variant_alloced(),
        final(host).budget() == old(host).budget(),
        r matches Ok(p) && p@ == enc_bits(VT_BOOL as u16, (if value.0 { 0xFFFFu64 } else { 0u64 })) && rec_wf(p@),
{
    Ok(encode_bits_rec(host, VT_BOOL as u16, (if value.0 { 0xFFFFu64 } else { 0u64 })))
}

/// Decodes the automation boolean: fails with the mismatch error, carrying the requested and
/// the found tag, unless the record is tagged `VT_BOOL`. The record is
/// released on every path.
pub fn decode_bool(host: &mut Host, var: Ptr<VarRec, VariantDestructor>) -> (r: Result<
    VariantBool,
    FromVariantError,
>)
    requires
        rec_wf(var@),
    ensures
        final(host).counts() == old(host).counts().plus_frees(rec_fp(var@)),
        final(host).budget() == old(host).budget(),
        r == dec_bool(var@),
{
    let b = decode_bits_rec(host, VT_BOOL as u16, var)?;
    let w = trunc_i16(b);
    Ok(VariantBool::from_raw(w))
}

/// The decoded value of a record holding a status code, or the error.
pub open spec fn dec_scode(rec: VarRec) -> Result<SCode, FromVariantError> {
    match dec_bits(rec, VT_ERROR as u16) {
        Ok(b) => Ok(SCode((b as u32) as i32)),
        Err(e) => Err(e),
    }
}

/// Encodes a status code as a value record tagged `VT_ERROR`.
pub fn encode_scode(host: &mut Host, value: SCode) -> (r: Result<
    Ptr<VarRec, VariantDestructor>,
    IntoVariantError,
>)
    ensures
        final(host).counts() == old(host).counts().variant_alloced(),
        final(host).budget() == old(host).budget(),
        r matches Ok(p) && p@ == enc_bits(VT_ERROR as u16, ((value.0 as u32) as u64)) && rec_wf(p@),
{
    Ok(encode_bits_rec(host, VT_ERROR as u16, ((value.0 as u32) as u64)))
}

/// Decodes a status code: fails with the mismatch error, carrying the requested and
/// the found tag, unless the record is tagged `VT_ERROR`. The record is
/// released on every path.
pub fn decode_scode(host: &mut Host, var: Ptr<VarRec, VariantDestructor>) -> (r: Result<
    SCode,
    FromVariantError,
>)
    requires
        rec_wf(var@),
    ensures
        final(host).counts() == old(host).counts().plus_frees(rec_fp(var@)),
        final(host).budget() == old(host).budget(),
        r == dec_scode(var@),
{
    let b = decode_bits_rec(host, VT_ERROR as u16, var)?;
    Ok(SCode(trunc_i32(b)))
}

/// The decoded value of a record holding a currency amount, or the error.
pub open spec fn dec_cy(rec: VarRec) -> Result<Currency, FromVariantError> {
    match dec_bits(rec, VT_CY as u16) {
        Ok(b) => Ok(Currency(b as i64)),
        Err(e) => Err(e),
    }
}

/// Encodes a currency amount as a value record tagged `VT_CY`.
pub fn encode_cy(host: &mut Host, value: Currency) -> (r: Result<
    Ptr<VarRec, VariantDestructor>,
    IntoVariantError,
>)
    ensures
        final(host).counts() == old(host).counts().variant_alloced(),
        final(host).budget() == old(host).budget(),
        r matches Ok(p) && p@ == enc_bits(VT_CY as u16, (value.0 as u64)) && rec_wf(p@),
{
    Ok(encode_bits_rec(host, VT_CY as u16, (value.0 as u64)))
}

/// Decodes a currency amount: fails with the mismatch error, carrying the requested and
/// the found tag, unless the record is tagged `VT_CY`. The record is
/// released on every path.
pub fn decode_cy(host: &mut Host, var: Ptr<VarRec, VariantDestructor>) -> (r: Result<
    Currency,
    FromVariantError,
>)
    requires
        rec_wf(var@),
    ensures
        final(host).counts() == old(host).counts().plus_frees(rec_fp(var@)),
        final(host).budget() == old(host).budget(),
        r == dec_cy(var@),
{
    let b = decode_bits_rec(host, VT_CY as u16, var)?;
    Ok(Currency(trunc_i64(b)))
}

/// The decoded value of a record holding a date's bit pattern, or the error.
pub open spec fn dec_date(rec: VarRec) -> Result<Date, FromVariantError> {
    match dec_bits(rec, VT_DATE as u16) {
        Ok(b) => Ok(Date(b)),
        Err(e) => Err(e),
    }
}

/// Encodes a date's bit pattern as a value record tagged `VT_DATE`.
pub fn encode_date(host: &mut Host, value: Date) -> (r: Result<
    Ptr<VarRec, VariantDestructor>,
    IntoVariantError,
>)
    ensures
        final(host).counts() == old(host).counts().variant_alloced(),
        final(host).budget() == old(host).budget(),
        r matches Ok(p) && p@ == enc_bits(VT_DATE as u16, value.0) && rec_wf(p@),
{
    Ok(encode_bits_rec(host, VT_DATE as u16, value.0))
}

/// Decodes a date's bit pattern: fails with the mismatch error, carrying the requested and
/// the found tag, unless the record is tagged `VT_DATE`. The record is
/// released on every path.
pub fn decode_date(host: &mut Host, var: Ptr<VarRec, VariantDestructor>) -> (r: Result<
    Date,
    FromVariantError,
>)
    requires
        rec_wf(var@),
    ensures
        final(host).counts() == old(host).counts().plus_frees(rec_fp(var@)),
        final(host).budget() == old(host).budget(),
        r == dec_date(var@),
{
    let b = decode_bits_rec(host, VT_DATE as u16, var)?;
    Ok(Date(b))
}

/// The decoded value of a record holding the platform-sized signed integer, or the error.
pub open spec fn dec_int(rec: VarRec) -> Result<Int, FromVariantError> {
    match dec_bits(rec, VT_INT as u16) {
        Ok(b) => Ok(Int((b as u32) as i32)),
        Err(e) => Err(e),
    }
}

/// Encodes the platform-sized signed integer as a value record tagged `VT_INT`.
pub fn encode_int(host: &mut Host, value: Int) -> (r: Result<
    Ptr<VarRec, VariantDestructor>,
    IntoVariantError,
>)
    ensures
        final(host).counts() == old(host).counts().variant_alloced(),
        final(host).budget() == old(host).budget(),
        r matches Ok(p) && p@ == enc_bits(VT_INT as u16, ((value.0 as u32) as u64)) && rec_wf(p@),
{
    Ok(encode_bits_rec(host, VT_INT as u16, ((value.0 as u32) as u64)))
}

/// Decodes the platform-sized signed integer: fails with the mismatch error, carrying the requested and
/// the found tag, unless the record is tagged `VT_INT`. The record is
/// released on every path.
pub fn decode_int(host: &mut Host, var: Ptr<VarRec, VariantDestructor>) -> (r: Result<
    Int,
    FromVariantError,
>)
    requires
        rec_wf(var@),
    ensures
        final(host).counts() == old(host).counts().plus_frees(rec_fp(var@)),
        final(host).budget() == old(host).budget(),
        r == dec_int(var@),
{
    let b = decode_bits_rec(host, VT_INT as u16, var)?;
    Ok(Int(trunc_i32(b)))
}

/// The decoded value of a record holding the platform-sized unsigned integer, or the error.
pub open spec fn dec_uint(rec: VarRec) -> Result<UInt, FromVariantError> {
    match dec_bits(rec, VT_UINT as u16) {
        Ok(b) => Ok(UInt(b as u32)),
        Err(e) => Err(e),
    }
}

/// Encodes the platform-sized unsigned integer as a value record tagged `VT_UINT`.
pub fn encode_uint(host: &mut Host, value: UInt) -> (r: Result<
    Ptr<VarRec, VariantDestructor>,
    IntoVariantError,
>)
    ensures
        final(host).counts() == old(host).counts().variant_alloced(),
        final(host).budget() == old(host).budget(),
        r matches Ok(p) && p@ == enc_bits(VT_UINT as u16, (value.0 as u64)) && rec_wf(p@),
{
    Ok(encode_bits_rec(host, VT_UINT as u16, (value.0 as u64)))
}

/// Decodes the platform-sized unsigned integer: fails with the mismatch error, carrying the requested and
/// the found tag, unless the record is tagged `VT_UINT`. The record is
/// released on every path.
pub fn decode_uint(host: &mut Host, var: Ptr<VarRec, VariantDestructor>) -> (r: Result<
    UInt,
    FromVariantError,
>)
    requires
        rec_wf(var@),
    ensures
        final(host).counts() == old(host).counts().plus_frees(rec_fp(var@)),
        final(host).budget() == old(host).budget(),
        r == dec_uint(var@),
{
    let b = decode_bits_rec(host, VT_UINT as u16, var)?;
    Ok(UInt(trunc_u32(b)))
}

/// Marker value of the empty kind.
#[derive(Clone, Copy, Debug, PartialEq, Eq, Structural)]
pub struct VtEmpty;

/// Marker value of the null kind.
#[derive(Clone, Copy, Debug, PartialEq, Eq, Structural)]
pub struct VtNull;

/// Wraps a value so that it is carried as a nested value record: the outer
/// record is tagged `VT_VARIANT` and holds a fully independent child record.
pub struct Variant<D, T = D> {
    inner: D,
    _marker: PhantomData<T>,
}

impl<D, T> Variant<D, T> {
    /// The wrapped value.
    pub closed spec fn get(self) -> D {
        self.inner
    }

    /// Wraps a value.
    pub fn wrap(d: D) -> (r: Variant<D, T>)
        ensures
            r.get() == d,
    {
        Variant { inner: d, _marker: PhantomData }
    }

    /// Consumes the wrapper and returns the wrapped value.
    pub fn unwrap(self) -> (r: D)
        ensures
            r == self.get(),
    {
        self.inner
    }
}

/// The decoded witness of an empty record, or the error.
pub open spec fn dec_empty(rec: VarRec) -> Result<VtEmpty, FromVariantError> {
    if rec.vt != VT_EMPTY as u16 {
        Err(mismatch(VT_EMPTY as u16, rec.vt))
    } else {
        Ok(VtEmpty)
    }
}

/// Encodes the empty kind: tag `VT_EMPTY`, zeroed payload.
pub fn encode_empty(host: &mut Host) -> (r: Result<Ptr<VarRec, VariantDestructor>, IntoVariantError>)
    ensures
        final(host).counts() == old(host).counts().variant_alloced(),
        final(host).budget() == old(host).budget(),
        r matches Ok(p) && p@ == enc_bits(VT_EMPTY as u16, 0u64) && rec_wf(p@),
{
    Ok(encode_bits_rec(host, VT_EMPTY as u16, 0))
}

/// Decodes the empty kind; no payload is read. A decimal record also answers
/// to this, since the wide decimal slot leaves the discriminant zero.
pub fn decode_empty(host: &mut Host, var: Ptr<VarRec, VariantDestructor>) -> (r: Result<
    VtEmpty,
    FromVariantError,
>)
    requires
        rec_wf(var@),
    ensures
        final(host).counts() == old(host).counts().plus_frees(rec_fp(var@)),
        final(host).budget() == old(host).budget(),
        r == dec_empty(var@),
{
    let rec = var.into_inner();
    let vt: u16 = rec.vt;
    host.clear_rec(rec);
    if vt != (VT_EMPTY as u16) {
        Err(FromVariantError::VarTypeDoesNotMatch { expected: VT_EMPTY, found: vt as u32 })
    } else {
        Ok(VtEmpty)
    }
}

/// The decoded witness of a null record, or the error.
pub open spec fn dec_null(rec: VarRec) -> Result<VtNull, FromVariantError> {
    if rec.vt != VT_NULL as u16 {
        Err(mismatch(VT_NULL as u16, rec.vt))
    } else {
        Ok(VtNull)
    }
}

/// Encodes the null kind: tag `VT_NULL`, zeroed payload.
pub fn encode_null(host: &mut Host) -> (r: Result<Ptr<VarRec, VariantDestructor>, IntoVariantError>)
    ensures
        final(host).counts() == old(host).counts().variant_alloced(),
        final(host).budget() == old(host).budget(),
        r matches Ok(p) && p@ == enc_bits(VT_NULL as u16, 0u64) && rec_wf(p@),
{
    Ok(encode_bits_rec(host, VT_NULL as u16, 0))
}

/// Decodes the null kind; no payload is read.
pub fn decode_null(host: &mut Host, var: Ptr<VarRec, VariantDestructor>) -> (r: Result<
    VtNull,
    FromVariantError,
>)
    requires
        rec_wf(var@),
    ensures
        final(host).counts() == old(host).counts().plus_frees(rec_fp(var@)),
        final(host).budget() == old(host).budget(),
        r == dec_null(var@),
{
    let rec = var.into_inner();
    let vt: u16 = rec.vt;
    host.clear_rec(rec);
    if vt != (VT_NULL as u16) {
        Err(FromVariantError::VarTypeDoesNotMatch { expected: VT_NULL, found: vt as u32 })
    } else {
        Ok(VtNull)
    }
}

/// The decoded object reference or raw pointer of a record, or the error:
/// a zero payload under the matching tag is the null pointer.
pub open spec fn dec_ref(rec: VarRec, tag: u16) -> Result<u64, FromVariantError> {
    match dec_bits(rec, tag) {
        Ok(b) => if b == 0 {
            Err(FromVariantError::VariantPtrNull)
        } else {
            Ok(b)
        },
        Err(e) => Err(e),
    }
}

fn decode_ref_rec(host: &mut Host, tag: u16, var: Ptr<VarRec, VariantDestructor>) -> (r: Result<
    u64,
    FromVariantError,
>)
    requires
        rec_wf(var@),
    ensures
        final(host).counts() == old(host).counts().plus_frees(rec_fp(var@)),
        final(host).budget() == old(host).budget(),
        r == dec_ref(var@, tag),
{
    let b = decode_bits_rec(host, tag, var)?;
    if b == 0 {
        Err(FromVariantError::VariantPtrNull)
    } else {
        Ok(b)
    }
}

/// Encodes an unknown-interface object reference, carried as its address bits, under tag `VT_UNKNOWN`.
pub fn encode_unknown(host: &mut Host, addr: u64) -> (r: Result<
    Ptr<VarRec, VariantDestructor>,
    IntoVariantError,
>)
    ensures
        final(host).counts() == old(host).counts().variant_alloced(),
        final(host).budget() == old(host).budget(),
        r matches Ok(p) && p@ == enc_bits(VT_UNKNOWN as u16, addr) && rec_wf(p@),
{
    Ok(encode_bits_rec(host, VT_UNKNOWN as u16, addr))
}

/// Decodes an unknown-interface object reference: fails with the mismatch error under any other tag, and
/// with the null-pointer error when the stored address is zero.
pub fn decode_unknown(host: &mut Host, var: Ptr<VarRec, VariantDestructor>) -> (r: Result<
    u64,
    FromVariantError,
>)
    requires
        rec_wf(var@),
    ensures
        final(host).counts() == old(host).counts().plus_frees(rec_fp(var@)),
        final(host).budget() == old(host).budget(),
        r == dec_ref(var@, VT_UNKNOWN as u16),
{
    decode_ref_rec(host, VT_UNKNOWN as u16, var)
}

/// Encodes a dispatch-interface object reference, carried as its address bits, under tag `VT_DISPATCH`.
pub fn encode_dispatch(host: &mut Host, addr: u64) -> (r: Result<
    Ptr<VarRec, VariantDestructor>,
    IntoVariantError,
>)
    ensures
        final(host).counts() == old(host).counts().variant_alloced(),
        final(host).budget() == old(host).budget(),
        r matches Ok(p) && p@ == enc_bits(VT_DISPATCH as u16, addr) && rec_wf(p@),
{
    Ok(encode_bits_rec(host, VT_DISPATCH as u16, addr))
}

/// Decodes a dispatch-interface object reference: fails with the mismatch error under any other tag, and
/// with the null-pointer error when the stored address is zero.
pub fn decode_dispatch(host: &mut Host, var: Ptr<VarRec, VariantDestructor>) -> (r: Result<
    u64,
    FromVariantError,
>)
    requires
        rec_wf(var@),
    ensures
        final(host).counts() == old(host).counts().plus_frees(rec_fp(var@)),
        final(host).budget() == old(host).budget(),
        r == dec_ref(var@, VT_DISPATCH as u16),
{
    decode_ref_rec(host, VT_DISPATCH as u16, var)
}

/// Encodes a raw untyped pointer, carried as its address bits, under tag `VT_BYREF`.
pub fn encode_byref(host: &mut Host, addr: u64) -> (r: Result<
    Ptr<VarRec, VariantDestructor>,
    IntoVariantError,
>)
    ensures
        final(host).counts() == old(host).counts().variant_alloced(),
        final(host).budget() == old(host).budget(),
        r matches Ok(p) && p@ == enc_bits(VT_BYREF as u16, addr) && rec_wf(p@),
{
    Ok(encode_bits_rec(host, VT_BYREF as u16, addr))
}

/// Decodes a raw untyped pointer: fails with the mismatch error under any other tag, and
/// with the null-pointer error when the stored address is zero.
pub fn decode_byref(host: &mut Host, var: Ptr<VarRec, VariantDestructor>) -> (r: Result<
    u64,
    FromVariantError,
>)
    requires
        rec_wf(var@),
    ensures
        final(host).counts() == old(host).counts().plus_frees(rec_fp(var@)),
        final(host).budget() == old(host).budget(),
        r == dec_ref(var@, VT_BYREF as u16),
{
    decode_ref_rec(host, VT_BYREF as u16, var)
}

/// The decoded decimal payload of a record, as the native parts stored in
/// its wide slot, or the mismatch error. The wide slot overlays the
/// discriminant, so a decimal record reads back tag zero; any record whose
/// payload is not a decimal one is refused.
pub open spec fn dec_decimal(rec: VarRec) -> Result<DecParts, FromVariantError> {
    match rec.slot {
        Slot::Dec(p) => Ok(p),
        _ => Err(mismatch(VT_DECIMAL as u16, rec.vt)),
    }
}

/// Encodes a 96-bit decimal into the wide slot outside the ordinary union;
/// the discriminant stays zero, overlaid by that slot.
pub fn encode_decimal(host: &mut Host, value: &DecWrapper) -> (r: Result<
    Ptr<VarRec, VariantDestructor>,
    IntoVariantError,
>)
    ensures
        final(host).counts() == old(host).counts().variant_alloced(),
        final(host).budget() == old(host).budget(),
        r matches Ok(p) && p@ == (VarRec {
            vt: 0u16,
            slot: Slot::Dec(parts_of_serial(dec_serial(value.dec()))),
        }) && rec_wf(p@),
{
    let parts = DecWrapper::build_c_decimal(value.borrow());
    host.tick_variant_alloc();
    Ok(Ptr::new(VarRec { vt: 0, slot: Slot::Dec(parts) }))
}

/// Decodes a 96-bit decimal from the wide slot, rebuilding the library
/// decimal from the stored parts. The record is released on every path.
pub fn decode_decimal(host: &mut Host, var: Ptr<VarRec, VariantDestructor>) -> (r: Result<
    DecWrapper,
    FromVariantError,
>)
    requires
        rec_wf(var@),
    ensures
        final(host).counts() == old(host).counts().plus_frees(rec_fp(var@)),
        final(host).budget() == old(host).budget(),
        match dec_decimal(var@) {
            Ok(p) => r matches Ok(d) && dec_serial(d.dec()) == serial_of_parts(
                (p.lo64 & 0xFFFF_FFFF) as u32,
                ((p.lo64 >> 32) & 0xFFFF_FFFF) as u32,
                p.hi32,
                p.sign == DECIMAL_NEG,
                p.scale,
            ),
            Err(e) => r matches Err(e2) && e2 == e,
        },
{
    let rec = var.into_inner();
    let vt: u16 = rec.vt;
    host.tick_variant_free();
    match rec.slot {
        Slot::Dec(p) => {
            let d = DecWrapper::build_rust_decimal(&p);
            Ok(DecWrapper::new(d))
        },
        other => {
            host.clear_slot(other);
            Err(FromVariantError::VarTypeDoesNotMatch { expected: VT_DECIMAL, found: vt as u32 })
        },
    }
}

/// The decoded code units of a wide-string record, or the error: the
/// mismatch error under any other tag, the null-pointer error when the
/// string slot is null.
pub open spec fn dec_string(rec: VarRec) -> Result<Seq<u16>, FromVariantError> {
    if rec.vt != VT_BSTR as u16 {
        Err(mismatch(VT_BSTR as u16, rec.vt))
    } else {
        match rec.slot {
            Slot::Str(o) => match o {
                Some(b) => Ok(b.units()),
                None => Err(FromVariantError::VariantPtrNull),
            },
            _ => Err(FromVariantError::VariantPtrNull),
        }
    }
}

/// Encodes a wide string: allocates a host-owned buffer with exactly the
/// string's code units, embedded zeros included, under tag `VT_BSTR`. Fails,
/// without leaving anything allocated, exactly when the string allocator's
/// budget is exhausted.
pub fn encode_string(host: &mut Host, value: &widestring::U16String) -> (r: Result<
    Ptr<VarRec, VariantDestructor>,
    IntoVariantError,
>)
    ensures
        final(host).budget() == (match old(host).budget() {
            None => None,
            Some(k) => if k == 0 {
                Some(0usize)
            } else {
                Some((k - 1) as usize)
            },
        }),
        match r {
            Ok(p) => old(host).budget() != Some(0usize) && final(host).counts() == old(
                host,
            ).counts().string_alloced().variant_alloced() && p@.vt == VT_BSTR as u16 && (p@.slot
                matches Slot::Str(o) && o matches Some(b) && b.units() == wide_units(*value))
                && rec_wf(p@),
            Err(e) => old(host).budget() == Some(0usize) && final(host).counts() == old(
                host,
            ).counts() && (e matches IntoVariantError::AllocBStrFailed(be) && *be matches
                BStringError::AllocateFailed { len } && len == wide_units(*value).len()),
        },
{
    let units = u16string_units(value);
    match host.alloc_bstr(units) {
        Ok(b) => {
            host.tick_variant_alloc();
            Ok(Ptr::new(VarRec { vt: VT_BSTR as u16, slot: Slot::Str(Some(b)) }))
        },
        Err(e) => Err(e.into_variant_error()),
    }
}

/// Decodes a wide string: copies out exactly as many code units as the
/// buffer's queried length, then releases the buffer and the record.
pub fn decode_string(host: &mut Host, var: Ptr<VarRec, VariantDestructor>) -> (r: Result<
    widestring::U16String,
    FromVariantError,
>)
    requires
        rec_wf(var@),
    ensures
        final(host).counts() == old(host).counts().plus_frees(rec_fp(var@)),
        final(host).budget() == old(host).budget(),
        match dec_string(var@) {
            Ok(u) => r matches Ok(s) && wide_units(s) == u,
            Err(e) => r matches Err(e2) && e2 == e,
        },
{
    let rec = var.into_inner();
    let vt: u16 = rec.vt;
    host.tick_variant_free();
    match rec.slot {
        Slot::Str(o) => match o {
            Some(b) => {
                let units = host.bstr_read(&b);
                host.free_bstr(b);
                Ok(u16string_from_vec(units))
            },
            None => Err(FromVariantError::VariantPtrNull),
        },
        other => {
            host.clear_slot(other);
            Err(FromVariantError::VarTypeDoesNotMatch { expected: VT_BSTR, found: vt as u32 })
        },
    }
}

/// The child record of a nested value record, or the error: the mismatch
/// error under any other tag, the null-pointer error when the child slot is
/// null.
pub open spec fn dec_nested(rec: VarRec) -> Result<VarRec, FromVariantError> {
    if rec.vt != VT_VARIANT as u16 {
        Err(mismatch(VT_VARIANT as u16, rec.vt))
    } else {
        match rec.slot {
            Slot::Var(o) => match o {
                Some(c) => Ok(*c),
                None => Err(FromVariantError::VariantPtrNull),
            },
            _ => Err(FromVariantError::VariantPtrNull),
        }
    }
}

/// Encodes a nested value record: the outer record, tagged `VT_VARIANT`,
/// takes ownership of the fully independent child record.
pub fn encode_nested(host: &mut Host, child: Ptr<VarRec, VariantDestructor>) -> (r: Result<
    Ptr<VarRec, VariantDestructor>,
    IntoVariantError,
>)
    requires
        rec_wf(child@),
    ensures
        final(host).counts() == old(host).counts().variant_alloced(),
        final(host).budget() == old(host).budget(),
        r matches Ok(p) && p@.vt == VT_VARIANT as u16 && (p@.slot matches Slot::Var(o) && o matches
            Some(c) && *c == child@) && rec_wf(p@),
{
    host.tick_variant_alloc();
    Ok(Ptr::new(VarRec { vt: VT_VARIANT as u16, slot: Slot::Var(Some(Box::new(child.into_inner()))) }))
}

/// Decodes a nested value record: unwraps exactly one level, releasing the
/// outer record and transferring ownership of the child to the caller.
pub fn decode_nested(host: &mut Host, var: Ptr<VarRec, VariantDestructor>) -> (r: Result<
    Ptr<VarRec, VariantDestructor>,
    FromVariantError,
>)
    requires
        rec_wf(var@),
    ensures
        final(host).budget() == old(host).budget(),
        match dec_nested(var@) {
            Ok(child) => r matches Ok(p) && p@ == child && rec_wf(p@) && final(host).counts()
                == old(host).counts().variant_freed(),
            Err(e) => r matches Err(e2) && e2 == e && final(host).counts() == old(
                host,
            ).counts().plus_frees(rec_fp(var@)),
        },
{
    let rec = var.into_inner();
    let vt: u16 = rec.vt;
    host.tick_variant_free();
    match rec.slot {
        Slot::Var(o) => match o {
            Some(c) => Ok(Ptr::new(*c)),
            None => Err(FromVariantError::VariantPtrNull),
        },
        other => {
            host.clear_slot(other);
            Err(FromVariantError::VarTypeDoesNotMatch { expected: VT_VARIANT, found: vt as u32 })
        },
    }
}

/// The array record of an array-kind value record, or the error.
pub open spec fn dec_array(rec: VarRec) -> Result<ArrRec, FromVariantError> {
    if rec.vt != VT_ARRAY as u16 {
        Err(mismatch(VT_ARRAY as u16, rec.vt))
    } else {
        match rec.slot {
            Slot::Arr(o) => match o {
                Some(a) => Ok(*a),
                None => Err(FromVariantError::VariantPtrNull),
            },
            _ => Err(FromVariantError::VariantPtrNull),
        }
    }
}

/// Encodes an array payload: the record, tagged `VT_ARRAY`, takes ownership
/// of the array record.
pub fn encode_array(host: &mut Host, arr: Ptr<ArrRec, DefaultDestructor>) -> (r: Result<
    Ptr<VarRec, VariantDestructor>,
    IntoVariantError,
>)
    requires
        arr_wf(arr@),
    ensures
        final(host).counts() == old(host).counts().variant_alloced(),
        final(host).budget() == old(host).budget(),
        r matches Ok(p) && p@.vt == VT_ARRAY as u16 && (p@.slot matches Slot::Arr(o) && o matches
            Some(a) && *a == arr@) && rec_wf(p@),
{
    host.tick_variant_alloc();
    Ok(Ptr::new(VarRec { vt: VT_ARRAY as u16, slot: Slot::Arr(Some(Box::new(arr.into_inner()))) }))
}

/// Decodes an array payload: releases the value record and hands the array
/// record on to the caller, who decodes or destroys it.
pub fn decode_array(host: &mut Host, var: Ptr<VarRec, VariantDestructor>) -> (r: Result<
    Ptr<ArrRec, DefaultDestructor>,
    FromVariantError,
>)
    requires
        rec_wf(var@),
    ensures
        final(host).budget() == old(host).budget(),
        match dec_array(var@) {
            Ok(a) => r matches Ok(p) && p@ == a && arr_wf(p@) && final(host).counts() == old(
                host,
            ).counts().variant_freed(),
            Err(e) => r matches Err(e2) && e2 == e && final(host).counts() == old(
                host,
            ).counts().plus_frees(rec_fp(var@)),
        },
{
    let rec = var.into_inner();
    let vt: u16 = rec.vt;
    host.tick_variant_free();
    match rec.slot {
        Slot::Arr(o) => match o {
            Some(a) => Ok(Ptr::new(*a)),
            None => Err(FromVariantError::VariantPtrNull),
        },
        other => {
            host.clear_slot(other);
            Err(FromVariantError::VarTypeDoesNotMatch { expected: VT_ARRAY, found: vt as u32 })
        },
    }
}

/// The decoded by-reference value of a record holding a 1-byte unsigned integer, or the error.
pub open spec fn dec_box_u8(rec: VarRec) -> Result<u8, FromVariantError> {
    match dec_cell(rec, VT_PUI1 as u16) {
        Ok(cv) => match cv {
            CellVal::Scalar(b) => Ok((b as u8)),
            CellVal::Dec(_) => Err(FromVariantError::VariantPtrNull),
        },
        Err(e) => Err(e),
    }
}

/// Encodes a 1-byte unsigned integer by reference: the record, tagged `VT_PUI1`, points at a
/// cell holding the value.
pub fn encode_box_u8(host: &mut Host, value: Box<u8>) -> (r: Result<
    Ptr<VarRec, VariantDestructor>,
    IntoVariantError,
>)
    ensures
        final(host).counts() == old(host).counts().variant_alloced(),
        final(host).budget() == old(host).budget(),
        r matches Ok(p) && p@.vt == VT_PUI1 as u16 && (p@.slot matches Slot::Cell(c) && c matches
            Some(inner) && *inner == CellVal::Scalar((*value) as u64)) && rec_wf(p@),
{
    Ok(encode_cell_rec(host, VT_PUI1 as u16, CellVal::Scalar((*value) as u64)))
}

/// Decodes a 1-byte unsigned integer by reference: fails with the mismatch error under any
/// other tag, and with the null-pointer error when the cell pointer is null.
pub fn decode_box_u8(host: &mut Host, var: Ptr<VarRec, VariantDestructor>) -> (r: Result<
    Box<u8>,
    FromVariantError,
>)
    requires
        rec_wf(var@),
    ensures
        final(host).counts() == old(host).counts().plus_frees(rec_fp(var@)),
        final(host).budget() == old(host).budget(),
        match dec_box_u8(var@) {
            Ok(v) => r matches Ok(bx) && *bx == v,
            Err(e) => r matches Err(e2) && e2 == e,
        },
{
    let cv = decode_cell_rec(host, VT_PUI1 as u16, var)?;
    match cv {
        CellVal::Scalar(b) => Ok(Box::new(trunc_u8(b))),
        CellVal::Dec(_) => Err(FromVariantError::VariantPtrNull),
    }
}

/// The decoded by-reference value of a record holding a 2-byte signed integer, or the error.
pub open spec fn dec_box_i16(rec: VarRec) -> Result<i16, FromVariantError> {
    match dec_cell(rec, VT_PI2 as u16) {
        Ok(cv) => match cv {
            CellVal::Scalar(b) => Ok(((b as u16) as i16)),
            CellVal::Dec(_) => Err(FromVariantError::VariantPtrNull),
        },
        Err(e) => Err(e),
    }
}

/// Encodes a 2-byte signed integer by reference: the record, tagged `VT_PI2`, points at a
/// cell holding the value.
pub fn encode_box_i16(host: &mut Host, value: Box<i16>) -> (r: Result<
    Ptr<VarRec, VariantDestructor>,
    IntoVariantError,
>)
    ensures
        final(host).counts() == old(host).counts().variant_alloced(),
        final(host).budget() == old(host).budget(),
        r matches Ok(p) && p@.vt == VT_PI2 as u16 && (p@.slot matches Slot::Cell(c) && c matches
            Some(inner) && *inner == CellVal::Scalar(((*value) as u16) as u64)) && rec_wf(p@),
{
    Ok(encode_cell_rec(host, VT_PI2 as u16, CellVal::Scalar(((*value) as u16) as u64)))
}

/// Decodes a 2-byte signed integer by reference: fails with the mismatch error under any
/// other tag, and with the null-pointer error when the cell pointer is null.
pub fn decode_box_i16(host: &mut Host, var: Ptr<VarRec, VariantDestructor>) -> (r: Result<
    Box<i16>,
    FromVariantError,
>)
    requires
        rec_wf(var@),
    ensures
        final(host).counts() == old(host).counts().plus_frees(rec_fp(var@)),
        final(host).budget() == old(host).budget(),
        match dec_box_i16(var@) {
            Ok(v) => r matches Ok(bx) && *bx == v,
            Err(e) => r matches Err(e2) && e2 == e,
        },
{
    let cv = decode_cell_rec(host, VT_PI2 as u16, var)?;
    match cv {
        CellVal::Scalar(b) => Ok(Box::new(trunc_i16(b))),
        CellVal::Dec(_) => Err(FromVariantError::VariantPtrNull),
    }
}

/// The decoded by-reference value of a record holding a 4-byte signed integer, or the error.
pub open spec fn dec_box_i32(rec: VarRec) -> Result<i32, FromVariantError> {
    match dec_cell(rec, VT_PI4 as u16) {
        Ok(cv) => match cv {
            CellVal::Scalar(b) => Ok(((b as u32) as i32)),
            CellVal::Dec(_) => Err(FromVariantError::VariantPtrNull),
        },
        Err(e) => Err(e),
    }
}

/// Encodes a 4-byte signed integer by reference: the record, tagged `VT_PI4`, points at a
/// cell holding the value.
pub fn encode_box_i32(host: &mut Host, value: Box<i32>) -> (r: Result<
    Ptr<VarRec, VariantDestructor>,
    IntoVariantError,
>)
    ensures
        final(host).counts() == old(host).counts().variant_alloced(),
        final(host).budget() == old(host).budget(),
        r matches Ok(p) && p@.vt == VT_PI4 as u16 && (p@.slot matches Slot::Cell(c) && c matches
            Some(inner) && *inner == CellVal::Scalar(((*value) as u32) as u64)) && rec_wf(p@),
{
    Ok(encode_cell_rec(host, VT_PI4 as u16, CellVal::Scalar(((*value) as u32) as u64)))
}

/// Decodes a 4-byte signed integer by reference: fails with the mismatch error under any
/// other tag, and with the null-pointer error when the cell pointer is null.
pub fn decode_box_i32(host: &mut Host, var: Ptr<VarRec, VariantDestructor>) -> (r: Result<
    Box<i32>,
    FromVariantError,
>)
    requires
        rec_wf(var@),
    ensures
        final(host).counts() == old(host).counts().plus_frees(rec_fp(var@)),
        final(host).budget() == old(host).budget(),
        match dec_box_i32(var@) {
            Ok(v) => r matches Ok(bx) && *bx == v,
            Err(e) => r matches Err(e2) && e2 == e,
        },
{
    let cv = decode_cell_rec(host, VT_PI4 as u16, var)?;
    match cv {
        CellVal::Scalar(b) => Ok(Box::new(trunc_i32(b))),
        CellVal::Dec(_) => Err(FromVariantError::VariantPtrNull),
    }
}

/// The decoded by-reference value of a record holding an 8-byte signed integer, or the error.
pub open spec fn dec_box_i64(rec: VarRec) -> Result<i64, FromVariantError> {
    match dec_cell(rec, VT_PI8 as u16) {
        Ok(cv) => match cv {
            CellVal::Scalar(b) => Ok((b as i64)),
            CellVal::Dec(_) => Err(FromVariantError::VariantPtrNull),
        },
        Err(e) => Err(e),
    }
}

/// Encodes an 8-byte signed integer by reference: the record, tagged `VT_PI8`, points at a
/// cell holding the value.
pub fn encode_box_i64(host: &mut Host, value: Box<i64>) -> (r: Result<
    Ptr<VarRec, VariantDestructor>,
    IntoVariantError,
>)
    ensures
        final(host).counts() == old(host).counts().variant_alloced(),
        final(host).budget() == old(host).budget(),
        r matches Ok(p) && p@.vt == VT_PI8 as u16 && (p@.slot matches Slot::Cell(c) && c matches
            Some(inner) && *inner == CellVal::Scalar((*value) as u64)) && rec_wf(p@),
{
    Ok(encode_cell_rec(host, VT_PI8 as u16, CellVal::Scalar((*value) as u64)))
}

/// Decodes an 8-byte signed integer by reference: fails with the mismatch error under any
/// other tag, and with the null-pointer error when the cell pointer is null.
pub fn decode_box_i64(host: &mut Host, var: Ptr<VarRec, VariantDestructor>) -> (r: Result<
    Box<i64>,
    FromVariantError,
>)
    requires
        rec_wf(var@),
    ensures
        final(host).counts() == old(host).counts().plus_frees(rec_fp(var@)),
        final(host).budget() == old(host).budget(),
        match dec_box_i64(var@) {
            Ok(v) => r matches Ok(bx) && *bx == v,
            Err(e) => r matches Err(e2) && e2 == e,
        },
{
    let cv = decode_cell_rec(host, VT_PI8 as u16, var)?;
    match cv {
        CellVal::Scalar(b) => Ok(Box::new(trunc_i64(b))),
        CellVal::Dec(_) => Err(FromVariantError::VariantPtrNull),
    }
}

/// The decoded by-reference value of a record holding an 8-byte unsigned integer, or the error.
pub open spec fn dec_box_u64(rec: VarRec) -> Result<u64, FromVariantError> {
    match dec_cell(rec, VT_PUI8 as u16) {
        Ok(cv) => match cv {
            CellVal::Scalar(b) => Ok(b),
            CellVal::Dec(_) => Err(FromVariantError::VariantPtrNull),
        },
        Err(e) => Err(e),
    }
}

/// Encodes an 8-byte unsigned integer by reference: the record, tagged `VT_PUI8`, points at a
/// cell holding the value.
pub fn encode_box_u64(host: &mut Host, value: Box<u64>) -> (r: Result<
    Ptr<VarRec, VariantDestructor>,
    IntoVariantError,
>)
    ensures
        final(host).counts() == old(host).counts().variant_alloced(),
        final(host).budget() == old(host).budget(),
        r matches Ok(p) && p@.vt == VT_PUI8 as u16 && (p@.slot matches Slot::Cell(c) && c matches
            Some(inner) && *inner == CellVal::Scalar(*value)) && rec_wf(p@),
{
    Ok(encode_cell_rec(host, VT_PUI8 as u16, CellVal::Scalar(*value)))
}

/// Decodes an 8-byte unsigned integer by reference: fails with the mismatch error under any
/// other tag, and with the null-pointer error when the cell pointer is null.
pub fn decode_box_u64(host: &mut Host, var: Ptr<VarRec, VariantDestructor>) -> (r: Result<
    Box<u64>,
    FromVariantError,
>)
    requires
        rec_wf(var@),
    ensures
        final(host).counts() == old(host).counts().plus_frees(rec_fp(var@)),
        final(host).budget() == old(host).budget(),
        match dec_box_u64(var@) {
            Ok(v) => r matches Ok(bx) && *bx == v,
            Err(e) => r matches Err(e2) && e2 == e,
        },
{
    let cv = decode_cell_rec(host, VT_PUI8 as u16, var)?;
    match cv {
        CellVal::Scalar(b) => Ok(Box::new(b)),
        CellVal::Dec(_) => Err(FromVariantError::VariantPtrNull),
    }
}

/// The decoded by-reference value of a record holding the bits of a 4-byte float, or the error.
pub open spec fn dec_box_f32_bits(rec: VarRec) -> Result<u32, FromVariantError> {
    match dec_cell(rec, VT_PR4 as u16) {
        Ok(cv) => match cv {
            CellVal::Scalar(b) => Ok((b as u32)),
            CellVal::Dec(_) => Err(FromVariantError::VariantPtrNull),
        },
        Err(e) => Err(e),
    }
}

/// Encodes the bits of a 4-byte float by reference: the record, tagged `VT_PR4`, points at a
/// cell holding the value.
pub fn encode_box_f32_bits(host: &mut Host, value: Box<u32>) -> (r: Result<
    Ptr<VarRec, VariantDestructor>,
    IntoVariantError,
>)
    ensures
        final(host).counts() == old(host).counts().variant_alloced(),
        final(host).budget() == old(host).budget(),
        r matches Ok(p) && p@.vt == VT_PR4 as u16 && (p@.slot matches Slot::Cell(c) && c matches
            Some(inner) && *inner == CellVal::Scalar((*value) as u64)) && rec_wf(p@),
{
    Ok(encode_cell_rec(host, VT_PR4 as u16, CellVal::Scalar((*value) as u64)))
}

/// Decodes the bits of a 4-byte float by reference: fails with the mismatch error under any
/// other tag, and with the null-pointer error when the cell pointer is null.
pub fn decode_box_f32_bits(host: &mut Host, var: Ptr<VarRec, VariantDestructor>) -> (r: Result<
    Box<u32>,
    FromVariantError,
>)
    requires
        rec_wf(var@),
    ensures
        final(host).counts() == old(host).counts().plus_frees(rec_fp(var@)),
        final(host).budget() == old(host).budget(),
        match dec_box_f32_bits(var@) {
            Ok(v) => r matches Ok(bx) && *bx == v,
            Err(e) => r matches Err(e2) && e2 == e,
        },
{
    let cv = decode_cell_rec(host, VT_PR4 as u16, var)?;
    match cv {
        CellVal::Scalar(b) => Ok(Box::new(trunc_u32(b))),
        CellVal::Dec(_) => Err(FromVariantError::VariantPtrNull),
    }
}

/// The decoded by-reference value of a record holding the bits of an 8-byte float, or the error.
pub open spec fn dec_box_f64_bits(rec: VarRec) -> Result<u64, FromVariantError> {
    match dec_cell(rec, VT_PR8 as u16) {
        Ok(cv) => match cv {
            CellVal::Scalar(b) => Ok(b),
            CellVal::Dec(_) => Err(FromVariantError::VariantPtrNull),
        },
        Err(e) => Err(e),
    }
}

/// Encodes the bits of an 8-byte float by reference: the record, tagged `VT_PR8`, points at a
/// cell holding the value.
pub fn encode_box_f64_bits(host: &mut Host, value: Box<u64>) -> (r: Result<
    Ptr<VarRec, VariantDestructor>,
    IntoVariantError,
>)
    ensures
        final(host).counts() == old(host).counts().variant_alloced(),
        final(host).budget() == old(host).budget(),
        r matches Ok(p) && p@.vt == VT_PR8 as u16 && (p@.slot matches Slot::Cell(c) && c matches
            Some(inner) && *inner == CellVal::Scalar(*value)) && rec_wf(p@),
{
    Ok(encode_cell_rec(host, VT_PR8 as u16, CellVal::Scalar(*value)))
}

/// Decodes the bits of an 8-byte float by reference: fails with the mismatch error under any
/// other tag, and with the null-pointer error when the cell pointer is null.
pub fn decode_box_f64_bits(host: &mut Host, var: Ptr<VarRec, VariantDestructor>) -> (r: Result<
    Box<u64>,
    FromVariantError,
>)
    requires
        rec_wf(var@),
    ensures
        final(host).counts() == old(host).counts().plus_frees(rec_fp(var@)),
        final(host).budget() == old(host).budget(),
        match dec_box_f64_bits(var@) {
            Ok(v) => r matches Ok(bx) && *bx == v,
            Err(e) => r matches Err(e2) && e2 == e,
        },
{
    let cv = decode_cell_rec(host, VT_PR8 as u16, var)?;
    match cv {
        CellVal::Scalar(b) => Ok(Box::new(b)),
        CellVal::Dec(_) => Err(FromVariantError::VariantPtrNull),
    }
}

/// The decoded by-reference value of a record holding the automation boolean, or the error.
pub open spec fn dec_box_bool(rec: VarRec) -> Result<VariantBool, FromVariantError> {
    match dec_cell(rec, VT_PBOOL as u16) {
        Ok(cv) => match cv {
            CellVal::Scalar(b) => Ok(VariantBool(((b as u16) as i16) < 0)),
            CellVal::Dec(_) => Err(FromVariantError::VariantPtrNull),
        },
        Err(e) => Err(e),
    }
}

/// Encodes the automation boolean by reference: the record, tagged `VT_PBOOL`, points at a
/// cell holding the value.
pub fn encode_box_bool(host: &mut Host, value: Box<VariantBool>) -> (r: Result<
    Ptr<VarRec, VariantDestructor>,
    IntoVariantError,
>)
    ensures
        final(host).counts() == old(host).counts().variant_alloced(),
        final(host).budget() == old(host).budget(),
        r matches Ok(p) && p@.vt == VT_PBOOL as u16 && (p@.slot matches Slot::Cell(c) && c matches
            Some(inner) && *inner == CellVal::Scalar((if (*value).0 { 0xFFFFu64 } else { 0u64 }))) && rec_wf(p@),
{
    Ok(encode_cell_rec(host, VT_PBOOL as u16, CellVal::Scalar((if (*value).0 { 0xFFFFu64 } else { 0u64 }))))
}

/// Decodes the automation boolean by reference: fails with the mismatch error under any
/// other tag, and with the null-pointer error when the cell pointer is null.
pub fn decode_box_bool(host: &mut Host, var: Ptr<VarRec, VariantDestructor>) -> (r: Result<
    Box<VariantBool>,
    FromVariantError,
>)
    requires
        rec_wf(var@),
    ensures
        final(host).counts() == old(host).counts().plus_frees(rec_fp(var@)),
        final(host).budget() == old(host).budget(),
        match dec_box_bool(var@) {
            Ok(v) => r matches Ok(bx) && *bx == v,
            Err(e) => r matches Err(e2) && e2 == e,
        },
{
    let cv = decode_cell_rec(host, VT_PBOOL as u16, var)?;
    match cv {
        CellVal::Scalar(b) => {
        let w = trunc_i16(b);
        Ok(Box::new(VariantBool::from_raw(w)))
    },
        CellVal::Dec(_) => Err(FromVariantError::VariantPtrNull),
    }
}

/// The decoded by-reference value of a record holding a status code, or the error.
pub open spec fn dec_box_scode(rec: VarRec) -> Result<SCode, FromVariantError> {
    match dec_cell(rec, VT_PERROR as u16) {
        Ok(cv) => match cv {
            CellVal::Scalar(b) => Ok(SCode((b as u32) as i32)),
            CellVal::Dec(_) => Err(FromVariantError::VariantPtrNull),
        },
        Err(e) => Err(e),
    }
}

/// Encodes a status code by reference: the record, tagged `VT_PERROR`, points at a
/// cell holding the value.
pub fn encode_box_scode(host: &mut Host, value: Box<SCode>) -> (r: Result<
    Ptr<VarRec, VariantDestructor>,
    IntoVariantError,
>)
    ensures
        final(host).counts() == old(host).counts().variant_alloced(),
        final(host).budget() == old(host).budget(),
        r matches Ok(p) && p@.vt == VT_PERROR as u16 && (p@.slot matches Slot::Cell(c) && c matches
            Some(inner) && *inner == CellVal::Scalar((((*value).0 as u32) as u64))) && rec_wf(p@),
{
    Ok(encode_cell_rec(host, VT_PERROR as u16, CellVal::Scalar((((*value).0 as u32) as u64))))
}

/// Decodes a status code by reference: fails with the mismatch error under any
/// other tag, and with the null-pointer error when the cell pointer is null.
pub fn decode_box_scode(host: &mut Host, var: Ptr<VarRec, VariantDestructor>) -> (r: Result<
    Box<SCode>,
    FromVariantError,
>)
    requires
        rec_wf(var@),
    ensures
        final(host).counts() == old(host).counts().plus_frees(rec_fp(var@)),
        final(host).budget() == old(host).budget(),
        match dec_box_scode(var@) {
            Ok(v) => r matches Ok(bx) && *bx == v,
            Err(e) => r matches Err(e2) && e2 == e,
        },
{
    let cv = decode_cell_rec(host, VT_PERROR as u16, var)?;
    match cv {
        CellVal::Scalar(b) => Ok(Box::new(SCode(trunc_i32(b)))),
        CellVal::Dec(_) => Err(FromVariantError::VariantPtrNull),
    }
}

/// The decoded by-reference value of a record holding a currency amount, or the error.
pub open spec fn dec_box_cy(rec: VarRec) -> Result<Currency, FromVariantError> {
    match dec_cell(rec, VT_PCY as u16) {
        Ok(cv) => match cv {
            CellVal::Scalar(b) => Ok(Currency(b as i64)),
            CellVal::Dec(_) => Err(FromVariantError::VariantPtrNull),
        },
        Err(e) => Err(e),
    }
}

/// Encodes a currency amount by reference: the record, tagged `VT_PCY`, points at a
/// cell holding the value.
pub fn encode_box_cy(host: &mut Host, value: Box<Currency>) -> (r: Result<
    Ptr<VarRec, VariantDestructor>,
    IntoVariantError,
>)
    ensures
        final(host).counts() == old(host).counts().variant_alloced(),
        final(host).budget() == old(host).budget(),
        r matches Ok(p) && p@.vt == VT_PCY as u16 && (p@.slot matches Slot::Cell(c) && c matches
            Some(inner) && *inner == CellVal::Scalar(((*value).0 as u64))) && rec_wf(p@),
{
    Ok(encode_cell_rec(host, VT_PCY as u16, CellVal::Scalar(((*value).0 as u64))))
}

/// Decodes a currency amount by reference: fails with the mismatch error under any
/// other tag, and with the null-pointer error when the cell pointer is null.
pub fn decode_box_cy(host: &mut Host, var: Ptr<VarRec, VariantDestructor>) -> (r: Result<
    Box<Currency>,
    FromVariantError,
>)
    requires
        rec_wf(var@),
    ensures
        final(host).counts() == old(host).counts().plus_frees(rec_fp(var@)),
        final(host).budget() == old(host).budget(),
        match dec_box_cy(var@) {
            Ok(v) => r matches Ok(bx) && *bx == v,
            Err(e) => r matches Err(e2) && e2 == e,
        },
{
    let cv = decode_cell_rec(host, VT_PCY as u16, var)?;
    match cv {
        CellVal::Scalar(b) => Ok(Box::new(Currency(trunc_i64(b)))),
        CellVal::Dec(_) => Err(FromVariantError::VariantPtrNull),
    }
}

/// The decoded by-reference value of a record holding a date's bit pattern, or the error.
pub open spec fn dec_box_date(rec: VarRec) -> Result<Date, FromVariantError> {
    match dec_cell(rec, VT_PDATE as u16) {
        Ok(cv) => match cv {
            CellVal::Scalar(b) => Ok(Date(b)),
            CellVal::Dec(_) => Err(FromVariantError::VariantPtrNull),
        },
        Err(e) => Err(e),
    }
}

/// Encodes a date's bit pattern by reference: the record, tagged `VT_PDATE`, points at a
/// cell holding the value.
pub fn encode_box_date(host: &mut Host, value: Box<Date>) -> (r: Result<
    Ptr<VarRec, VariantDestructor>,
    IntoVariantError,
>)
    ensures
        final(host).counts() == old(host).counts().variant_alloced(),
        final(host).budget() == old(host).budget(),
        r matches Ok(p) && p@.vt == VT_PDATE as u16 && (p@.slot matches Slot::Cell(c) && c matches
            Some(inner) && *inner == CellVal::Scalar((*value).0)) && rec_wf(p@),
{
    Ok(encode_cell_rec(host, VT_PDATE as u16, CellVal::Scalar((*value).0)))
}

/// Decodes a date's bit pattern by reference: fails with the mismatch error under any
/// other tag, and with the null-pointer error when the cell pointer is null.
pub fn decode_box_date(host: &mut Host, var: Ptr<VarRec, VariantDestructor>) -> (r: Result<
    Box<Date>,
    FromVariantError,
>)
    requires
        rec_wf(var@),
    ensures
        final(host).counts() == old(host).counts().plus_frees(rec_fp(var@)),
        final(host).budget() == old(host).budget(),
        match dec_box_date(var@) {
            Ok(v) => r matches Ok(bx) && *bx == v,
            Err(e) => r matches Err(e2) && e2 == e,
        },
{
    let cv = decode_cell_rec(host, VT_PDATE as u16, var)?;
    match cv {
        CellVal::Scalar(b) => Ok(Box::new(Date(b))),
        CellVal::Dec(_) => Err(FromVariantError::VariantPtrNull),
    }
}

/// The decoded by-reference value of a record holding a 1-byte signed integer, or the error.
pub open spec fn dec_box_i8(rec: VarRec) -> Result<i8, FromVariantError> {
    match dec_cell(rec, VT_PI1 as u16) {
        Ok(cv) => match cv {
            CellVal::Scalar(b) => Ok(((b as u8) as i8)),
            CellVal::Dec(_) => Err(FromVariantError::VariantPtrNull),
        },
        Err(e) => Err(e),
    }
}

/// Encodes a 1-byte signed integer by reference: the record, tagged `VT_PI1`, points at a
/// cell holding the value.
pub fn encode_box_i8(host: &mut Host, value: Box<i8>) -> (r: Result<
    Ptr<VarRec, VariantDestructor>,
    IntoVariantError,
>)
    ensures
        final(host).counts() == old(host).counts().variant_alloced(),
        final(host).budget() == old(host).budget(),
        r matches Ok(p) && p@.vt == VT_PI1 as u16 && (p@.slot matches Slot::Cell(c) && c matches
            Some(inner) && *inner == CellVal::Scalar(((*value) as u8) as u64)) && rec_wf(p@),
{
    Ok(encode_cell_rec(host, VT_PI1 as u16, CellVal::Scalar(((*value) as u8) as u64)))
}

/// Decodes a 1-byte signed integer by reference: fails with the mismatch error under any
/// other tag, and with the null-pointer error when the cell pointer is null.
pub fn decode_box_i8(host: &mut Host, var: Ptr<VarRec, VariantDestructor>) -> (r: Result<
    Box<i8>,
    FromVariantError,
>)
    requires
        rec_wf(var@),
    ensures
        final(host).counts() == old(host).counts().plus_frees(rec_fp(var@)),
        final(host).budget() == old(host).budget(),
        match dec_box_i8(var@) {
            Ok(v) => r matches Ok(bx) && *bx == v,
            Err(e) => r matches Err(e2) && e2 == e,
        },
{
    let cv = decode_cell_rec(host, VT_PI1 as u16, var)?;
    match cv {
        CellVal::Scalar(b) => Ok(Box::new(trunc_i8(b))),
        CellVal::Dec(_) => Err(FromVariantError::VariantPtrNull),
    }
}

/// The decoded by-reference value of a record holding a 2-byte unsigned integer, or the error.
pub open spec fn dec_box_u16(rec: VarRec) -> Result<u16, FromVariantError> {
    match dec_cell(rec, VT_PUI2 as u16) {
        Ok(cv) => match cv {
            CellVal::Scalar(b) => Ok((b as u16)),
            CellVal::Dec(_) => Err(FromVariantError::VariantPtrNull),
        },
        Err(e) => Err(e),
    }
}

/// Encodes a 2-byte unsigned integer by reference: the record, tagged `VT_PUI2`, points at a
/// cell holding the value.
pub fn encode_box_u16(host: &mut Host, value: Box<u16>) -> (r: Result<
    Ptr<VarRec, VariantDestructor>,
    IntoVariantError,
>)
    ensures
        final(host).counts() == old(host).counts().variant_alloced(),
        final(host).budget() == old(host).budget(),
        r matches Ok(p) && p@.vt == VT_PUI2 as u16 && (p@.slot matches Slot::Cell(c) && c matches
            Some(inner) && *inner == CellVal::Scalar((*value) as u64)) && rec_wf(p@),
{
    Ok(encode_cell_rec(host, VT_PUI2 as u16, CellVal::Scalar((*value) as u64)))
}

/// Decodes a 2-byte unsigned integer by reference: fails with the mismatch error under any
/// other tag, and with the null-pointer error when the cell pointer is null.
pub fn decode_box_u16(host: &mut Host, var: Ptr<VarRec, VariantDestructor>) -> (r: Result<
    Box<u16>,
    FromVariantError,
>)
    requires
        rec_wf(var@),
    ensures
        final(host).counts() == old(host).counts().plus_frees(rec_fp(var@)),
        final(host).budget() == old(host).budget(),
        match dec_box_u16(var@) {
            Ok(v) => r matches Ok(bx) && *bx == v,
            Err(e) => r matches Err(e2) && e2 == e,
        },
{
    let cv = decode_cell_rec(host, VT_PUI2 as u16, var)?;
    match cv {
        CellVal::Scalar(b) => Ok(Box::new(trunc_u16(b))),
        CellVal::Dec(_) => Err(FromVariantError::VariantPtrNull),
    }
}

/// The decoded by-reference value of a record holding a 4-byte unsigned integer, or the error.
pub open spec fn dec_box_u32(rec: VarRec) -> Result<u32, FromVariantError> {
    match dec_cell(rec, VT_PUI4 as u16) {
        Ok(cv) => match cv {
            CellVal::Scalar(b) => Ok((b as u32)),
            CellVal::Dec(_) => Err(FromVariantError::VariantPtrNull),
        },
        Err(e) => Err(e),
    }
}

/// Encodes a 4-byte unsigned integer by reference: the record, tagged `VT_PUI4`, points at a
/// cell holding the value.
pub fn encode_box_u32(host: &mut Host, value: Box<u32>) -> (r: Result<
    Ptr<VarRec, VariantDestructor>,
    IntoVariantError,
>)
    ensures
        final(host).counts() == old(host).counts().variant_alloced(),
        final(host).budget() == old(host).budget(),
        r matches Ok(p) && p@.vt == VT_PUI4 as u16 && (p@.slot matches Slot::Cell(c) && c matches
            Some(inner) && *inner == CellVal::Scalar((*value) as u64)) && rec_wf(p@),
{
    Ok(encode_cell_rec(host, VT_PUI4 as u16, CellVal::Scalar((*value) as u64)))
}

/// Decodes a 4-byte unsigned integer by reference: fails with the mismatch error under any
/// other tag, and with the null-pointer error when the cell pointer is null.
pub fn decode_box_u32(host: &mut Host, var: Ptr<VarRec, VariantDestructor>) -> (r: Result<
    Box<u32>,
    FromVariantError,
>)
    requires
        rec_wf(var@),
    ensures
        final(host).counts() == old(host).counts().plus_frees(rec_fp(var@)),
        final(host).budget() == old(host).budget(),
        match dec_box_u32(var@) {
            Ok(v) => r matches Ok(bx) && *bx == v,
            Err(e) => r matches Err(e2) && e2 == e,
        },
{
    let cv = decode_cell_rec(host, VT_PUI4 as u16, var)?;
    match cv {
        CellVal::Scalar(b) => Ok(Box::new(trunc_u32(b))),
        CellVal::Dec(_) => Err(FromVariantError::VariantPtrNull),
    }
}

/// The decoded by-reference value of a record holding the platform-sized signed integer, or the error.
pub open spec fn dec_box_int(rec: VarRec) -> Result<Int, FromVariantError> {
    match dec_cell(rec, VT_PINT as u16) {
        Ok(cv) => match cv {
            CellVal::Scalar(b) => Ok(Int((b as u32) as i32)),
            CellVal::Dec(_) => Err(FromVariantError::VariantPtrNull),
        },
        Err(e) => Err(e),
    }
}

/// Encodes the platform-sized signed integer by reference: the record, tagged `VT_PINT`, points at a
/// cell holding the value.
pub fn encode_box_int(host: &mut Host, value: Box<Int>) -> (r: Result<
    Ptr<VarRec, VariantDestructor>,
    IntoVariantError,
>)
    ensures
        final(host).counts() == old(host).counts().variant_alloced(),
        final(host).budget() == old(host).budget(),
        r matches Ok(p) && p@.vt == VT_PINT as u16 && (p@.slot matches Slot::Cell(c) && c matches
            Some(inner) && *inner == CellVal::Scalar((((*value).0 as u32) as u64))) && rec_wf(p@),
{
    Ok(encode_cell_rec(host, VT_PINT as u16, CellVal::Scalar((((*value).0 as u32) as u64))))
}

/// Decodes the platform-sized signed integer by reference: fails with the mismatch error under any
/// other tag, and with the null-pointer error when the cell pointer is null.
pub fn decode_box_int(host: &mut Host, var: Ptr<VarRec, VariantDestructor>) -> (r: Result<
    Box<Int>,
    FromVariantError,
>)
    requires
        rec_wf(var@),
    ensures
        final(host).counts() == old(host).counts().plus_frees(rec_fp(var@)),
        final(host).budget() == old(host).budget(),
        match dec_box_int(var@) {
            Ok(v) => r matches Ok(bx) && *bx == v,
            Err(e) => r matches Err(e2) && e2 == e,
        },
{
    let cv = decode_cell_rec(host, VT_PINT as u16, var)?;
    match cv {
        CellVal::Scalar(b) => Ok(Box::new(Int(trunc_i32(b)))),
        CellVal::Dec(_) => Err(FromVariantError::VariantPtrNull),
    }
}

/// The decoded by-reference value of a record holding the platform-sized unsigned integer, or the error.
pub open spec fn dec_box_uint(rec: VarRec) -> Result<UInt, FromVariantError> {
    match dec_cell(rec, VT_PUINT as u16) {
        Ok(cv) => match cv {
            CellVal::Scalar(b) => Ok(UInt(b as u32)),
            CellVal::Dec(_) => Err(FromVariantError::VariantPtrNull),
        },
        Err(e) => Err(e),
    }
}

/// Encodes the platform-sized unsigned integer by reference: the record, tagged `VT_PUINT`, points at a
/// cell holding the value.
pub fn encode_box_uint(host: &mut Host, value: Box<UInt>) -> (r: Result<
    Ptr<VarRec, VariantDestructor>,
    IntoVariantError,
>)
    ensures
        final(host).counts() == old(host).counts().variant_alloced(),
        final(host).budget() == old(host).budget(),
        r matches Ok(p) && p@.vt == VT_PUINT as u16 && (p@.slot matches Slot::Cell(c) && c matches
            Some(inner) && *inner == CellVal::Scalar(((*value).0 as u64))) && rec_wf(p@),
{
    Ok(encode_cell_rec(host, VT_PUINT as u16, CellVal::Scalar(((*value).0 as u64))))
}

/// Decodes the platform-sized unsigned integer by reference: fails with the mismatch error under any
/// other tag, and with the null-pointer error when the cell pointer is null.
pub fn decode_box_uint(host: &mut Host, var: Ptr<VarRec, VariantDestructor>) -> (r: Result<
    Box<UInt>,
    FromVariantError,
>)
    requires
        rec_wf(var@),
    ensures
        final(host).counts() == old(host).counts().plus_frees(rec_fp(var@)),
        final(host).budget() == old(host).budget(),
        match dec_box_uint(var@) {
            Ok(v) => r matches Ok(bx) && *bx == v,
            Err(e) => r matches Err(e2) && e2 == e,
        },
{
    let cv = decode_cell_rec(host, VT_PUINT as u16, var)?;
    match cv {
        CellVal::Scalar(b) => Ok(Box::new(UInt(trunc_u32(b)))),
        CellVal::Dec(_) => Err(FromVariantError::VariantPtrNull),
    }
}

/// The decoded by-reference decimal parts of a record, or the error.
pub open spec fn dec_box_decimal(rec: VarRec) -> Result<DecParts, FromVariantError> {
    match dec_cell(rec, VT_PDECIMAL as u16) {
        Ok(cv) => match cv {
            CellVal::Dec(p) => Ok(p),
            CellVal::Scalar(_) => Err(FromVariantError::VariantPtrNull),
        },
        Err(e) => Err(e),
    }
}

/// Encodes a 96-bit decimal by reference: the record, tagged `VT_PDECIMAL`,
/// points at a cell holding the native decimal parts.
pub fn encode_box_decimal(host: &mut Host, value: Box<DecWrapper>) -> (r: Result<
    Ptr<VarRec, VariantDestructor>,
    IntoVariantError,
>)
    ensures
        final(host).counts() == old(host).counts().variant_alloced(),
        final(host).budget() == old(host).budget(),
        r matches Ok(p) && p@.vt == VT_PDECIMAL as u16 && (p@.slot matches Slot::Cell(c) && c
            matches Some(inner) && *inner == CellVal::Dec(
            parts_of_serial(dec_serial(value.dec())),
        )) && rec_wf(p@),
{
    let parts = DecWrapper::build_c_decimal(value.borrow());
    Ok(encode_cell_rec(host, VT_PDECIMAL as u16, CellVal::Dec(parts)))
}

/// Decodes a 96-bit decimal by reference, rebuilding the library decimal
/// from the parts in the cell.
pub fn decode_box_decimal(host: &mut Host, var: Ptr<VarRec, VariantDestructor>) -> (r: Result<
    Box<DecWrapper>,
    FromVariantError,
>)
    requires
        rec_wf(var@),
    ensures
        final(host).counts() == old(host).counts().plus_frees(rec_fp(var@)),
        final(host).budget() == old(host).budget(),
        match dec_box_decimal(var@) {
            Ok(p) => r matches Ok(d) && dec_serial(d.dec()) == serial_of_parts(
                (p.lo64 & 0xFFFF_FFFF) as u32,
                ((p.lo64 >> 32) & 0xFFFF_FFFF) as u32,
                p.hi32,
                p.sign == DECIMAL_NEG,
                p.scale,
            ),
            Err(e) => r matches Err(e2) && e2 == e,
        },
{
    let cv = decode_cell_rec(host, VT_PDECIMAL as u16, var)?;
    match cv {
        CellVal::Dec(p) => {
            let d = DecWrapper::build_rust_decimal(&p);
            Ok(Box::new(DecWrapper::new(d)))
        },
        CellVal::Scalar(_) => Err(FromVariantError::VariantPtrNull),
    }
}

/// The closed sum of kinds the dynamic path carries: the same kind set as
/// the statically-typed functions, without the caller naming a kind at
/// compile time. Floating-point kinds are carried as their bit patterns.
#[derive(Clone, Debug, PartialEq)]
pub enum Variants {
    /// An 8-byte signed integer, tag `VT_I8`.
    LongLong(i64),
    /// A 4-byte signed integer, tag `VT_I4`.
    Long(i32),
    /// A 1-byte unsigned integer, tag `VT_UI1`.
    Char(u8),
    /// A 2-byte signed integer, tag `VT_I2`.
    Short(i16),
    /// The bits of a 4-byte float, tag `VT_R4`.
    Float(u32),
    /// The bits of an 8-byte float, tag `VT_R8`.
    Double(u64),
    /// A boolean, tag `VT_BOOL`.
    Bool(bool),
    /// A status code, tag `VT_ERROR`.
    Error(SCode),
    /// A currency amount, tag `VT_CY`.
    Cy(Currency),
    /// A date's bit pattern, tag `VT_DATE`.
    Date(Date),
    /// A string, tag `VT_BSTR`; carried across the boundary as UTF-16.
    String(String),
    /// A 1-byte signed integer, tag `VT_I1`.
    Byte(i8),
    /// A 2-byte unsigned integer, tag `VT_UI2`.
    UShort(u16),
    /// A 4-byte unsigned integer, tag `VT_UI4`.
    ULong(u32),
    /// An 8-byte unsigned integer, tag `VT_UI8`.
    ULongLong(u64),
    /// The platform-sized signed integer, tag `VT_INT`.
    Int(Int),
    /// The platform-sized unsigned integer, tag `VT_UINT`.
    UInt(UInt),
}

/// True when the record is exactly what encoding the dynamic value writes:
/// the value's tag over its payload. A string value's payload is its UTF-16
/// encoding in a host-owned buffer.
pub open spec fn variants_rec_ok(rec: VarRec, v: Variants) -> bool {
    match v {
        Variants::LongLong(i) => rec == enc_bits(VT_I8 as u16, i as u64),
        Variants::Long(i) => rec == enc_bits(VT_I4 as u16, (i as u32) as u64),
        Variants::Char(i) => rec == enc_bits(VT_UI1 as u16, i as u64),
        Variants::Short(i) => rec == enc_bits(VT_I2 as u16, (i as u16) as u64),
        Variants::Float(b) => rec == enc_bits(VT_R4 as u16, b as u64),
        Variants::Double(b) => rec == enc_bits(VT_R8 as u16, b),
        Variants::Bool(x) => rec == enc_bits(
            VT_BOOL as u16,
            if x {
                0xFFFFu64
            } else {
                0u64
            },
        ),
        Variants::Error(s) => rec == enc_bits(VT_ERROR as u16, (s.0 as u32) as u64),
        Variants::Cy(c) => rec == enc_bits(VT_CY as u16, c.0 as u64),
        Variants::Date(d) => rec == enc_bits(VT_DATE as u16, d.0),
        Variants::String(s) => rec.vt == VT_BSTR as u16 && (rec.slot matches Slot::Str(o) && o
            matches Some(b) && b.units() == utf16_of(s@)),
        Variants::Byte(i) => rec == enc_bits(VT_I1 as u16, (i as u8) as u64),
        Variants::UShort(i) => rec == enc_bits(VT_UI2 as u16, i as u64),
        Variants::ULong(i) => rec == enc_bits(VT_UI4 as u16, i as u64),
        Variants::ULongLong(i) => rec == enc_bits(VT_UI8 as u16, i),
        Variants::Int(i) => rec == enc_bits(VT_INT as u16, (i.0 as u32) as u64),
        Variants::UInt(i) => rec == enc_bits(VT_UINT as u16, i.0 as u64),
    }
}

/// The discriminants the dynamic path recognizes.
pub open spec fn dyn_supported(vt: u16) -> bool {
    vt == VT_I8 as u16 || vt == VT_I4 as u16 || vt == VT_UI1 as u16 || vt == VT_I2 as u16 || vt
        == VT_R4 as u16 || vt == VT_R8 as u16 || vt == VT_BOOL as u16 || vt == VT_ERROR as u16 || vt
        == VT_CY as u16 || vt == VT_DATE as u16 || vt == VT_BSTR as u16 || vt == VT_I1 as u16 || vt
        == VT_UI2 as u16 || vt == VT_UI4 as u16 || vt == VT_UI8 as u16 || vt == VT_INT as u16 || vt
        == VT_UINT as u16
}

/// Why dynamic decoding of a record fails, if it does: an unrecognized
/// discriminant gives the unsupported-kind error, never a silent default; a
/// null string payload gives the null-pointer error.
pub open spec fn dyn_dec_err(rec: VarRec) -> Option<FromVariantError> {
    if !dyn_supported(rec.vt) {
        Some(FromVariantError::UnknownVarType(rec.vt))
    } else if rec.vt == VT_BSTR as u16 && !(rec.slot matches Slot::Str(o) && o is Some) {
        Some(FromVariantError::VariantPtrNull)
    } else {
        None
    }
}

/// True when the dynamic value is what decoding the record yields: the case
/// of the record's tag, holding the decoded payload. A string payload is
/// decoded lossily from its UTF-16 code units.
pub open spec fn variants_of_rec(rec: VarRec, v: Variants) -> bool {
    if rec.vt == VT_I8 as u16 {
        v matches Variants::LongLong(i) && dec_i64(rec) == Ok::<i64, FromVariantError>(i)
    } else if rec.vt == VT_I4 as u16 {
        v matches Variants::Long(i) && dec_i32(rec) == Ok::<i32, FromVariantError>(i)
    } else if rec.vt == VT_UI1 as u16 {
        v matches Variants::Char(i) && dec_u8(rec) == Ok::<u8, FromVariantError>(i)
    } else if rec.vt == VT_I2 as u16 {
        v matches Variants::Short(i) && dec_i16(rec) == Ok::<i16, FromVariantError>(i)
    } else if rec.vt == VT_R4 as u16 {
        v matches Variants::Float(b) && dec_f32_bits(rec) == Ok::<u32, FromVariantError>(b)
    } else if rec.vt == VT_R8 as u16 {
        v matches Variants::Double(b) && dec_f64_bits(rec) == Ok::<u64, FromVariantError>(b)
    } else if rec.vt == VT_BOOL as u16 {
        v matches Variants::Bool(x) && dec_bool(rec) == Ok::<VariantBool, FromVariantError>(
            VariantBool(x),
        )
    } else if rec.vt == VT_ERROR as u16 {
        v matches Variants::Error(s) && dec_scode(rec) == Ok::<SCode, FromVariantError>(s)
    } else if rec.vt == VT_CY as u16 {
        v matches Variants::Cy(c) && dec_cy(rec) == Ok::<Currency, FromVariantError>(c)
    } else if rec.vt == VT_DATE as u16 {
        v matches Variants::Date(d) && dec_date(rec) == Ok::<Date, FromVariantError>(d)
    } else if rec.vt == VT_BSTR as u16 {
        v matches Variants::String(s) && (dec_string(rec) matches Ok(u) && s@ == lossy_of(u))
    } else if rec.vt == VT_I1 as u16 {
        v matches Variants::Byte(i) && dec_i8(rec) == Ok::<i8, FromVariantError>(i)
    } else if rec.vt == VT_UI2 as u16 {
        v matches Variants::UShort(i) && dec_u16(rec) == Ok::<u16, FromVariantError>(i)
    } else if rec.vt == VT_UI4 as u16 {
        v matches Variants::ULong(i) && dec_u32(rec) == Ok::<u32, FromVariantError>(i)
    } else if rec.vt == VT_UI8 as u16 {
        v matches Variants::ULongLong(i) && dec_u64(rec) == Ok::<u64, FromVariantError>(i)
    } else if rec.vt == VT_INT as u16 {
        v matches Variants::Int(i) && dec_int(rec) == Ok::<Int, FromVariantError>(i)
    } else if rec.vt == VT_UINT as u16 {
        v matches Variants::UInt(i) && dec_uint(rec) == Ok::<UInt, FromVariantError>(i)
    } else {
        false
    }
}

impl Variants {
    /// Encodes this value into a value record of its kind's tag. Only a
    /// string value allocates beyond the record, so only a string value can
    /// fail, and only for want of allocator budget, leaving nothing
    /// allocated.
    pub fn into_variant(self, host: &mut Host) -> (r: Result<
        Ptr<VarRec, VariantDestructor>,
        IntoVariantError,
    >)
        ensures
            !(self is String) ==> final(host).budget() == old(host).budget() && final(host).counts()
                == old(host).counts().variant_alloced() && (r matches Ok(p) && variants_rec_ok(
                p@,
                self,
            ) && rec_wf(p@)),
            self matches Variants::String(s) ==> (final(host).budget() == (match old(
                host,
            ).budget() {
                None => None,
                Some(k) => if k == 0 {
                    Some(0usize)
                } else {
                    Some((k - 1) as usize)
                },
            }) && (match r {
                Ok(p) => old(host).budget() != Some(0usize) && final(host).counts() == old(
                    host,
                ).counts().string_alloced().variant_alloced() && variants_rec_ok(p@, self)
                    && rec_wf(p@),
                Err(e) => old(host).budget() == Some(0usize) && final(host).counts() == old(
                    host,
                ).counts() && (e matches IntoVariantError::AllocBStrFailed(be) && *be matches
                    BStringError::AllocateFailed { len } && len == utf16_of(s@).len()),
            })),
    {
        match self {
            Variants::LongLong(i) => encode_i64(host, i),
            Variants::Long(i) => encode_i32(host, i),
            Variants::Char(i) => encode_u8(host, i),
            Variants::Short(i) => encode_i16(host, i),
            Variants::Float(b) => encode_f32_bits(host, b),
            Variants::Double(b) => encode_f64_bits(host, b),
            Variants::Bool(x) => encode_bool(host, VariantBool(x)),
            Variants::Error(s) => encode_scode(host, s),
            Variants::Cy(c) => encode_cy(host, c),
            Variants::Date(d) => encode_date(host, d),
            Variants::String(s) => {
                let u = u16string_from_str(s.as_str());
                encode_string(host, &u)
            },
            Variants::Byte(i) => encode_i8(host, i),
            Variants::UShort(i) => encode_u16(host, i),
            Variants::ULong(i) => encode_u32(host, i),
            Variants::ULongLong(i) => encode_u64(host, i),
            Variants::Int(i) => encode_int(host, i),
            Variants::UInt(i) => encode_uint(host, i),
        }
    }

    /// Decodes a record into the dynamic value of its kind, dispatching on
    /// the discriminant found. An unrecognized discriminant is the
    /// unsupported-kind error, never a silent default. The record is
    /// released on every path.
    pub fn from_variant(host: &mut Host, var: Ptr<VarRec, VariantDestructor>) -> (r: Result<
        Variants,
        FromVariantError,
    >)
        requires
            rec_wf(var@),
        ensures
            final(host).counts() == old(host).counts().plus_frees(rec_fp(var@)),
            final(host).budget() == old(host).budget(),
            dyn_dec_err(var@) matches Some(e) ==> (r matches Err(e2) && e2 == e),
            dyn_dec_err(var@) is None ==> (r matches Ok(v) && variants_of_rec(var@, v)),
    {
        let vt: u16 = var.as_ptr().vt;
        if vt == (VT_I8 as u16) {
            Ok(Variants::LongLong(decode_i64(host, var)?))
        } else if vt == (VT_I4 as u16) {
            Ok(Variants::Long(decode_i32(host, var)?))
        } else if vt == (VT_UI1 as u16) {
            Ok(Variants::Char(decode_u8(host, var)?))
        } else if vt == (VT_I2 as u16) {
            Ok(Variants::Short(decode_i16(host, var)?))
        } else if vt == (VT_R4 as u16) {
            Ok(Variants::Float(decode_f32_bits(host, var)?))
        } else if vt == (VT_R8 as u16) {
            Ok(Variants::Double(decode_f64_bits(host, var)?))
        } else if vt == (VT_BOOL as u16) {
            let b = decode_bool(host, var)?;
            Ok(Variants::Bool(b.0))
        } else if vt == (VT_ERROR as u16) {
            Ok(Variants::Error(decode_scode(host, var)?))
        } else if vt == (VT_CY as u16) {
            Ok(Variants::Cy(decode_cy(host, var)?))
        } else if vt == (VT_DATE as u16) {
            Ok(Variants::Date(decode_date(host, var)?))
        } else if vt == (VT_BSTR as u16) {
            let s = decode_string(host, var)?;
            Ok(Variants::String(u16string_to_lossy(&s)))
        } else if vt == (VT_I1 as u16) {
            Ok(Variants::Byte(decode_i8(host, var)?))
        } else if vt == (VT_UI2 as u16) {
            Ok(Variants::UShort(decode_u16(host, var)?))
        } else if vt == (VT_UI4 as u16) {
            Ok(Variants::ULong(decode_u32(host, var)?))
        } else if vt == (VT_UI8 as u16) {
            Ok(Variants::ULongLong(decode_u64(host, var)?))
        } else if vt == (VT_INT as u16) {
            Ok(Variants::Int(decode_int(host, var)?))
        } else if vt == (VT_UINT as u16) {
            Ok(Variants::UInt(decode_uint(host, var)?))
        } else {
            let rec = var.into_inner();
            host.clear_rec(rec);
            Err(FromVariantError::UnknownVarType(vt))
        }
    }
}

pub(crate) proof fn lemma_cast_i8(v: i8)
    ensures
        ((v as u8) as i8) == v,
{
    assert(((v as u8) as i8) == v) by (bit_vector);
}

pub(crate) proof fn lemma_cast_i16(v: i16)
    ensures
        ((v as u16) as i16) == v,
{
    assert(((v as u16) as i16) == v) by (bit_vector);
}

pub(crate) proof fn lemma_cast_i32(v: i32)
    ensures
        ((v as u32) as i32) == v,
{
    assert(((v as u32) as i32) == v) by (bit_vector);
}

pub(crate) proof fn lemma_cast_i64(v: i64)
    ensures
        ((v as u64) as i64) == v,
{
    assert(((v as u64) as i64) == v) by (bit_vector);
}

/// Round-trip law, inline scalar kinds: for every value of every inline
/// scalar kind, decoding the record its encoder writes gives back exactly
/// that value, bit for bit.
pub proof fn lemma_round_trip_scalars(
    a: i64,
    b: i32,
    c: u8,
    d: i16,
    e: u32,
    f: u64,
    g: VariantBool,
    h: SCode,
    i: Currency,
    j: Date,
    k: i8,
    l: u16,
    m: u32,
    n: u64,
    o: Int,
    p: UInt,
)
    ensures
        dec_i64(enc_bits(VT_I8 as u16, a as u64)) == Ok::<i64, FromVariantError>(a),
        dec_i32(enc_bits(VT_I4 as u16, (b as u32) as u64)) == Ok::<i32, FromVariantError>(b),
        dec_u8(enc_bits(VT_UI1 as u16, c as u64)) == Ok::<u8, FromVariantError>(c),
        dec_i16(enc_bits(VT_I2 as u16, (d as u16) as u64)) == Ok::<i16, FromVariantError>(d),
        dec_f32_bits(enc_bits(VT_R4 as u16, e as u64)) == Ok::<u32, FromVariantError>(e),
        dec_f64_bits(enc_bits(VT_R8 as u16, f)) == Ok::<u64, FromVariantError>(f),
        dec_bool(
            enc_bits(
                VT_BOOL as u16,
                if g.0 {
                    0xFFFFu64
                } else {
                    0u64
                },
            ),
        ) == Ok::<VariantBool, FromVariantError>(g),
        dec_scode(enc_bits(VT_ERROR as u16, (h.0 as u32) as u64)) == Ok::<SCode, FromVariantError>(
            h,
        ),
        dec_cy(enc_bits(VT_CY as u16, i.0 as u64)) == Ok::<Currency, FromVariantError>(i),
        dec_date(enc_bits(VT_DATE as u16, j.0)) == Ok::<Date, FromVariantError>(j),
        dec_i8(enc_bits(VT_I1 as u16, (k as u8) as u64)) == Ok::<i8, FromVariantError>(k),
        dec_u16(enc_bits(VT_UI2 as u16, l as u64)) == Ok::<u16, FromVariantError>(l),
        dec_u32(enc_bits(VT_UI4 as u16, m as u64)) == Ok::<u32, FromVariantError>(m),
        dec_u64(enc_bits(VT_UI8 as u16, n)) == Ok::<u64, FromVariantError>(n),
        dec_int(enc_bits(VT_INT as u16, (o.0 as u32) as u64)) == Ok::<Int, FromVariantError>(o),
        dec_uint(enc_bits(VT_UINT as u16, p.0 as u64)) == Ok::<UInt, FromVariantError>(p),
{
    lemma_cast_i64(a);
    lemma_cast_i32(b);
    lemma_cast_i16(d);
    assert(((0xFFFFu64 as u16) as i16) < 0) by (bit_vector);
    lemma_cast_i32(h.0);
    lemma_cast_i64(i.0);
    lemma_cast_i8(k);
    lemma_cast_i32(o.0);
}

/// Round-trip law, by-reference scalar kinds: for every value of every
/// by-reference scalar kind, decoding the record its encoder writes gives
/// back exactly that value.
pub proof fn lemma_round_trip_boxes(
    a: i64,
    b: i32,
    c: u8,
    d: i16,
    e: u32,
    f: u64,
    g: VariantBool,
    h: SCode,
    i: Currency,
    j: Date,
    k: i8,
    l: u16,
    m: u32,
    n: u64,
    o: Int,
    p: UInt,
)
    ensures
        dec_box_i64(
            VarRec {
                vt: VT_PI8 as u16,
                slot: Slot::Cell(Some(Box::new(CellVal::Scalar(a as u64)))),
            },
        ) == Ok::<i64, FromVariantError>(a),
        dec_box_i32(
            VarRec {
                vt: VT_PI4 as u16,
                slot: Slot::Cell(Some(Box::new(CellVal::Scalar((b as u32) as u64)))),
            },
        ) == Ok::<i32, FromVariantError>(b),
        dec_box_u8(
            VarRec {
                vt: VT_PUI1 as u16,
                slot: Slot::Cell(Some(Box::new(CellVal::Scalar(c as u64)))),
            },
        ) == Ok::<u8, FromVariantError>(c),
        dec_box_i16(
            VarRec {
                vt: VT_PI2 as u16,
                slot: Slot::Cell(Some(Box::new(CellVal::Scalar((d as u16) as u64)))),
            },
        ) == Ok::<i16, FromVariantError>(d),
        dec_box_f32_bits(
            VarRec {
                vt: VT_PR4 as u16,
                slot: Slot::Cell(Some(Box::new(CellVal::Scalar(e as u64)))),
            },
        ) == Ok::<u32, FromVariantError>(e),
        dec_box_f64_bits(
            VarRec { vt: VT_PR8 as u16, slot: Slot::Cell(Some(Box::new(CellVal::Scalar(f)))) },
        ) == Ok::<u64, FromVariantError>(f),
        dec_box_bool(
            VarRec {
                vt: VT_PBOOL as u16,
                slot: Slot::Cell(
                    Some(
                        Box::new(
                            CellVal::Scalar(
                                if g.0 {
                                    0xFFFFu64
                                } else {
                                    0u64
                                },
                            ),
                        ),
                    ),
                ),
            },
        ) == Ok::<VariantBool, FromVariantError>(g),
        dec_box_scode(
            VarRec {
                vt: VT_PERROR as u16,
                slot: Slot::Cell(Some(Box::new(CellVal::Scalar((h.0 as u32) as u64)))),
            },
        ) == Ok::<SCode, FromVariantError>(h),
        dec_box_cy(
            VarRec {
                vt: VT_PCY as u16,
                slot: Slot::Cell(Some(Box::new(CellVal::Scalar(i.0 as u64)))),
            },
        ) == Ok::<Currency, FromVariantError>(i),
        dec_box_date(
            VarRec {
                vt: VT_PDATE as u16,
                slot: Slot::Cell(Some(Box::new(CellVal::Scalar(j.0)))),
            },
        ) == Ok::<Date, FromVariantError>(j),
        dec_box_i8(
            VarRec {
                vt: VT_PI1 as u16,
                slot: Slot::Cell(Some(Box::new(CellVal::Scalar((k as u8) as u64)))),
            },
        ) == Ok::<i8, FromVariantError>(k),
        dec_box_u16(
            VarRec {
                vt: VT_PUI2 as u16,
                slot: Slot::Cell(Some(Box::new(CellVal::Scalar(l as u64)))),
            },
        ) == Ok::<u16, FromVariantError>(l),
        dec_box_u32(
            VarRec {
                vt: VT_PUI4 as u16,
                slot: Slot::Cell(Some(Box::new(CellVal::Scalar(m as u64)))),
            },
        ) == Ok::<u32, FromVariantError>(m),
        dec_box_u64(
            VarRec { vt: VT_PUI8 as u16, slot: Slot::Cell(Some(Box::new(CellVal::Scalar(n)))) },
        ) == Ok::<u64, FromVariantError>(n),
        dec_box_int(
            VarRec {
                vt: VT_PINT as u16,
                slot: Slot::Cell(Some(Box::new(CellVal::Scalar((o.0 as u32) as u64)))),
            },
        ) == Ok::<Int, FromVariantError>(o),
        dec_box_uint(
            VarRec {
                vt: VT_PUINT as u16,
                slot: Slot::Cell(Some(Box::new(CellVal::Scalar(p.0 as u64)))),
            },
        ) == Ok::<UInt, FromVariantError>(p),
{
    lemma_cast_i64(a);
    lemma_cast_i32(b);
    lemma_cast_i16(d);
    assert(((0xFFFFu64 as u16) as i16) < 0) by (bit_vector);
    lemma_cast_i32(h.0);
    lemma_cast_i64(i.0);
    lemma_cast_i8(k);
    lemma_cast_i32(o.0);
}

/// Round-trip law, wide strings: a record encoding any code units, embedded
/// zeros included, decodes to exactly those units, in number and in order;
/// the length is the buffer's, never a terminator's.
pub proof fn lemma_round_trip_string(rec: VarRec, units: Seq<u16>)
    requires
        rec.vt == VT_BSTR as u16,
        rec.slot matches Slot::Str(o) && o matches Some(b) && b.units() == units,
    ensures
        dec_string(rec) == Ok::<Seq<u16>, FromVariantError>(units),
{
}

/// Round-trip law, nested records: decoding the record that wraps a child
/// record unwraps exactly one level and yields exactly that child.
pub proof fn lemma_round_trip_nested(rec: VarRec, child: VarRec)
    requires
        rec.vt == VT_VARIANT as u16,
        rec.slot matches Slot::Var(o) && o matches Some(c) && *c == child,
    ensures
        dec_nested(rec) == Ok::<VarRec, FromVariantError>(child),
{
}

/// Round-trip law, object references and the raw pointer kind: any non-null
/// reference decodes back exactly; a null reference is excluded, since
/// decoding it is the null-pointer error.
pub proof fn lemma_round_trip_refs(tag: u16, addr: u64)
    requires
        addr != 0,
    ensures
        dec_ref(enc_bits(tag, addr), tag) == Ok::<u64, FromVariantError>(addr),
{
}

/// Round-trip law, the dynamic path: whatever dynamic value was encoded,
/// dynamic decoding of the record succeeds and yields that value back. For
/// a string value this needs lossy UTF-16 decoding to invert the encoding,
/// which holds of every value a string can carry, and is assumed here
/// because both directions live in the outside string library.
pub proof fn lemma_round_trip_variants(rec: VarRec, v: Variants, v2: Variants)
    requires
        variants_rec_ok(rec, v),
        variants_of_rec(rec, v2),
        v matches Variants::String(s) ==> lossy_of(utf16_of(s@)) == s@,
    ensures
        match v {
            Variants::String(s) => v2 matches Variants::String(s2) && s2@ == s@,
            _ => v2 == v,
        },
{
    match v {
        Variants::LongLong(i) => {
            lemma_cast_i64(i);
        },
        Variants::Long(i) => {
            lemma_cast_i32(i);
        },
        Variants::Short(i) => {
            lemma_cast_i16(i);
        },
        Variants::Bool(x) => {
            assert(((0xFFFFu64 as u16) as i16) < 0) by (bit_vector);
        },
        Variants::Error(s) => {
            lemma_cast_i32(s.0);
        },
        Variants::Cy(c) => {
            lemma_cast_i64(c.0);
        },
        Variants::Byte(i) => {
            lemma_cast_i8(i);
        },
        Variants::Int(i) => {
            lemma_cast_i32(i.0);
        },
        _ => (),
    }
}

/// Discriminant-mismatch law: decoding a record tagged one kind while
/// requesting another always yields the mismatch error carrying the
/// requested and the found tag, and reads no payload. Every kind's decoder
/// factors through one of the forms below: the inline-payload form, the
/// by-reference form, or its kind's own form. The decimal kind's record
/// stores tag zero, overlaid by the wide slot, so its clause speaks of the
/// payload's shape.
pub proof fn lemma_discriminant_mismatch(rec: VarRec, requested: u16)
    requires
        rec.vt != requested,
    ensures
        dec_bits(rec, requested) == Err::<u64, FromVariantError>(mismatch(requested, rec.vt)),
        dec_cell(rec, requested) == Err::<CellVal, FromVariantError>(mismatch(requested, rec.vt)),
        requested == VT_BSTR as u16 ==> dec_string(rec) == Err::<Seq<u16>, FromVariantError>(
            mismatch(requested, rec.vt),
        ),
        requested == VT_VARIANT as u16 ==> dec_nested(rec) == Err::<VarRec, FromVariantError>(
            mismatch(requested, rec.vt),
        ),
        requested == VT_ARRAY as u16 ==> dec_array(rec) == Err::<ArrRec, FromVariantError>(
            mismatch(requested, rec.vt),
        ),
        !(rec.slot is Dec) ==> dec_decimal(rec) == Err::<DecParts, FromVariantError>(
            mismatch(VT_DECIMAL as u16, rec.vt),
        ),
{
}

} // verus!
