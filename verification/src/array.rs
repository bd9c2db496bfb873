//! The array codec: encoding a homogeneous sequence into a bounded
//! one-dimensional array record and decoding it back.
//!
//! Encoding creates the record through the host with dimension count one,
//! lower bound zero and the sequence's length, then writes the elements one
//! by one; if any element fails, everything built so far, the record
//! included, is released exactly once before the error, tagged with the
//! failing element's ordinal, is returned. Decoding first holds the record's
//! dimension count against one and its element discriminant against the
//! requested kind, then reads the elements in order; on any path, also a
//! failing one, the record and whatever it still owns are released exactly
//! once. String elements travel through the nested value-record indirection
//! rather than a raw string slot.

use vstd::prelude::*;
use crate::bstr::{u16string_from_vec, u16string_units, utf16_of, wide_units};
use crate::errors::{BStringError, ElementError, FromSafeArrElemError, FromSafeArrayError,
    FromVariantError, IntoSafeArrElemError, IntoSafeArrayError, IntoVariantError, SafeArrayError};
use crate::host::{Host, HostCounts};
use crate::ptr::{DefaultDestructor, Ptr, PtrDestructor};
use crate::record::{ArrRec, Fp, Slot, VarRec, DISP_E_BADINDEX, mk_zero_slot, VT_BOOL, VT_BSTR,
    VT_CY, VT_DATE, VT_DECIMAL, VT_EMPTY, VT_ERROR, VT_I1, VT_I2, VT_I4, VT_I8, VT_INT, VT_NULL,
    VT_R4, VT_R8, VT_UI1, VT_UI2, VT_UI4, VT_UI8, VT_UINT, VT_VARIANT, arr_fp, arr_wf,
    elem_slot_wf, fp_add, fp_zero, is_bits_vt, rec_fp, slot_fp, slots_fp, zero_slot};
use crate::types::{Currency, DecParts, Date, DecWrapper, Int, SCode, UInt, VariantBool,
    parts_of_serial, serial_of_parts, dec_serial, DECIMAL_NEG};
use crate::variant::{Variants, dyn_dec_err, lemma_cast_i16, lemma_cast_i32, lemma_cast_i64,
    lemma_cast_i8, trunc_i16, trunc_i32, trunc_i64, trunc_i8, trunc_u16,
    trunc_u32, trunc_u8, variants_of_rec, variants_rec_ok};

verus! {

/// Policy of handles whose release destroys the array record: every element
/// it still owns is freed transitively, and the record itself, each exactly
/// once. The release is the explicit operation [`array_destroy`], since
/// destruction is a host call.
#[derive(Clone, Copy, Debug)]
pub struct SafeArrayDestructor;

impl PtrDestructor<ArrRec> for SafeArrayDestructor {

}

/// Releases an array record and everything it still owns, each exactly once.
pub fn array_destroy(host: &mut Host, arr: Ptr<ArrRec, SafeArrayDestructor>)
    ensures
        final(host).counts() == old(host).counts().plus_frees(arr_fp(arr@)),
        final(host).budget() == old(host).budget(),
{
    host.destroy_arr(arr.into_inner());
}

/// The bits stored in an inline element slot.
pub open spec fn slot_bits(s: Slot) -> u64 {
    match s {
        Slot::Bits(b) => b,
        _ => 0u64,
    }
}

/// The element count an array record's bounds describe.
pub open spec fn seq_n(a: ArrRec) -> int {
    if a.ubound >= a.lbound {
        a.ubound - a.lbound + 1
    } else {
        0
    }
}

/// True when the record's storage is shorter than its bounds claim; reading
/// it fails at the first element past the storage.
pub open spec fn seq_storage_short(a: ArrRec) -> bool {
    seq_n(a) > a.elems().len()
}

/// True when decoding the record under the expected element discriminant
/// reaches the elements: one dimension, matching discriminant, storage that
/// covers the bounds.
pub open spec fn seq_ok(a: ArrRec, expected: u16) -> bool {
    a.dims == 1 && a.elem_vt == expected && !seq_storage_short(a)
}

/// The bits of the record's elements, in bounds order.
pub open spec fn arr_bits_seq(a: ArrRec) -> Seq<u64> {
    Seq::new(seq_n(a) as nat, |j: int| slot_bits(a.elems()[j]))
}

/// True of the dimensions-invalid error carrying the given count.
pub open spec fn is_dims_err(e: SafeArrayError, dims: u32) -> bool {
    e matches SafeArrayError::From(b) && *b matches FromSafeArrayError::SafeArrayDimsInvalid {
        sa_dims,
    } && sa_dims == dims
}

/// True of the element-discriminant mismatch error carrying the requested
/// and the found discriminant.
pub open spec fn is_vt_err(e: SafeArrayError, expected: u16, found: u16) -> bool {
    e matches SafeArrayError::From(b) && *b matches FromSafeArrayError::VarTypeDoesNotMatch {
        expected: x,
        found: f,
    } && x == expected as u32 && f == found as u32
}

/// True of the decode-side element error at the given ordinal whose cause is
/// a rejected element read carrying the given status code.
pub open spec fn is_get_elem_err(e: SafeArrayError, index: int, hr: i32) -> bool {
    e matches SafeArrayError::From(b) && *b matches FromSafeArrayError::ElementConversionFailed {
        index: i,
        element: el,
    } && i == index && (*el matches ElementError::From(fe) && *fe matches
        FromSafeArrElemError::GetElementFailed { hr: h } && h == hr)
}

/// True of the decode-side element error at the given ordinal whose cause is
/// a null pointer inside the element.
pub open spec fn is_null_elem_err(e: SafeArrayError, index: int) -> bool {
    e matches SafeArrayError::From(b) && *b matches FromSafeArrayError::ElementConversionFailed {
        index: i,
        element: el,
    } && i == index && (*el matches ElementError::From(fe) && *fe matches
        FromSafeArrElemError::FromVarError(ve) && *ve == FromVariantError::VariantPtrNull)
}

/// True of the array-creation failure error.
pub open spec fn is_create_err(e: SafeArrayError) -> bool {
    e matches SafeArrayError::Into(b) && *b is SafeArrayCreateFailed
}

/// The budget left after spending the given number of grants.
pub open spec fn budget_minus(b: Option<usize>, k: nat) -> Option<usize> {
    match b {
        None => None,
        Some(x) => Some((x - k) as usize),
    }
}

/// True when the budget grants at least the given number of allocations.
pub open spec fn budget_covers(b: Option<usize>, k: nat) -> bool {
    match b {
        None => true,
        Some(x) => k <= x,
    }
}

/// A sequence of resource-free slots has no footprint.
pub proof fn lemma_slots_fp_zero(s: Seq<Slot>)
    requires
        forall|j: int| 0 <= j < s.len() ==> slot_fp(#[trigger] s[j]) == fp_zero(),
    ensures
        slots_fp(s) == fp_zero(),
    decreases s.len(),
{
    if s.len() > 0 {
        assert(s.drop_last() =~= s.subrange(0, s.len() - 1));
        lemma_slots_fp_zero(s.drop_last());
    }
}

/// Creates the one-dimensional array record and fills it with inline
/// elements; only the creation itself can fail, since inline elements
/// allocate nothing.
pub(crate) fn encode_slots_bits(host: &mut Host, elem_vt: u16, bits: Vec<u64>) -> (r: Result<
    Ptr<ArrRec, DefaultDestructor>,
    SafeArrayError,
>)
    requires
        bits@.len() <= i32::MAX as int,
        is_bits_vt(elem_vt),
        elem_vt != VT_EMPTY as u16,
        elem_vt != VT_NULL as u16,
    ensures
        final(host).budget() == (match old(host).budget() {
            None => None,
            Some(k) => if k == 0 {
                Some(0usize)
            } else {
                Some((k - 1) as usize)
            },
        }),
        match r {
            Ok(p) => old(host).budget() != Some(0usize) && final(host).counts() == old(host).counts().array_alloced() && p@.dims == 1 && p@.elem_vt == elem_vt && p@.lbound == 0
                && p@.ubound as int == bits@.len() - 1 && p@.elems() == bits@.map_values(
                |b: u64| Slot::Bits(b),
            ) && arr_wf(p@),
            Err(e) => old(host).budget() == Some(0usize) && final(host).counts() == old(host).counts() && is_create_err(e),
        },
{
    let n = bits.len();
    let created = host.array_create(elem_vt, 1, 0, n as u32);
    let mut arr = match created {
        Some(a) => a,
        None => {
            return Err(IntoSafeArrayError::SafeArrayCreateFailed.into_safe_array_error());
        },
    };
    let mut i: usize = 0;
    while i < n
        invariant
            n == bits@.len(),
            n <= i32::MAX as int,
            i <= n,
            arr.dims == 1,
            arr.elem_vt == elem_vt,
            arr.lbound == 0,
            arr.ubound as int == n as int - 1,
            arr.elems().len() == n,
            forall|j: int| 0 <= j < i as int ==> arr.elems()[j] == Slot::Bits(bits@[j]),
            forall|j: int| i as int <= j < n as int ==> arr.elems()[j] == zero_slot(elem_vt),
        decreases n - i,
    {
        let put = arr.put_element(i as i32, Slot::Bits(bits[i]));
        proof {
            assert(put is Ok);
        }
        let _displaced = put;
        i = i + 1;
    }
    proof {
        assert(arr.elems() =~= bits@.map_values(|b: u64| Slot::Bits(b)));
    }
    Ok(Ptr::new(arr))
}

/// Checks the dimension count, the element discriminant, and the bounds,
/// then reads the inline elements out in order. The record is released on
/// every path.
#[verifier::loop_isolation(false)]
pub(crate) fn decode_slots_bits(host: &mut Host, expected: u16, var: Ptr<
    ArrRec,
    DefaultDestructor,
>) -> (r: Result<Vec<u64>, SafeArrayError>)
    requires
        arr_wf(var@),
        is_bits_vt(expected),
        expected != VT_EMPTY as u16,
        expected != VT_NULL as u16,
    ensures
        final(host).budget() == old(host).budget(),
        final(host).counts() == old(host).counts().plus_frees(arr_fp(var@)),
        var@.dims != 1 ==> (r matches Err(e) && is_dims_err(e, var@.dims)),
        var@.dims == 1 && var@.elem_vt != expected ==> (r matches Err(e) && is_vt_err(
            e,
            expected,
            var@.elem_vt,
        )),
        var@.dims == 1 && var@.elem_vt == expected && seq_storage_short(var@) ==> (r matches Err(e)
            && is_get_elem_err(e, var@.elems().len() as int, DISP_E_BADINDEX)),
        seq_ok(var@, expected) ==> (r matches Ok(v) && v@ == arr_bits_seq(var@)),
{
    let ghost a0 = var@;
    let mut arr = var.into_inner();
    let dims = arr.get_dims();
    if dims != 1 {
        host.destroy_arr(arr);
        return Err(
            FromSafeArrayError::SafeArrayDimsInvalid { sa_dims: dims }.into_safe_array_error(),
        );
    }
    let vt = arr.get_vartype();
    if vt != expected {
        host.destroy_arr(arr);
        return Err(
            FromSafeArrayError::VarTypeDoesNotMatch {
                expected: expected as u32,
                found: vt as u32,
            }.into_safe_array_error(),
        );
    }
    proof {
        assert forall|k: int| 0 <= k < a0.elems().len() implies slot_fp(
            #[trigger] a0.elems()[k],
        ) == fp_zero() by {
            assert(elem_slot_wf(a0.elem_vt, a0.elems()[k]));
        }
        lemma_slots_fp_zero(a0.elems());
    }
    let lb = arr.get_lbound();
    let ub = arr.get_ubound();
    let n_wide: i64 = if ub >= lb {
        ub as i64 - lb as i64 + 1
    } else {
        0
    };
    let mut out: Vec<u64> = Vec::new();
    let mut j: i64 = 0;
    while j < n_wide
        invariant
            arr.dims == a0.dims,
            arr.elem_vt == a0.elem_vt,
            arr.lbound == a0.lbound,
            arr.ubound == a0.ubound,
            arr.elems().len() == a0.elems().len(),
            0 <= j <= n_wide,
            n_wide == seq_n(a0),
            j as int <= a0.elems().len(),
            forall|k: int| j as int <= k < a0.elems().len() ==> arr.elems()[k] == a0.elems()[k],
            forall|k: int| 0 <= k < j as int ==> arr.elems()[k] == Slot::Bits(0u64),
            out@.len() == j as int,
            forall|k: int| 0 <= k < j as int ==> out@[k] == slot_bits(a0.elems()[k]),
            host.budget() == old(host).budget(),
            host.counts() == old(host).counts(),
        decreases n_wide - j,
    {
        let ix_wide: i64 = lb as i64 + j;
        let ix: i32 = ix_wide as i32;
        let got = arr.put_element(ix, Slot::Bits(0));
        let slot = match got {
            Ok(s) => s,
            Err(hr) => {
                proof {
                    assert(j as int == a0.elems().len());
                    assert forall|k: int| 0 <= k < arr.elems().len() implies slot_fp(
                        #[trigger] arr.elems()[k],
                    ) == fp_zero() by {}
                    lemma_slots_fp_zero(arr.elems());
                }
                host.destroy_arr(arr);
                return Err(
                    FromSafeArrayError::from_element_err(
                        FromSafeArrElemError::GetElementFailed { hr }.into_element_error(),
                        j as usize,
                    ).into_safe_array_error(),
                );
            },
        };
        proof {
            assert(elem_slot_wf(a0.elem_vt, a0.elems()[j as int]));
        }
        let b: u64 = match slot {
            Slot::Bits(b) => b,
            _ => {
                proof {
                    assert(false);
                }
                0
            },
        };
        out.push(b);
        j = j + 1;
    }
    proof {
        assert forall|k: int| 0 <= k < arr.elems().len() implies slot_fp(
            #[trigger] arr.elems()[k],
        ) == fp_zero() by {
            if k >= j as int {
                assert(arr.elems()[k] == a0.elems()[k]);
            }
        }
        lemma_slots_fp_zero(arr.elems());
        assert(out@.len() == arr_bits_seq(a0).len());
        assert forall|k: int| 0 <= k < out@.len() implies out@[k] == arr_bits_seq(a0)[k] by {}
        assert(out@ =~= arr_bits_seq(a0));
    }
    host.destroy_arr(arr);
    Ok(out)
}

/// The slot a sequence element of this kind is stored as.
pub open spec fn seq_slot_i16(v: i16) -> Slot {
    Slot::Bits((v as u16) as u64)
}

/// The value read back from an element's bits for this kind.
pub open spec fn seq_val_i16(b: u64) -> i16 {
    (b as u16) as i16
}

/// Encodes a sequence of 2-byte signed integers into a one-dimensional array record with
/// element discriminant `VT_I2`, lower bound zero and the sequence's length.
/// Fails exactly when the host refuses to allocate the record.
pub fn encode_sequence_i16(host: &mut Host, values: Vec<i16>) -> (r: Result<
    Ptr<ArrRec, DefaultDestructor>,
    SafeArrayError,
>)
    requires
        values@.len() <= i32::MAX as int,
    ensures
        final(host).budget() == (match old(host).budget() {
            None => None,
            Some(k) => if k == 0 {
                Some(0usize)
            } else {
                Some((k - 1) as usize)
            },
        }),
        match r {
            Ok(p) => old(host).budget() != Some(0usize) && final(host).counts() == old(host).counts().array_alloced() && p@.dims == 1 && p@.elem_vt == VT_I2 as u16 && p@.lbound
                == 0 && p@.ubound as int == values@.len() - 1 && p@.elems()
                == values@.map_values(|v: i16| seq_slot_i16(v)) && arr_wf(p@),
            Err(e) => old(host).budget() == Some(0usize) && final(host).counts() == old(host).counts() && is_create_err(e),
        },
{
    let mut bits: Vec<u64> = Vec::new();
    let mut i: usize = 0;
    while i < values.len()
        invariant
            i <= values@.len(),
            bits@.len() == i as int,
            forall|k: int| 0 <= k < i as int ==> bits@[k] == slot_bits(
                seq_slot_i16(values@[k]),
            ),
        decreases values@.len() - i,
    {
        let v = values[i];
        bits.push((v as u16) as u64);
        i = i + 1;
    }
    let r = encode_slots_bits(host, VT_I2 as u16, bits);
    proof {
        if r is Ok {
            assert(r->Ok_0@.elems() =~= values@.map_values(|v: i16| seq_slot_i16(v)));
        }
    }
    r
}

/// Decodes a one-dimensional array record of 2-byte signed integers: checks the dimension
/// count, then the element discriminant against `VT_I2`, then reads the
/// elements in bounds order. The record is released on every path.
pub fn decode_sequence_i16(host: &mut Host, var: Ptr<ArrRec, DefaultDestructor>) -> (r: Result<
    Vec<i16>,
    SafeArrayError,
>)
    requires
        arr_wf(var@),
    ensures
        final(host).budget() == old(host).budget(),
        final(host).counts() == old(host).counts().plus_frees(arr_fp(var@)),
        var@.dims != 1 ==> (r matches Err(e) && is_dims_err(e, var@.dims)),
        var@.dims == 1 && var@.elem_vt != VT_I2 as u16 ==> (r matches Err(e) && is_vt_err(
            e,
            VT_I2 as u16,
            var@.elem_vt,
        )),
        var@.dims == 1 && var@.elem_vt == VT_I2 as u16 && seq_storage_short(var@) ==> (r matches
            Err(e) && is_get_elem_err(e, var@.elems().len() as int, DISP_E_BADINDEX)),
        seq_ok(var@, VT_I2 as u16) ==> (r matches Ok(v) && v@ == arr_bits_seq(var@).map_values(
            |b: u64| seq_val_i16(b),
        )),
{
    let bits = decode_slots_bits(host, VT_I2 as u16, var)?;
    let mut out: Vec<i16> = Vec::new();
    let mut i: usize = 0;
    while i < bits.len()
        invariant
            i <= bits@.len(),
            out@.len() == i as int,
            forall|k: int| 0 <= k < i as int ==> out@[k] == seq_val_i16(bits@[k]),
        decreases bits@.len() - i,
    {
        let b = bits[i];
        out.push(trunc_i16(b));
        i = i + 1;
    }
    proof {
        assert(out@ =~= arr_bits_seq(var@).map_values(|b: u64| seq_val_i16(b)));
    }
    Ok(out)
}

/// The slot a sequence element of this kind is stored as.
pub open spec fn seq_slot_i32(v: i32) -> Slot {
    Slot::Bits((v as u32) as u64)
}

/// The value read back from an element's bits for this kind.
pub open spec fn seq_val_i32(b: u64) -> i32 {
    (b as u32) as i32
}

/// Encodes a sequence of 4-byte signed integers into a one-dimensional array record with
/// element discriminant `VT_I4`, lower bound zero and the sequence's length.
/// Fails exactly when the host refuses to allocate the record.
pub fn encode_sequence_i32(host: &mut Host, values: Vec<i32>) -> (r: Result<
    Ptr<ArrRec, DefaultDestructor>,
    SafeArrayError,
>)
    requires
        values@.len() <= i32::MAX as int,
    ensures
        final(host).budget() == (match old(host).budget() {
            None => None,
            Some(k) => if k == 0 {
                Some(0usize)
            } else {
                Some((k - 1) as usize)
            },
        }),
        match r {
            Ok(p) => old(host).budget() != Some(0usize) && final(host).counts() == old(host).counts().array_alloced() && p@.dims == 1 && p@.elem_vt == VT_I4 as u16 && p@.lbound
                == 0 && p@.ubound as int == values@.len() - 1 && p@.elems()
                == values@.map_values(|v: i32| seq_slot_i32(v)) && arr_wf(p@),
            Err(e) => old(host).budget() == Some(0usize) && final(host).counts() == old(host).counts() && is_create_err(e),
        },
{
    let mut bits: Vec<u64> = Vec::new();
    let mut i: usize = 0;
    while i < values.len()
        invariant
            i <= values@.len(),
            bits@.len() == i as int,
            forall|k: int| 0 <= k < i as int ==> bits@[k] == slot_bits(
                seq_slot_i32(values@[k]),
            ),
        decreases values@.len() - i,
    {
        let v = values[i];
        bits.push((v as u32) as u64);
        i = i + 1;
    }
    let r = encode_slots_bits(host, VT_I4 as u16, bits);
    proof {
        if r is Ok {
            assert(r->Ok_0@.elems() =~= values@.map_values(|v: i32| seq_slot_i32(v)));
        }
    }
    r
}

/// Decodes a one-dimensional array record of 4-byte signed integers: checks the dimension
/// count, then the element discriminant against `VT_I4`, then reads the
/// elements in bounds order. The record is released on every path.
pub fn decode_sequence_i32(host: &mut Host, var: Ptr<ArrRec, DefaultDestructor>) -> (r: Result<
    Vec<i32>,
    SafeArrayError,
>)
    requires
        arr_wf(var@),
    ensures
        final(host).budget() == old(host).budget(),
        final(host).counts() == old(host).counts().plus_frees(arr_fp(var@)),
        var@.dims != 1 ==> (r matches Err(e) && is_dims_err(e, var@.dims)),
        var@.dims == 1 && var@.elem_vt != VT_I4 as u16 ==> (r matches Err(e) && is_vt_err(
            e,
            VT_I4 as u16,
            var@.elem_vt,
        )),
        var@.dims == 1 && var@.elem_vt == VT_I4 as u16 && seq_storage_short(var@) ==> (r matches
            Err(e) && is_get_elem_err(e, var@.elems().len() as int, DISP_E_BADINDEX)),
        seq_ok(var@, VT_I4 as u16) ==> (r matches Ok(v) && v@ == arr_bits_seq(var@).map_values(
            |b: u64| seq_val_i32(b),
        )),
{
    let bits = decode_slots_bits(host, VT_I4 as u16, var)?;
    let mut out: Vec<i32> = Vec::new();
    let mut i: usize = 0;
    while i < bits.len()
        invariant
            i <= bits@.len(),
            out@.len() == i as int,
            forall|k: int| 0 <= k < i as int ==> out@[k] == seq_val_i32(bits@[k]),
        decreases bits@.len() - i,
    {
        let b = bits[i];
        out.push(trunc_i32(b));
        i = i + 1;
    }
    proof {
        assert(out@ =~= arr_bits_seq(var@).map_values(|b: u64| seq_val_i32(b)));
    }
    Ok(out)
}

/// The slot a sequence element of this kind is stored as.
pub open spec fn seq_slot_f32_bits(v: u32) -> Slot {
    Slot::Bits(v as u64)
}

/// The value read back from an element's bits for this kind.
pub open spec fn seq_val_f32_bits(b: u64) -> u32 {
    b as u32
}

/// Encodes a sequence of bits of 4-byte floats into a one-dimensional array record with
/// element discriminant `VT_R4`, lower bound zero and the sequence's length.
/// Fails exactly when the host refuses to allocate the record.
pub fn encode_sequence_f32_bits(host: &mut Host, values: Vec<u32>) -> (r: Result<
    Ptr<ArrRec, DefaultDestructor>,
    SafeArrayError,
>)
    requires
        values@.len() <= i32::MAX as int,
    ensures
        final(host).budget() == (match old(host).budget() {
            None => None,
            Some(k) => if k == 0 {
                Some(0usize)
            } else {
                Some((k - 1) as usize)
            },
        }),
        match r {
            Ok(p) => old(host).budget() != Some(0usize) && final(host).counts() == old(host).counts().array_alloced() && p@.dims == 1 && p@.elem_vt == VT_R4 as u16 && p@.lbound
                == 0 && p@.ubound as int == values@.len() - 1 && p@.elems()
                == values@.map_values(|v: u32| seq_slot_f32_bits(v)) && arr_wf(p@),
            Err(e) => old(host).budget() == Some(0usize) && final(host).counts() == old(host).counts() && is_create_err(e),
        },
{
    let mut bits: Vec<u64> = Vec::new();
    let mut i: usize = 0;
    while i < values.len()
        invariant
            i <= values@.len(),
            bits@.len() == i as int,
            forall|k: int| 0 <= k < i as int ==> bits@[k] == slot_bits(
                seq_slot_f32_bits(values@[k]),
            ),
        decreases values@.len() - i,
    {
        let v = values[i];
        bits.push(v as u64);
        i = i + 1;
    }
    let r = encode_slots_bits(host, VT_R4 as u16, bits);
    proof {
        if r is Ok {
            assert(r->Ok_0@.elems() =~= values@.map_values(|v: u32| seq_slot_f32_bits(v)));
        }
    }
    r
}

/// Decodes a one-dimensional array record of bits of 4-byte floats: checks the dimension
/// count, then the element discriminant against `VT_R4`, then reads the
/// elements in bounds order. The record is released on every path.
pub fn decode_sequence_f32_bits(host: &mut Host, var: Ptr<ArrRec, DefaultDestructor>) -> (r: Result<
    Vec<u32>,
    SafeArrayError,
>)
    requires
        arr_wf(var@),
    ensures
        final(host).budget() == old(host).budget(),
        final(host).counts() == old(host).counts().plus_frees(arr_fp(var@)),
        var@.dims != 1 ==> (r matches Err(e) && is_dims_err(e, var@.dims)),
        var@.dims == 1 && var@.elem_vt != VT_R4 as u16 ==> (r matches Err(e) && is_vt_err(
            e,
            VT_R4 as u16,
            var@.elem_vt,
        )),
        var@.dims == 1 && var@.elem_vt == VT_R4 as u16 && seq_storage_short(var@) ==> (r matches
            Err(e) && is_get_elem_err(e, var@.elems().len() as int, DISP_E_BADINDEX)),
        seq_ok(var@, VT_R4 as u16) ==> (r matches Ok(v) && v@ == arr_bits_seq(var@).map_values(
            |b: u64| seq_val_f32_bits(b),
        )),
{
    let bits = decode_slots_bits(host, VT_R4 as u16, var)?;
    let mut out: Vec<u32> = Vec::new();
    let mut i: usize = 0;
    while i < bits.len()
        invariant
            i <= bits@.len(),
            out@.len() == i as int,
            forall|k: int| 0 <= k < i as int ==> out@[k] == seq_val_f32_bits(bits@[k]),
        decreases bits@.len() - i,
    {
        let b = bits[i];
        out.push(trunc_u32(b));
        i = i + 1;
    }
    proof {
        assert(out@ =~= arr_bits_seq(var@).map_values(|b: u64| seq_val_f32_bits(b)));
    }
    Ok(out)
}

/// The slot a sequence element of this kind is stored as.
pub open spec fn seq_slot_f64_bits(v: u64) -> Slot {
    Slot::Bits(v)
}

/// The value read back from an element's bits for this kind.
pub open spec fn seq_val_f64_bits(b: u64) -> u64 {
    b
}

/// Encodes a sequence of bits of 8-byte floats into a one-dimensional array record with
/// element discriminant `VT_R8`, lower bound zero and the sequence's length.
/// Fails exactly when the host refuses to allocate the record.
pub fn encode_sequence_f64_bits(host: &mut Host, values: Vec<u64>) -> (r: Result<
    Ptr<ArrRec, DefaultDestructor>,
    SafeArrayError,
>)
    requires
        values@.len() <= i32::MAX as int,
    ensures
        final(host).budget() == (match old(host).budget() {
            None => None,
            Some(k) => if k == 0 {
                Some(0usize)
            } else {
                Some((k - 1) as usize)
            },
        }),
        match r {
            Ok(p) => old(host).budget() != Some(0usize) && final(host).counts() == old(host).counts().array_alloced() && p@.dims == 1 && p@.elem_vt == VT_R8 as u16 && p@.lbound
                == 0 && p@.ubound as int == values@.len() - 1 && p@.elems()
                == values@.map_values(|v: u64| seq_slot_f64_bits(v)) && arr_wf(p@),
            Err(e) => old(host).budget() == Some(0usize) && final(host).counts() == old(host).counts() && is_create_err(e),
        },
{
    let mut bits: Vec<u64> = Vec::new();
    let mut i: usize = 0;
    while i < values.len()
        invariant
            i <= values@.len(),
            bits@.len() == i as int,
            forall|k: int| 0 <= k < i as int ==> bits@[k] == slot_bits(
                seq_slot_f64_bits(values@[k]),
            ),
        decreases values@.len() - i,
    {
        let v = values[i];
        bits.push(v);
        i = i + 1;
    }
    let r = encode_slots_bits(host, VT_R8 as u16, bits);
    proof {
        if r is Ok {
            assert(r->Ok_0@.elems() =~= values@.map_values(|v: u64| seq_slot_f64_bits(v)));
        }
    }
    r
}

/// Decodes a one-dimensional array record of bits of 8-byte floats: checks the dimension
/// count, then the element discriminant against `VT_R8`, then reads the
/// elements in bounds order. The record is released on every path.
pub fn decode_sequence_f64_bits(host: &mut Host, var: Ptr<ArrRec, DefaultDestructor>) -> (r: Result<
    Vec<u64>,
    SafeArrayError,
>)
    requires
        arr_wf(var@),
    ensures
        final(host).budget() == old(host).budget(),
        final(host).counts() == old(host).counts().plus_frees(arr_fp(var@)),
        var@.dims != 1 ==> (r matches Err(e) && is_dims_err(e, var@.dims)),
        var@.dims == 1 && var@.elem_vt != VT_R8 as u16 ==> (r matches Err(e) && is_vt_err(
            e,
            VT_R8 as u16,
            var@.elem_vt,
        )),
        var@.dims == 1 && var@.elem_vt == VT_R8 as u16 && seq_storage_short(var@) ==> (r matches
            Err(e) && is_get_elem_err(e, var@.elems().len() as int, DISP_E_BADINDEX)),
        seq_ok(var@, VT_R8 as u16) ==> (r matches Ok(v) && v@ == arr_bits_seq(var@).map_values(
            |b: u64| seq_val_f64_bits(b),
        )),
{
    let bits = decode_slots_bits(host, VT_R8 as u16, var)?;
    let mut out: Vec<u64> = Vec::new();
    let mut i: usize = 0;
    while i < bits.len()
        invariant
            i <= bits@.len(),
            out@.len() == i as int,
            forall|k: int| 0 <= k < i as int ==> out@[k] == seq_val_f64_bits(bits@[k]),
        decreases bits@.len() - i,
    {
        let b = bits[i];
        out.push(b);
        i = i + 1;
    }
    proof {
        assert(out@ =~= arr_bits_seq(var@).map_values(|b: u64| seq_val_f64_bits(b)));
    }
    Ok(out)
}

/// The slot a sequence element of this kind is stored as.
pub open spec fn seq_slot_cy(v: Currency) -> Slot {
    Slot::Bits(v.0 as u64)
}

/// The value read back from an element's bits for this kind.
pub open spec fn seq_val_cy(b: u64) -> Currency {
    Currency(b as i64)
}

/// Encodes a sequence of currency amounts into a one-dimensional array record with
/// element discriminant `VT_CY`, lower bound zero and the sequence's length.
/// Fails exactly when the host refuses to allocate the record.
pub fn encode_sequence_cy(host: &mut Host, values: Vec<Currency>) -> (r: Result<
    Ptr<ArrRec, DefaultDestructor>,
    SafeArrayError,
>)
    requires
        values@.len() <= i32::MAX as int,
    ensures
        final(host).budget() == (match old(host).budget() {
            None => None,
            Some(k) => if k == 0 {
                Some(0usize)
            } else {
                Some((k - 1) as usize)
            },
        }),
        match r {
            Ok(p) => old(host).budget() != Some(0usize) && final(host).counts() == old(host).counts().array_alloced() && p@.dims == 1 && p@.elem_vt == VT_CY as u16 && p@.lbound
                == 0 && p@.ubound as int == values@.len() - 1 && p@.elems()
                == values@.map_values(|v: Currency| seq_slot_cy(v)) && arr_wf(p@),
            Err(e) => old(host).budget() == Some(0usize) && final(host).counts() == old(host).counts() && is_create_err(e),
        },
{
    let mut bits: Vec<u64> = Vec::new();
    let mut i: usize = 0;
    while i < values.len()
        invariant
            i <= values@.len(),
            bits@.len() == i as int,
            forall|k: int| 0 <= k < i as int ==> bits@[k] == slot_bits(
                seq_slot_cy(values@[k]),
            ),
        decreases values@.len() - i,
    {
        let v = values[i];
        bits.push(v.0 as u64);
        i = i + 1;
    }
    let r = encode_slots_bits(host, VT_CY as u16, bits);
    proof {
        if r is Ok {
            assert(r->Ok_0@.elems() =~= values@.map_values(|v: Currency| seq_slot_cy(v)));
        }
    }
    r
}

/// Decodes a one-dimensional array record of currency amounts: checks the dimension
/// count, then the element discriminant against `VT_CY`, then reads the
/// elements in bounds order. The record is released on every path.
pub fn decode_sequence_cy(host: &mut Host, var: Ptr<ArrRec, DefaultDestructor>) -> (r: Result<
    Vec<Currency>,
    SafeArrayError,
>)
    requires
        arr_wf(var@),
    ensures
        final(host).budget() == old(host).budget(),
        final(host).counts() == old(host).counts().plus_frees(arr_fp(var@)),
        var@.dims != 1 ==> (r matches Err(e) && is_dims_err(e, var@.dims)),
        var@.dims == 1 && var@.elem_vt != VT_CY as u16 ==> (r matches Err(e) && is_vt_err(
            e,
            VT_CY as u16,
            var@.elem_vt,
        )),
        var@.dims == 1 && var@.elem_vt == VT_CY as u16 && seq_storage_short(var@) ==> (r matches
            Err(e) && is_get_elem_err(e, var@.elems().len() as int, DISP_E_BADINDEX)),
        seq_ok(var@, VT_CY as u16) ==> (r matches Ok(v) && v@ == arr_bits_seq(var@).map_values(
            |b: u64| seq_val_cy(b),
        )),
{
    let bits = decode_slots_bits(host, VT_CY as u16, var)?;
    let mut out: Vec<Currency> = Vec::new();
    let mut i: usize = 0;
    while i < bits.len()
        invariant
            i <= bits@.len(),
            out@.len() == i as int,
            forall|k: int| 0 <= k < i as int ==> out@[k] == seq_val_cy(bits@[k]),
        decreases bits@.len() - i,
    {
        let b = bits[i];
        out.push(Currency(trunc_i64(b)));
        i = i + 1;
    }
    proof {
        assert(out@ =~= arr_bits_seq(var@).map_values(|b: u64| seq_val_cy(b)));
    }
    Ok(out)
}

/// The slot a sequence element of this kind is stored as.
pub open spec fn seq_slot_date(v: Date) -> Slot {
    Slot::Bits(v.0)
}

/// The value read back from an element's bits for this kind.
pub open spec fn seq_val_date(b: u64) -> Date {
    Date(b)
}

/// Encodes a sequence of date bit patterns into a one-dimensional array record with
/// element discriminant `VT_DATE`, lower bound zero and the sequence's length.
/// Fails exactly when the host refuses to allocate the record.
pub fn encode_sequence_date(host: &mut Host, values: Vec<Date>) -> (r: Result<
    Ptr<ArrRec, DefaultDestructor>,
    SafeArrayError,
>)
    requires
        values@.len() <= i32::MAX as int,
    ensures
        final(host).budget() == (match old(host).budget() {
            None => None,
            Some(k) => if k == 0 {
                Some(0usize)
            } else {
                Some((k - 1) as usize)
            },
        }),
        match r {
            Ok(p) => old(host).budget() != Some(0usize) && final(host).counts() == old(host).counts().array_alloced() && p@.dims == 1 && p@.elem_vt == VT_DATE as u16 && p@.lbound
                == 0 && p@.ubound as int == values@.len() - 1 && p@.elems()
                == values@.map_values(|v: Date| seq_slot_date(v)) && arr_wf(p@),
            Err(e) => old(host).budget() == Some(0usize) && final(host).counts() == old(host).counts() && is_create_err(e),
        },
{
    let mut bits: Vec<u64> = Vec::new();
    let mut i: usize = 0;
    while i < values.len()
        invariant
            i <= values@.len(),
            bits@.len() == i as int,
            forall|k: int| 0 <= k < i as int ==> bits@[k] == slot_bits(
                seq_slot_date(values@[k]),
            ),
        decreases values@.len() - i,
    {
        let v = values[i];
        bits.push(v.0);
        i = i + 1;
    }
    let r = encode_slots_bits(host, VT_DATE as u16, bits);
    proof {
        if r is Ok {
            assert(r->Ok_0@.elems() =~= values@.map_values(|v: Date| seq_slot_date(v)));
        }
    }
    r
}

/// Decodes a one-dimensional array record of date bit patterns: checks the dimension
/// count, then the element discriminant against `VT_DATE`, then reads the
/// elements in bounds order. The record is released on every path.
pub fn decode_sequence_date(host: &mut Host, var: Ptr<ArrRec, DefaultDestructor>) -> (r: Result<
    Vec<Date>,
    SafeArrayError,
>)
    requires
        arr_wf(var@),
    ensures
        final(host).budget() == old(host).budget(),
        final(host).counts() == old(host).counts().plus_frees(arr_fp(var@)),
        var@.dims != 1 ==> (r matches Err(e) && is_dims_err(e, var@.dims)),
        var@.dims == 1 && var@.elem_vt != VT_DATE as u16 ==> (r matches Err(e) && is_vt_err(
            e,
            VT_DATE as u16,
            var@.elem_vt,
        )),
        var@.dims == 1 && var@.elem_vt == VT_DATE as u16 && seq_storage_short(var@) ==> (r matches
            Err(e) && is_get_elem_err(e, var@.elems().len() as int, DISP_E_BADINDEX)),
        seq_ok(var@, VT_DATE as u16) ==> (r matches Ok(v) && v@ == arr_bits_seq(var@).map_values(
            |b: u64| seq_val_date(b),
        )),
{
    let bits = decode_slots_bits(host, VT_DATE as u16, var)?;
    let mut out: Vec<Date> = Vec::new();
    let mut i: usize = 0;
    while i < bits.len()
        invariant
            i <= bits@.len(),
            out@.len() == i as int,
            forall|k: int| 0 <= k < i as int ==> out@[k] == seq_val_date(bits@[k]),
        decreases bits@.len() - i,
    {
        let b = bits[i];
        out.push(Date(b));
        i = i + 1;
    }
    proof {
        assert(out@ =~= arr_bits_seq(var@).map_values(|b: u64| seq_val_date(b)));
    }
    Ok(out)
}

/// The slot a sequence element of this kind is stored as.
pub open spec fn seq_slot_scode(v: SCode) -> Slot {
    Slot::Bits((v.0 as u32) as u64)
}

/// The value read back from an element's bits for this kind.
pub open spec fn seq_val_scode(b: u64) -> SCode {
    SCode((b as u32) as i32)
}

/// Encodes a sequence of status codes into a one-dimensional array record with
/// element discriminant `VT_ERROR`, lower bound zero and the sequence's length.
/// Fails exactly when the host refuses to allocate the record.
pub fn encode_sequence_scode(host: &mut Host, values: Vec<SCode>) -> (r: Result<
    Ptr<ArrRec, DefaultDestructor>,
    SafeArrayError,
>)
    requires
        values@.len() <= i32::MAX as int,
    ensures
        final(host).budget() == (match old(host).budget() {
            None => None,
            Some(k) => if k == 0 {
                Some(0usize)
            } else {
                Some((k - 1) as usize)
            },
        }),
        match r {
            Ok(p) => old(host).budget() != Some(0usize) && final(host).counts() == old(host).counts().array_alloced() && p@.dims == 1 && p@.elem_vt == VT_ERROR as u16 && p@.lbound
                == 0 && p@.ubound as int == values@.len() - 1 && p@.elems()
                == values@.map_values(|v: SCode| seq_slot_scode(v)) && arr_wf(p@),
            Err(e) => old(host).budget() == Some(0usize) && final(host).counts() == old(host).counts() && is_create_err(e),
        },
{
    let mut bits: Vec<u64> = Vec::new();
    let mut i: usize = 0;
    while i < values.len()
        invariant
            i <= values@.len(),
            bits@.len() == i as int,
            forall|k: int| 0 <= k < i as int ==> bits@[k] == slot_bits(
                seq_slot_scode(values@[k]),
            ),
        decreases values@.len() - i,
    {
        let v = values[i];
        bits.push((v.0 as u32) as u64);
        i = i + 1;
    }
    let r = encode_slots_bits(host, VT_ERROR as u16, bits);
    proof {
        if r is Ok {
            assert(r->Ok_0@.elems() =~= values@.map_values(|v: SCode| seq_slot_scode(v)));
        }
    }
    r
}

/// Decodes a one-dimensional array record of status codes: checks the dimension
/// count, then the element discriminant against `VT_ERROR`, then reads the
/// elements in bounds order. The record is released on every path.
pub fn decode_sequence_scode(host: &mut Host, var: Ptr<ArrRec, DefaultDestructor>) -> (r: Result<
    Vec<SCode>,
    SafeArrayError,
>)
    requires
        arr_wf(var@),
    ensures
        final(host).budget() == old(host).budget(),
        final(host).counts() == old(host).counts().plus_frees(arr_fp(var@)),
        var@.dims != 1 ==> (r matches Err(e) && is_dims_err(e, var@.dims)),
        var@.dims == 1 && var@.elem_vt != VT_ERROR as u16 ==> (r matches Err(e) && is_vt_err(
            e,
            VT_ERROR as u16,
            var@.elem_vt,
        )),
        var@.dims == 1 && var@.elem_vt == VT_ERROR as u16 && seq_storage_short(var@) ==> (r matches
            Err(e) && is_get_elem_err(e, var@.elems().len() as int, DISP_E_BADINDEX)),
        seq_ok(var@, VT_ERROR as u16) ==> (r matches Ok(v) && v@ == arr_bits_seq(var@).map_values(
            |b: u64| seq_val_scode(b),
        )),
{
    let bits = decode_slots_bits(host, VT_ERROR as u16, var)?;
    let mut out: Vec<SCode> = Vec::new();
    let mut i: usize = 0;
    while i < bits.len()
        invariant
            i <= bits@.len(),
            out@.len() == i as int,
            forall|k: int| 0 <= k < i as int ==> out@[k] == seq_val_scode(bits@[k]),
        decreases bits@.len() - i,
    {
        let b = bits[i];
        out.push(SCode(trunc_i32(b)));
        i = i + 1;
    }
    proof {
        assert(out@ =~= arr_bits_seq(var@).map_values(|b: u64| seq_val_scode(b)));
    }
    Ok(out)
}

/// The slot a sequence element of this kind is stored as.
pub open spec fn seq_slot_bool(v: VariantBool) -> Slot {
    Slot::Bits((if v.0 { 0xFFFFu64 } else { 0u64 }))
}

/// The value read back from an element's bits for this kind.
pub open spec fn seq_val_bool(b: u64) -> VariantBool {
    VariantBool(((b as u16) as i16) < 0)
}

/// Encodes a sequence of automation booleans into a one-dimensional array record with
/// element discriminant `VT_BOOL`, lower bound zero and the sequence's length.
/// Fails exactly when the host refuses to allocate the record.
pub fn encode_sequence_bool(host: &mut Host, values: Vec<VariantBool>) -> (r: Result<
    Ptr<ArrRec, DefaultDestructor>,
    SafeArrayError,
>)
    requires
        values@.len() <= i32::MAX as int,
    ensures
        final(host).budget() == (match old(host).budget() {
            None => None,
            Some(k) => if k == 0 {
                Some(0usize)
            } else {
                Some((k - 1) as usize)
            },
        }),
        match r {
            Ok(p) => old(host).budget() != Some(0usize) && final(host).counts() == old(host).counts().array_alloced() && p@.dims == 1 && p@.elem_vt == VT_BOOL as u16 && p@.lbound
                == 0 && p@.ubound as int == values@.len() - 1 && p@.elems()
                == values@.map_values(|v: VariantBool| seq_slot_bool(v)) && arr_wf(p@),
            Err(e) => old(host).budget() == Some(0usize) && final(host).counts() == old(host).counts() && is_create_err(e),
        },
{
    let mut bits: Vec<u64> = Vec::new();
    let mut i: usize = 0;
    while i < values.len()
        invariant
            i <= values@.len(),
            bits@.len() == i as int,
            forall|k: int| 0 <= k < i as int ==> bits@[k] == slot_bits(
                seq_slot_bool(values@[k]),
            ),
        decreases values@.len() - i,
    {
        let v = values[i];
        bits.push((if v.0 { 0xFFFFu64 } else { 0u64 }));
        i = i + 1;
    }
    let r = encode_slots_bits(host, VT_BOOL as u16, bits);
    proof {
        if r is Ok {
            assert(r->Ok_0@.elems() =~= values@.map_values(|v: VariantBool| seq_slot_bool(v)));
        }
    }
    r
}

/// Decodes a one-dimensional array record of automation booleans: checks the dimension
/// count, then the element discriminant against `VT_BOOL`, then reads the
/// elements in bounds order. The record is released on every path.
pub fn decode_sequence_bool(host: &mut Host, var: Ptr<ArrRec, DefaultDestructor>) -> (r: Result<
    Vec<VariantBool>,
    SafeArrayError,
>)
    requires
        arr_wf(var@),
    ensures
        final(host).budget() == old(host).budget(),
        final(host).counts() == old(host).counts().plus_frees(arr_fp(var@)),
        var@.dims != 1 ==> (r matches Err(e) && is_dims_err(e, var@.dims)),
        var@.dims == 1 && var@.elem_vt != VT_BOOL as u16 ==> (r matches Err(e) && is_vt_err(
            e,
            VT_BOOL as u16,
            var@.elem_vt,
        )),
        var@.dims == 1 && var@.elem_vt == VT_BOOL as u16 && seq_storage_short(var@) ==> (r matches
            Err(e) && is_get_elem_err(e, var@.elems().len() as int, DISP_E_BADINDEX)),
        seq_ok(var@, VT_BOOL as u16) ==> (r matches Ok(v) && v@ == arr_bits_seq(var@).map_values(
            |b: u64| seq_val_bool(b),
        )),
{
    let bits = decode_slots_bits(host, VT_BOOL as u16, var)?;
    let mut out: Vec<VariantBool> = Vec::new();
    let mut i: usize = 0;
    while i < bits.len()
        invariant
            i <= bits@.len(),
            out@.len() == i as int,
            forall|k: int| 0 <= k < i as int ==> out@[k] == seq_val_bool(bits@[k]),
        decreases bits@.len() - i,
    {
        let b = bits[i];
        out.push(VariantBool::from_raw(trunc_i16(b)));
        i = i + 1;
    }
    proof {
        assert(out@ =~= arr_bits_seq(var@).map_values(|b: u64| seq_val_bool(b)));
    }
    Ok(out)
}

/// The slot a sequence element of this kind is stored as.
pub open spec fn seq_slot_i8(v: i8) -> Slot {
    Slot::Bits((v as u8) as u64)
}

/// The value read back from an element's bits for this kind.
pub open spec fn seq_val_i8(b: u64) -> i8 {
    (b as u8) as i8
}

/// Encodes a sequence of 1-byte signed integers into a one-dimensional array record with
/// element discriminant `VT_I1`, lower bound zero and the sequence's length.
/// Fails exactly when the host refuses to allocate the record.
pub fn encode_sequence_i8(host: &mut Host, values: Vec<i8>) -> (r: Result<
    Ptr<ArrRec, DefaultDestructor>,
    SafeArrayError,
>)
    requires
        values@.len() <= i32::MAX as int,
    ensures
        final(host).budget() == (match old(host).budget() {
            None => None,
            Some(k) => if k == 0 {
                Some(0usize)
            } else {
                Some((k - 1) as usize)
            },
        }),
        match r {
            Ok(p) => old(host).budget() != Some(0usize) && final(host).counts() == old(host).counts().array_alloced() && p@.dims == 1 && p@.elem_vt == VT_I1 as u16 && p@.lbound
                == 0 && p@.ubound as int == values@.len() - 1 && p@.elems()
                == values@.map_values(|v: i8| seq_slot_i8(v)) && arr_wf(p@),
            Err(e) => old(host).budget() == Some(0usize) && final(host).counts() == old(host).counts() && is_create_err(e),
        },
{
    let mut bits: Vec<u64> = Vec::new();
    let mut i: usize = 0;
    while i < values.len()
        invariant
            i <= values@.len(),
            bits@.len() == i as int,
            forall|k: int| 0 <= k < i as int ==> bits@[k] == slot_bits(
                seq_slot_i8(values@[k]),
            ),
        decreases values@.len() - i,
    {
        let v = values[i];
        bits.push((v as u8) as u64);
        i = i + 1;
    }
    let r = encode_slots_bits(host, VT_I1 as u16, bits);
    proof {
        if r is Ok {
            assert(r->Ok_0@.elems() =~= values@.map_values(|v: i8| seq_slot_i8(v)));
        }
    }
    r
}

/// Decodes a one-dimensional array record of 1-byte signed integers: checks the dimension
/// count, then the element discriminant against `VT_I1`, then reads the
/// elements in bounds order. The record is released on every path.
pub fn decode_sequence_i8(host: &mut Host, var: Ptr<ArrRec, DefaultDestructor>) -> (r: Result<
    Vec<i8>,
    SafeArrayError,
>)
    requires
        arr_wf(var@),
    ensures
        final(host).budget() == old(host).budget(),
        final(host).counts() == old(host).counts().plus_frees(arr_fp(var@)),
        var@.dims != 1 ==> (r matches Err(e) && is_dims_err(e, var@.dims)),
        var@.dims == 1 && var@.elem_vt != VT_I1 as u16 ==> (r matches Err(e) && is_vt_err(
            e,
            VT_I1 as u16,
            var@.elem_vt,
        )),
        var@.dims == 1 && var@.elem_vt == VT_I1 as u16 && seq_storage_short(var@) ==> (r matches
            Err(e) && is_get_elem_err(e, var@.elems().len() as int, DISP_E_BADINDEX)),
        seq_ok(var@, VT_I1 as u16) ==> (r matches Ok(v) && v@ == arr_bits_seq(var@).map_values(
            |b: u64| seq_val_i8(b),
        )),
{
    let bits = decode_slots_bits(host, VT_I1 as u16, var)?;
    let mut out: Vec<i8> = Vec::new();
    let mut i: usize = 0;
    while i < bits.len()
        invariant
            i <= bits@.len(),
            out@.len() == i as int,
            forall|k: int| 0 <= k < i as int ==> out@[k] == seq_val_i8(bits@[k]),
        decreases bits@.len() - i,
    {
        let b = bits[i];
        out.push(trunc_i8(b));
        i = i + 1;
    }
    proof {
        assert(out@ =~= arr_bits_seq(var@).map_values(|b: u64| seq_val_i8(b)));
    }
    Ok(out)
}

/// The slot a sequence element of this kind is stored as.
pub open spec fn seq_slot_u8(v: u8) -> Slot {
    Slot::Bits(v as u64)
}

/// The value read back from an element's bits for this kind.
pub open spec fn seq_val_u8(b: u64) -> u8 {
    b as u8
}

/// Encodes a sequence of 1-byte unsigned integers into a one-dimensional array record with
/// element discriminant `VT_UI1`, lower bound zero and the sequence's length.
/// Fails exactly when the host refuses to allocate the record.
pub fn encode_sequence_u8(host: &mut Host, values: Vec<u8>) -> (r: Result<
    Ptr<ArrRec, DefaultDestructor>,
    SafeArrayError,
>)
    requires
        values@.len() <= i32::MAX as int,
    ensures
        final(host).budget() == (match old(host).budget() {
            None => None,
            Some(k) => if k == 0 {
                Some(0usize)
            } else {
                Some((k - 1) as usize)
            },
        }),
        match r {
            Ok(p) => old(host).budget() != Some(0usize) && final(host).counts() == old(host).counts().array_alloced() && p@.dims == 1 && p@.elem_vt == VT_UI1 as u16 && p@.lbound
                == 0 && p@.ubound as int == values@.len() - 1 && p@.elems()
                == values@.map_values(|v: u8| seq_slot_u8(v)) && arr_wf(p@),
            Err(e) => old(host).budget() == Some(0usize) && final(host).counts() == old(host).counts() && is_create_err(e),
        },
{
    let mut bits: Vec<u64> = Vec::new();
    let mut i: usize = 0;
    while i < values.len()
        invariant
            i <= values@.len(),
            bits@.len() == i as int,
            forall|k: int| 0 <= k < i as int ==> bits@[k] == slot_bits(
                seq_slot_u8(values@[k]),
            ),
        decreases values@.len() - i,
    {
        let v = values[i];
        bits.push(v as u64);
        i = i + 1;
    }
    let r = encode_slots_bits(host, VT_UI1 as u16, bits);
    proof {
        if r is Ok {
            assert(r->Ok_0@.elems() =~= values@.map_values(|v: u8| seq_slot_u8(v)));
        }
    }
    r
}

/// Decodes a one-dimensional array record of 1-byte unsigned integers: checks the dimension
/// count, then the element discriminant against `VT_UI1`, then reads the
/// elements in bounds order. The record is released on every path.
pub fn decode_sequence_u8(host: &mut Host, var: Ptr<ArrRec, DefaultDestructor>) -> (r: Result<
    Vec<u8>,
    SafeArrayError,
>)
    requires
        arr_wf(var@),
    ensures
        final(host).budget() == old(host).budget(),
        final(host).counts() == old(host).counts().plus_frees(arr_fp(var@)),
        var@.dims != 1 ==> (r matches Err(e) && is_dims_err(e, var@.dims)),
        var@.dims == 1 && var@.elem_vt != VT_UI1 as u16 ==> (r matches Err(e) && is_vt_err(
            e,
            VT_UI1 as u16,
            var@.elem_vt,
        )),
        var@.dims == 1 && var@.elem_vt == VT_UI1 as u16 && seq_storage_short(var@) ==> (r matches
            Err(e) && is_get_elem_err(e, var@.elems().len() as int, DISP_E_BADINDEX)),
        seq_ok(var@, VT_UI1 as u16) ==> (r matches Ok(v) && v@ == arr_bits_seq(var@).map_values(
            |b: u64| seq_val_u8(b),
        )),
{
    let bits = decode_slots_bits(host, VT_UI1 as u16, var)?;
    let mut out: Vec<u8> = Vec::new();
    let mut i: usize = 0;
    while i < bits.len()
        invariant
            i <= bits@.len(),
            out@.len() == i as int,
            forall|k: int| 0 <= k < i as int ==> out@[k] == seq_val_u8(bits@[k]),
        decreases bits@.len() - i,
    {
        let b = bits[i];
        out.push(trunc_u8(b));
        i = i + 1;
    }
    proof {
        assert(out@ =~= arr_bits_seq(var@).map_values(|b: u64| seq_val_u8(b)));
    }
    Ok(out)
}

/// The slot a sequence element of this kind is stored as.
pub open spec fn seq_slot_u16(v: u16) -> Slot {
    Slot::Bits(v as u64)
}

/// The value read back from an element's bits for this kind.
pub open spec fn seq_val_u16(b: u64) -> u16 {
    b as u16
}

/// Encodes a sequence of 2-byte unsigned integers into a one-dimensional array record with
/// element discriminant `VT_UI2`, lower bound zero and the sequence's length.
/// Fails exactly when the host refuses to allocate the record.
pub fn encode_sequence_u16(host: &mut Host, values: Vec<u16>) -> (r: Result<
    Ptr<ArrRec, DefaultDestructor>,
    SafeArrayError,
>)
    requires
        values@.len() <= i32::MAX as int,
    ensures
        final(host).budget() == (match old(host).budget() {
            None => None,
            Some(k) => if k == 0 {
                Some(0usize)
            } else {
                Some((k - 1) as usize)
            },
        }),
        match r {
            Ok(p) => old(host).budget() != Some(0usize) && final(host).counts() == old(host).counts().array_alloced() && p@.dims == 1 && p@.elem_vt == VT_UI2 as u16 && p@.lbound
                == 0 && p@.ubound as int == values@.len() - 1 && p@.elems()
                == values@.map_values(|v: u16| seq_slot_u16(v)) && arr_wf(p@),
            Err(e) => old(host).budget() == Some(0usize) && final(host).counts() == old(host).counts() && is_create_err(e),
        },
{
    let mut bits: Vec<u64> = Vec::new();
    let mut i: usize = 0;
    while i < values.len()
        invariant
            i <= values@.len(),
            bits@.len() == i as int,
            forall|k: int| 0 <= k < i as int ==> bits@[k] == slot_bits(
                seq_slot_u16(values@[k]),
            ),
        decreases values@.len() - i,
    {
        let v = values[i];
        bits.push(v as u64);
        i = i + 1;
    }
    let r = encode_slots_bits(host, VT_UI2 as u16, bits);
    proof {
        if r is Ok {
            assert(r->Ok_0@.elems() =~= values@.map_values(|v: u16| seq_slot_u16(v)));
        }
    }
    r
}

/// Decodes a one-dimensional array record of 2-byte unsigned integers: checks the dimension
/// count, then the element discriminant against `VT_UI2`, then reads the
/// elements in bounds order. The record is released on every path.
pub fn decode_sequence_u16(host: &mut Host, var: Ptr<ArrRec, DefaultDestructor>) -> (r: Result<
    Vec<u16>,
    SafeArrayError,
>)
    requires
        arr_wf(var@),
    ensures
        final(host).budget() == old(host).budget(),
        final(host).counts() == old(host).counts().plus_frees(arr_fp(var@)),
        var@.dims != 1 ==> (r matches Err(e) && is_dims_err(e, var@.dims)),
        var@.dims == 1 && var@.elem_vt != VT_UI2 as u16 ==> (r matches Err(e) && is_vt_err(
            e,
            VT_UI2 as u16,
            var@.elem_vt,
        )),
        var@.dims == 1 && var@.elem_vt == VT_UI2 as u16 && seq_storage_short(var@) ==> (r matches
            Err(e) && is_get_elem_err(e, var@.elems().len() as int, DISP_E_BADINDEX)),
        seq_ok(var@, VT_UI2 as u16) ==> (r matches Ok(v) && v@ == arr_bits_seq(var@).map_values(
            |b: u64| seq_val_u16(b),
        )),
{
    let bits = decode_slots_bits(host, VT_UI2 as u16, var)?;
    let mut out: Vec<u16> = Vec::new();
    let mut i: usize = 0;
    while i < bits.len()
        invariant
            i <= bits@.len(),
            out@.len() == i as int,
            forall|k: int| 0 <= k < i as int ==> out@[k] == seq_val_u16(bits@[k]),
        decreases bits@.len() - i,
    {
        let b = bits[i];
        out.push(trunc_u16(b));
        i = i + 1;
    }
    proof {
        assert(out@ =~= arr_bits_seq(var@).map_values(|b: u64| seq_val_u16(b)));
    }
    Ok(out)
}

/// The slot a sequence element of this kind is stored as.
pub open spec fn seq_slot_u32(v: u32) -> Slot {
    Slot::Bits(v as u64)
}

/// The value read back from an element's bits for this kind.
pub open spec fn seq_val_u32(b: u64) -> u32 {
    b as u32
}

/// Encodes a sequence of 4-byte unsigned integers into a one-dimensional array record with
/// element discriminant `VT_UI4`, lower bound zero and the sequence's length.
/// Fails exactly when the host refuses to allocate the record.
pub fn encode_sequence_u32(host: &mut Host, values: Vec<u32>) -> (r: Result<
    Ptr<ArrRec, DefaultDestructor>,
    SafeArrayError,
>)
    requires
        values@.len() <= i32::MAX as int,
    ensures
        final(host).budget() == (match old(host).budget() {
            None => None,
            Some(k) => if k == 0 {
                Some(0usize)
            } else {
                Some((k - 1) as usize)
            },
        }),
        match r {
            Ok(p) => old(host).budget() != Some(0usize) && final(host).counts() == old(host).counts().array_alloced() && p@.dims == 1 && p@.elem_vt == VT_UI4 as u16 && p@.lbound
                == 0 && p@.ubound as int == values@.len() - 1 && p@.elems()
                == values@.map_values(|v: u32| seq_slot_u32(v)) && arr_wf(p@),
            Err(e) => old(host).budget() == Some(0usize) && final(host).counts() == old(host).counts() && is_create_err(e),
        },
{
    let mut bits: Vec<u64> = Vec::new();
    let mut i: usize = 0;
    while i < values.len()
        invariant
            i <= values@.len(),
            bits@.len() == i as int,
            forall|k: int| 0 <= k < i as int ==> bits@[k] == slot_bits(
                seq_slot_u32(values@[k]),
            ),
        decreases values@.len() - i,
    {
        let v = values[i];
        bits.push(v as u64);
        i = i + 1;
    }
    let r = encode_slots_bits(host, VT_UI4 as u16, bits);
    proof {
        if r is Ok {
            assert(r->Ok_0@.elems() =~= values@.map_values(|v: u32| seq_slot_u32(v)));
        }
    }
    r
}

/// Decodes a one-dimensional array record of 4-byte unsigned integers: checks the dimension
/// count, then the element discriminant against `VT_UI4`, then reads the
/// elements in bounds order. The record is released on every path.
pub fn decode_sequence_u32(host: &mut Host, var: Ptr<ArrRec, DefaultDestructor>) -> (r: Result<
    Vec<u32>,
    SafeArrayError,
>)
    requires
        arr_wf(var@),
    ensures
        final(host).budget() == old(host).budget(),
        final(host).counts() == old(host).counts().plus_frees(arr_fp(var@)),
        var@.dims != 1 ==> (r matches Err(e) && is_dims_err(e, var@.dims)),
        var@.dims == 1 && var@.elem_vt != VT_UI4 as u16 ==> (r matches Err(e) && is_vt_err(
            e,
            VT_UI4 as u16,
            var@.elem_vt,
        )),
        var@.dims == 1 && var@.elem_vt == VT_UI4 as u16 && seq_storage_short(var@) ==> (r matches
            Err(e) && is_get_elem_err(e, var@.elems().len() as int, DISP_E_BADINDEX)),
        seq_ok(var@, VT_UI4 as u16) ==> (r matches Ok(v) && v@ == arr_bits_seq(var@).map_values(
            |b: u64| seq_val_u32(b),
        )),
{
    let bits = decode_slots_bits(host, VT_UI4 as u16, var)?;
    let mut out: Vec<u32> = Vec::new();
    let mut i: usize = 0;
    while i < bits.len()
        invariant
            i <= bits@.len(),
            out@.len() == i as int,
            forall|k: int| 0 <= k < i as int ==> out@[k] == seq_val_u32(bits@[k]),
        decreases bits@.len() - i,
    {
        let b = bits[i];
        out.push(trunc_u32(b));
        i = i + 1;
    }
    proof {
        assert(out@ =~= arr_bits_seq(var@).map_values(|b: u64| seq_val_u32(b)));
    }
    Ok(out)
}

/// The slot a sequence element of this kind is stored as.
pub open spec fn seq_slot_int(v: Int) -> Slot {
    Slot::Bits((v.0 as u32) as u64)
}

/// The value read back from an element's bits for this kind.
pub open spec fn seq_val_int(b: u64) -> Int {
    Int((b as u32) as i32)
}

/// Encodes a sequence of platform-sized signed integers into a one-dimensional array record with
/// element discriminant `VT_INT`, lower bound zero and the sequence's length.
/// Fails exactly when the host refuses to allocate the record.
pub fn encode_sequence_int(host: &mut Host, values: Vec<Int>) -> (r: Result<
    Ptr<ArrRec, DefaultDestructor>,
    SafeArrayError,
>)
    requires
        values@.len() <= i32::MAX as int,
    ensures
        final(host).budget() == (match old(host).budget() {
            None => None,
            Some(k) => if k == 0 {
                Some(0usize)
            } else {
                Some((k - 1) as usize)
            },
        }),
        match r {
            Ok(p) => old(host).budget() != Some(0usize) && final(host).counts() == old(host).counts().array_alloced() && p@.dims == 1 && p@.elem_vt == VT_INT as u16 && p@.lbound
                == 0 && p@.ubound as int == values@.len() - 1 && p@.elems()
                == values@.map_values(|v: Int| seq_slot_int(v)) && arr_wf(p@),
            Err(e) => old(host).budget() == Some(0usize) && final(host).counts() == old(host).counts() && is_create_err(e),
        },
{
    let mut bits: Vec<u64> = Vec::new();
    let mut i: usize = 0;
    while i < values.len()
        invariant
            i <= values@.len(),
            bits@.len() == i as int,
            forall|k: int| 0 <= k < i as int ==> bits@[k] == slot_bits(
                seq_slot_int(values@[k]),
            ),
        decreases values@.len() - i,
    {
        let v = values[i];
        bits.push((v.0 as u32) as u64);
        i = i + 1;
    }
    let r = encode_slots_bits(host, VT_INT as u16, bits);
    proof {
        if r is Ok {
            assert(r->Ok_0@.elems() =~= values@.map_values(|v: Int| seq_slot_int(v)));
        }
    }
    r
}

/// Decodes a one-dimensional array record of platform-sized signed integers: checks the dimension
/// count, then the element discriminant against `VT_INT`, then reads the
/// elements in bounds order. The record is released on every path.
pub fn decode_sequence_int(host: &mut Host, var: Ptr<ArrRec, DefaultDestructor>) -> (r: Result<
    Vec<Int>,
    SafeArrayError,
>)
    requires
        arr_wf(var@),
    ensures
        final(host).budget() == old(host).budget(),
        final(host).counts() == old(host).counts().plus_frees(arr_fp(var@)),
        var@.dims != 1 ==> (r matches Err(e) && is_dims_err(e, var@.dims)),
        var@.dims == 1 && var@.elem_vt != VT_INT as u16 ==> (r matches Err(e) && is_vt_err(
            e,
            VT_INT as u16,
            var@.elem_vt,
        )),
        var@.dims == 1 && var@.elem_vt == VT_INT as u16 && seq_storage_short(var@) ==> (r matches
            Err(e) && is_get_elem_err(e, var@.elems().len() as int, DISP_E_BADINDEX)),
        seq_ok(var@, VT_INT as u16) ==> (r matches Ok(v) && v@ == arr_bits_seq(var@).map_values(
            |b: u64| seq_val_int(b),
        )),
{
    let bits = decode_slots_bits(host, VT_INT as u16, var)?;
    let mut out: Vec<Int> = Vec::new();
    let mut i: usize = 0;
    while i < bits.len()
        invariant
            i <= bits@.len(),
            out@.len() == i as int,
            forall|k: int| 0 <= k < i as int ==> out@[k] == seq_val_int(bits@[k]),
        decreases bits@.len() - i,
    {
        let b = bits[i];
        out.push(Int(trunc_i32(b)));
        i = i + 1;
    }
    proof {
        assert(out@ =~= arr_bits_seq(var@).map_values(|b: u64| seq_val_int(b)));
    }
    Ok(out)
}

/// The slot a sequence element of this kind is stored as.
pub open spec fn seq_slot_uint(v: UInt) -> Slot {
    Slot::Bits((v.0 as u32) as u64)
}

/// The value read back from an element's bits for this kind.
pub open spec fn seq_val_uint(b: u64) -> UInt {
    UInt(b as u32)
}

/// Encodes a sequence of platform-sized unsigned integers into a one-dimensional array record with
/// element discriminant `VT_UINT`, lower bound zero and the sequence's length.
/// Fails exactly when the host refuses to allocate the record.
pub fn encode_sequence_uint(host: &mut Host, values: Vec<UInt>) -> (r: Result<
    Ptr<ArrRec, DefaultDestructor>,
    SafeArrayError,
>)
    requires
        values@.len() <= i32::MAX as int,
    ensures
        final(host).budget() == (match old(host).budget() {
            None => None,
            Some(k) => if k == 0 {
                Some(0usize)
            } else {
                Some((k - 1) as usize)
            },
        }),
        match r {
            Ok(p) => old(host).budget() != Some(0usize) && final(host).counts() == old(host).counts().array_alloced() && p@.dims == 1 && p@.elem_vt == VT_UINT as u16 && p@.lbound
                == 0 && p@.ubound as int == values@.len() - 1 && p@.elems()
                == values@.map_values(|v: UInt| seq_slot_uint(v)) && arr_wf(p@),
            Err(e) => old(host).budget() == Some(0usize) && final(host).counts() == old(host).counts() && is_create_err(e),
        },
{
    let mut bits: Vec<u64> = Vec::new();
    let mut i: usize = 0;
    while i < values.len()
        invariant
            i <= values@.len(),
            bits@.len() == i as int,
            forall|k: int| 0 <= k < i as int ==> bits@[k] == slot_bits(
                seq_slot_uint(values@[k]),
            ),
        decreases values@.len() - i,
    {
        let v = values[i];
        bits.push((v.0 as u32) as u64);
        i = i + 1;
    }
    let r = encode_slots_bits(host, VT_UINT as u16, bits);
    proof {
        if r is Ok {
            assert(r->Ok_0@.elems() =~= values@.map_values(|v: UInt| seq_slot_uint(v)));
        }
    }
    r
}

/// Decodes a one-dimensional array record of platform-sized unsigned integers: checks the dimension
/// count, then the element discriminant against `VT_UINT`, then reads the
/// elements in bounds order. The record is released on every path.
pub fn decode_sequence_uint(host: &mut Host, var: Ptr<ArrRec, DefaultDestructor>) -> (r: Result<
    Vec<UInt>,
    SafeArrayError,
>)
    requires
        arr_wf(var@),
    ensures
        final(host).budget() == old(host).budget(),
        final(host).counts() == old(host).counts().plus_frees(arr_fp(var@)),
        var@.dims != 1 ==> (r matches Err(e) && is_dims_err(e, var@.dims)),
        var@.dims == 1 && var@.elem_vt != VT_UINT as u16 ==> (r matches Err(e) && is_vt_err(
            e,
            VT_UINT as u16,
            var@.elem_vt,
        )),
        var@.dims == 1 && var@.elem_vt == VT_UINT as u16 && seq_storage_short(var@) ==> (r matches
            Err(e) && is_get_elem_err(e, var@.elems().len() as int, DISP_E_BADINDEX)),
        seq_ok(var@, VT_UINT as u16) ==> (r matches Ok(v) && v@ == arr_bits_seq(var@).map_values(
            |b: u64| seq_val_uint(b),
        )),
{
    let bits = decode_slots_bits(host, VT_UINT as u16, var)?;
    let mut out: Vec<UInt> = Vec::new();
    let mut i: usize = 0;
    while i < bits.len()
        invariant
            i <= bits@.len(),
            out@.len() == i as int,
            forall|k: int| 0 <= k < i as int ==> out@[k] == seq_val_uint(bits@[k]),
        decreases bits@.len() - i,
    {
        let b = bits[i];
        out.push(UInt(trunc_u32(b)));
        i = i + 1;
    }
    proof {
        assert(out@ =~= arr_bits_seq(var@).map_values(|b: u64| seq_val_uint(b)));
    }
    Ok(out)
}

/// Replacing a resource-free slot adds the new slot's footprint.
pub proof fn lemma_slots_fp_update(s: Seq<Slot>, j: int, x: Slot)
    requires
        0 <= j < s.len(),
        slot_fp(s[j]) == fp_zero(),
    ensures
        slots_fp(s.update(j, x)) == fp_add(slots_fp(s), slot_fp(x)),
    decreases s.len(),
{
    let t = s.update(j, x);
    if j == s.len() - 1 {
        assert(t.drop_last() =~= s.drop_last());
        assert(t.last() == x);
        assert(s.last() == s[j]);
    } else {
        assert(t.drop_last() =~= s.drop_last().update(j, x));
        assert(t.last() == s.last());
        lemma_slots_fp_update(s.drop_last(), j, x);
    }
}

/// Taking a slot out, leaving a resource-free one, removes its footprint.
pub proof fn lemma_slots_fp_take(s: Seq<Slot>, j: int, z: Slot)
    requires
        0 <= j < s.len(),
        slot_fp(z) == fp_zero(),
    ensures
        fp_add(slots_fp(s.update(j, z)), slot_fp(s[j])) == slots_fp(s),
    decreases s.len(),
{
    let t = s.update(j, z);
    if j == s.len() - 1 {
        assert(t.drop_last() =~= s.drop_last());
        assert(t.last() == z);
        assert(s.last() == s[j]);
    } else {
        assert(t.drop_last() =~= s.drop_last().update(j, z));
        assert(t.last() == s.last());
        lemma_slots_fp_take(s.drop_last(), j, z);
    }
}

/// The slot a decimal sequence element is stored as.
pub open spec fn seq_slot_decimal(v: DecWrapper) -> Slot {
    Slot::Dec(parts_of_serial(dec_serial(v.dec())))
}

/// Encodes a sequence of 96-bit decimals into a one-dimensional array record
/// with element discriminant `VT_DECIMAL`. The native decimal parts live
/// inline in the element storage, so only the record's own allocation can
/// fail.
pub fn encode_sequence_decimal(host: &mut Host, values: Vec<DecWrapper>) -> (r: Result<
    Ptr<ArrRec, DefaultDestructor>,
    SafeArrayError,
>)
    requires
        values@.len() <= i32::MAX as int,
    ensures
        final(host).budget() == (match old(host).budget() {
            None => None,
            Some(k) => if k == 0 {
                Some(0usize)
            } else {
                Some((k - 1) as usize)
            },
        }),
        match r {
            Ok(p) => old(host).budget() != Some(0usize) && final(host).counts() == old(host).counts().array_alloced() && p@.dims == 1 && p@.elem_vt == VT_DECIMAL as u16
                && p@.lbound == 0 && p@.ubound as int == values@.len() - 1 && p@.elems()
                == values@.map_values(|v: DecWrapper| seq_slot_decimal(v)) && arr_wf(p@),
            Err(e) => old(host).budget() == Some(0usize) && final(host).counts() == old(host).counts() && is_create_err(e),
        },
{
    let n = values.len();
    let created = host.array_create(VT_DECIMAL as u16, 1, 0, n as u32);
    let mut arr = match created {
        Some(a) => a,
        None => {
            return Err(IntoSafeArrayError::SafeArrayCreateFailed.into_safe_array_error());
        },
    };
    let mut i: usize = 0;
    while i < n
        invariant
            n == values@.len(),
            n <= i32::MAX as int,
            i <= n,
            arr.dims == 1,
            arr.elem_vt == VT_DECIMAL as u16,
            arr.lbound == 0,
            arr.ubound as int == n as int - 1,
            arr.elems().len() == n,
            forall|j: int| 0 <= j < i as int ==> arr.elems()[j] == seq_slot_decimal(values@[j]),
            forall|j: int| 0 <= j < i as int ==> elem_slot_wf(
                VT_DECIMAL as u16,
                #[trigger] arr.elems()[j],
            ),
            forall|j: int| i as int <= j < n as int ==> arr.elems()[j] == zero_slot(
                VT_DECIMAL as u16,
            ),
        decreases n - i,
    {
        let parts = DecWrapper::build_c_decimal(values[i].borrow());
        let put = arr.put_element(i as i32, Slot::Dec(parts));
        proof {
            assert(put is Ok);
        }
        let _displaced = put;
        i = i + 1;
    }
    proof {
        assert(arr.elems() =~= values@.map_values(|v: DecWrapper| seq_slot_decimal(v)));
    }
    Ok(Ptr::new(arr))
}

/// Decodes a one-dimensional array record of 96-bit decimals, rebuilding
/// each value from the native parts in its element slot. The record is
/// released on every path.
#[verifier::loop_isolation(false)]
pub fn decode_sequence_decimal(host: &mut Host, var: Ptr<ArrRec, DefaultDestructor>) -> (r: Result<
    Vec<DecWrapper>,
    SafeArrayError,
>)
    requires
        arr_wf(var@),
    ensures
        final(host).budget() == old(host).budget(),
        final(host).counts() == old(host).counts().plus_frees(arr_fp(var@)),
        var@.dims != 1 ==> (r matches Err(e) && is_dims_err(e, var@.dims)),
        var@.dims == 1 && var@.elem_vt != VT_DECIMAL as u16 ==> (r matches Err(e) && is_vt_err(
            e,
            VT_DECIMAL as u16,
            var@.elem_vt,
        )),
        var@.dims == 1 && var@.elem_vt == VT_DECIMAL as u16 && seq_storage_short(var@) ==> (r
            matches Err(e) && is_get_elem_err(e, var@.elems().len() as int, DISP_E_BADINDEX)),
        seq_ok(var@, VT_DECIMAL as u16) ==> (r matches Ok(v) && v@.len() == seq_n(var@) && (forall|
            j: int,
        |
            0 <= j < seq_n(var@) ==> (var@.elems()[j] matches Slot::Dec(p) && dec_serial(
                (#[trigger] v@[j]).dec(),
            ) == serial_of_parts(
                (p.lo64 & 0xFFFF_FFFF) as u32,
                ((p.lo64 >> 32) & 0xFFFF_FFFF) as u32,
                p.hi32,
                p.sign == DECIMAL_NEG,
                p.scale,
            )))),
{
    let ghost a0 = var@;
    let mut arr = var.into_inner();
    let dims = arr.get_dims();
    if dims != 1 {
        host.destroy_arr(arr);
        return Err(
            FromSafeArrayError::SafeArrayDimsInvalid { sa_dims: dims }.into_safe_array_error(),
        );
    }
    let vt = arr.get_vartype();
    if vt != (VT_DECIMAL as u16) {
        host.destroy_arr(arr);
        return Err(
            FromSafeArrayError::VarTypeDoesNotMatch {
                expected: VT_DECIMAL,
                found: vt as u32,
            }.into_safe_array_error(),
        );
    }
    proof {
        assert forall|k: int| 0 <= k < a0.elems().len() implies slot_fp(
            #[trigger] a0.elems()[k],
        ) == fp_zero() by {
            assert(elem_slot_wf(a0.elem_vt, a0.elems()[k]));
        }
        lemma_slots_fp_zero(a0.elems());
    }
    let lb = arr.get_lbound();
    let ub = arr.get_ubound();
    let n_wide: i64 = if ub >= lb {
        ub as i64 - lb as i64 + 1
    } else {
        0
    };
    let mut out: Vec<DecWrapper> = Vec::new();
    let mut j: i64 = 0;
    while j < n_wide
        invariant
            arr.dims == a0.dims,
            arr.elem_vt == a0.elem_vt,
            arr.lbound == a0.lbound,
            arr.ubound == a0.ubound,
            arr.elems().len() == a0.elems().len(),
            0 <= j <= n_wide,
            n_wide == seq_n(a0),
            j as int <= a0.elems().len(),
            forall|k: int| j as int <= k < a0.elems().len() ==> arr.elems()[k] == a0.elems()[k],
            forall|k: int| 0 <= k < j as int ==> arr.elems()[k] == zero_slot(VT_DECIMAL as u16),
            out@.len() == j as int,
            forall|k: int|
                0 <= k < j as int ==> (a0.elems()[k] matches Slot::Dec(p) && dec_serial(
                    (#[trigger] out@[k]).dec(),
                ) == serial_of_parts(
                    (p.lo64 & 0xFFFF_FFFF) as u32,
                    ((p.lo64 >> 32) & 0xFFFF_FFFF) as u32,
                    p.hi32,
                    p.sign == DECIMAL_NEG,
                    p.scale,
                )),
            host.budget() == old(host).budget(),
            host.counts() == old(host).counts(),
        decreases n_wide - j,
    {
        let ix_wide: i64 = lb as i64 + j;
        let ix: i32 = ix_wide as i32;
        let got = arr.put_element(ix, mk_zero_slot(VT_DECIMAL as u16));
        let slot = match got {
            Ok(s) => s,
            Err(hr) => {
                proof {
                    assert(j as int == a0.elems().len());
                    assert forall|k: int| 0 <= k < arr.elems().len() implies slot_fp(
                        #[trigger] arr.elems()[k],
                    ) == fp_zero() by {}
                    lemma_slots_fp_zero(arr.elems());
                }
                host.destroy_arr(arr);
                return Err(
                    FromSafeArrayError::from_element_err(
                        FromSafeArrElemError::GetElementFailed { hr }.into_element_error(),
                        j as usize,
                    ).into_safe_array_error(),
                );
            },
        };
        proof {
            assert(elem_slot_wf(a0.elem_vt, a0.elems()[j as int]));
        }
        match slot {
            Slot::Dec(p) => {
                let d = DecWrapper::build_rust_decimal(&p);
                out.push(DecWrapper::new(d));
            },
            _ => {
                proof {
                    assert(false);
                }
            },
        };
        j = j + 1;
    }
    proof {
        assert forall|k: int| 0 <= k < arr.elems().len() implies slot_fp(
            #[trigger] arr.elems()[k],
        ) == fp_zero() by {
            if k >= j as int {
                assert(arr.elems()[k] == a0.elems()[k]);
            }
        }
        lemma_slots_fp_zero(arr.elems());
    }
    host.destroy_arr(arr);
    Ok(out)
}

/// The code units held by a string array element, if the element and its
/// buffer are present: string elements travel as nested value records
/// tagged `VT_BSTR`.
pub open spec fn str_elem_units(s: Slot) -> Option<Seq<u16>> {
    match s {
        Slot::Var(o) => match o {
            Some(ch) => match ch.slot {
                Slot::Str(so) => match so {
                    Some(b) => Some(b.units()),
                    None => None,
                },
                _ => None,
            },
            None => None,
        },
        _ => None,
    }
}

/// True of the encode-side element error at the given ordinal whose cause is
/// a refused wide-string allocation of the given length.
pub open spec fn is_alloc_elem_err(e: SafeArrayError, index: int, len: nat) -> bool {
    e matches SafeArrayError::Into(b) && *b matches IntoSafeArrayError::ElementConversionFailed {
        index: i,
        element: el,
    } && i == index && (*el matches ElementError::Into(ie) && *ie matches
        IntoSafeArrElemError::BStringFailed(be) && *be matches BStringError::AllocateFailed {
        len: l,
    } && l == len)
}

/// Encodes a sequence of wide strings into a one-dimensional array record
/// with element discriminant `VT_BSTR`; each element is a nested value
/// record owning a host-allocated buffer with exactly that string's code
/// units. If allocating the record, or the buffer of any element, fails for
/// want of budget, everything built so far, the record included, is released
/// exactly once, and the error carries the failing element's ordinal.
#[verifier::loop_isolation(false)]
pub fn encode_sequence_string(host: &mut Host, values: Vec<widestring::U16String>) -> (r: Result<
    Ptr<ArrRec, DefaultDestructor>,
    SafeArrayError,
>)
    requires
        values@.len() <= i32::MAX as int,
    ensures
        match r {
            Ok(p) => budget_covers(old(host).budget(), values@.len() + 1) && final(host).budget()
                == budget_minus(old(host).budget(), values@.len() + 1) && final(host).counts() == (
            HostCounts {
                string_allocs: old(host).counts().string_allocs + values@.len(),
                variant_allocs: old(host).counts().variant_allocs + values@.len(),
                array_allocs: old(host).counts().array_allocs + 1,
                ..old(host).counts()
            }) && p@.dims == 1 && p@.elem_vt == VT_BSTR as u16 && p@.lbound == 0 && p@.ubound as int
                == values@.len() - 1 && p@.elems().len() == values@.len() && (forall|j: int|
                0 <= j < values@.len() ==> str_elem_units(#[trigger] p@.elems()[j]) == Some(
                    wide_units(values@[j]),
                )) && arr_wf(p@),
            Err(e) => match old(host).budget() {
                Some(k) => if k == 0 {
                    is_create_err(e) && final(host).counts() == old(host).counts() && final(host).budget() == Some(0usize)
                } else {
                    k <= values@.len() && is_alloc_elem_err(
                        e,
                        k - 1,
                        wide_units(values@[k - 1]).len(),
                    ) && final(host).counts() == (HostCounts {
                        string_allocs: (old(host).counts().string_allocs + k - 1) as nat,
                        string_frees: (old(host).counts().string_frees + k - 1) as nat,
                        variant_allocs: (old(host).counts().variant_allocs + k - 1) as nat,
                        variant_frees: (old(host).counts().variant_frees + k - 1) as nat,
                        array_allocs: old(host).counts().array_allocs + 1,
                        array_frees: old(host).counts().array_frees + 1,
                    }) && final(host).budget() == Some(0usize)
                },
                None => false,
            },
        },
{
    let n = values.len();
    let created = host.array_create(VT_BSTR as u16, 1, 0, n as u32);
    let mut arr = match created {
        Some(a) => a,
        None => {
            return Err(IntoSafeArrayError::SafeArrayCreateFailed.into_safe_array_error());
        },
    };
    let ghost c0 = host.counts();
    let ghost b0 = host.budget();
    proof {
        assert forall|k: int| 0 <= k < arr.elems().len() implies slot_fp(
            #[trigger] arr.elems()[k],
        ) == fp_zero() by {}
        lemma_slots_fp_zero(arr.elems());
    }
    let mut i: usize = 0;
    while i < n
        invariant
            n == values@.len(),
            n <= i32::MAX as int,
            i <= n,
            arr.dims == 1,
            arr.elem_vt == VT_BSTR as u16,
            arr.lbound == 0,
            arr.ubound as int == n as int - 1,
            arr.elems().len() == n,
            forall|j: int|
                0 <= j < i as int ==> str_elem_units(#[trigger] arr.elems()[j]) == Some(
                    wide_units(values@[j]),
                ),
            forall|j: int|
                0 <= j < i as int ==> elem_slot_wf(VT_BSTR as u16, #[trigger] arr.elems()[j]),
            forall|j: int|
                0 <= j < i as int ==> slot_fp(#[trigger] arr.elems()[j]) == (Fp {
                    strings: 1,
                    variants: 1,
                    arrays: 0,
                }),
            forall|j: int| i as int <= j < n as int ==> arr.elems()[j] == zero_slot(
                VT_BSTR as u16,
            ),
            slots_fp(arr.elems()) == (Fp { strings: i as nat, variants: i as nat, arrays: 0 }),
            host.counts() == (HostCounts {
                string_allocs: (c0.string_allocs + i) as nat,
                variant_allocs: (c0.variant_allocs + i) as nat,
                ..c0
            }),
            host.budget() == budget_minus(b0, i as nat),
            budget_covers(b0, i as nat),
            c0 == old(host).counts().array_alloced(),
            b0 == budget_minus(old(host).budget(), 1),
            old(host).budget() != Some(0usize),
        decreases n - i,
    {
        let units = u16string_units(&values[i]);
        match host.alloc_bstr(units) {
            Ok(b) => {
                host.tick_variant_alloc();
                let child = VarRec { vt: VT_BSTR as u16, slot: Slot::Str(Some(b)) };
                let ghost chg = child;
                let ghost pre = arr.elems();
                let put = arr.put_element(i as i32, Slot::Var(Some(Box::new(child))));
                proof {
                    assert(put is Ok);
                    let ns = arr.elems()[i as int];
                    assert(ns matches Slot::Var(o) && o matches Some(c) && *c == chg);
                    assert(slot_fp(chg.slot) == (Fp { strings: 1, variants: 0, arrays: 0 }));
                    assert(rec_fp(chg) == (Fp { strings: 1, variants: 1, arrays: 0 }));
                    assert(slot_fp(ns) == (Fp { strings: 1, variants: 1, arrays: 0 }));
                    lemma_slots_fp_update(pre, i as int, ns);
                    assert(arr.elems() =~= pre.update(i as int, ns));
                }
                let _displaced = put;
                i = i + 1;
            },
            Err(e) => {
                proof {
                    assert(slots_fp(arr.elems()) == (Fp {
                        strings: i as nat,
                        variants: i as nat,
                        arrays: 0,
                    }));
                }
                host.destroy_arr(arr);
                return Err(
                    IntoSafeArrayError::from_element_err(
                        IntoSafeArrElemError::BStringFailed(Box::new(e)).into_element_error(),
                        i,
                    ).into_safe_array_error(),
                );
            },
        }
    }
    Ok(Ptr::new(arr))
}


/// How many elements a scan of the record can reach: the bounds' count,
/// capped by the storage.
pub open spec fn seq_scan_limit(a: ArrRec) -> int {
    if seq_n(a) <= a.elems().len() {
        seq_n(a)
    } else {
        a.elems().len() as int
    }
}

/// True when every element before the given one holds a present string.
pub open spec fn str_prefix_ok(a: ArrRec, m: int) -> bool {
    forall|j: int| 0 <= j < m ==> (#[trigger] str_elem_units(a.elems()[j])) is Some
}

/// Decodes a one-dimensional array record of wide strings: each element's
/// nested record is opened, its buffer copied out and released. A null
/// element or a null buffer fails with the null-pointer element error at
/// that ordinal. The record and everything it still owns are released
/// exactly once on every path.
#[verifier::loop_isolation(false)]
pub fn decode_sequence_string(host: &mut Host, var: Ptr<ArrRec, DefaultDestructor>) -> (r: Result<
    Vec<widestring::U16String>,
    SafeArrayError,
>)
    requires
        arr_wf(var@),
    ensures
        final(host).budget() == old(host).budget(),
        final(host).counts() == old(host).counts().plus_frees(arr_fp(var@)),
        var@.dims != 1 ==> (r matches Err(e) && is_dims_err(e, var@.dims)),
        var@.dims == 1 && var@.elem_vt != VT_BSTR as u16 ==> (r matches Err(e) && is_vt_err(
            e,
            VT_BSTR as u16,
            var@.elem_vt,
        )),
        var@.dims == 1 && var@.elem_vt == VT_BSTR as u16 && str_prefix_ok(
            var@,
            seq_scan_limit(var@),
        ) && seq_storage_short(var@) ==> (r matches Err(e) && is_get_elem_err(
            e,
            var@.elems().len() as int,
            DISP_E_BADINDEX,
        )),
        seq_ok(var@, VT_BSTR as u16) && str_prefix_ok(var@, seq_n(var@)) ==> (r matches Ok(v)
            && v@.len() == seq_n(var@) && (forall|j: int|
            0 <= j < seq_n(var@) ==> Some(wide_units(#[trigger] v@[j])) == str_elem_units(
                var@.elems()[j],
            ))),
        var@.dims == 1 && var@.elem_vt == VT_BSTR as u16 && !str_prefix_ok(
            var@,
            seq_scan_limit(var@),
        ) ==> (r matches Err(e) && (exists|ix: int|
            0 <= ix < seq_scan_limit(var@) && !((#[trigger] str_elem_units(
                var@.elems()[ix],
            )) is Some) && str_prefix_ok(var@, ix) && is_null_elem_err(e, ix))),
{
    let ghost a0 = var@;
    let mut arr = var.into_inner();
    let dims = arr.get_dims();
    if dims != 1 {
        host.destroy_arr(arr);
        return Err(
            FromSafeArrayError::SafeArrayDimsInvalid { sa_dims: dims }.into_safe_array_error(),
        );
    }
    let vt = arr.get_vartype();
    if vt != (VT_BSTR as u16) {
        host.destroy_arr(arr);
        return Err(
            FromSafeArrayError::VarTypeDoesNotMatch {
                expected: VT_BSTR as u32,
                found: vt as u32,
            }.into_safe_array_error(),
        );
    }
    let lb = arr.get_lbound();
    let ub = arr.get_ubound();
    let n_wide: i64 = if ub >= lb {
        ub as i64 - lb as i64 + 1
    } else {
        0
    };
    let mut out: Vec<widestring::U16String> = Vec::new();
    let mut j: i64 = 0;
    while j < n_wide
        invariant
            arr.dims == a0.dims,
            arr.elem_vt == a0.elem_vt,
            arr.lbound == a0.lbound,
            arr.ubound == a0.ubound,
            arr.elems().len() == a0.elems().len(),
            0 <= j <= n_wide,
            n_wide == seq_n(a0),
            j as int <= a0.elems().len(),
            forall|k: int| j as int <= k < a0.elems().len() ==> arr.elems()[k] == a0.elems()[k],
            forall|k: int| 0 <= k < j as int ==> arr.elems()[k] == zero_slot(VT_BSTR as u16),
            str_prefix_ok(a0, j as int),
            out@.len() == j as int,
            forall|k: int|
                0 <= k < j as int ==> Some(wide_units(#[trigger] out@[k])) == str_elem_units(
                    a0.elems()[k],
                ),
            host.budget() == old(host).budget(),
            host.counts().plus_frees(slots_fp(arr.elems())) == old(host).counts().plus_frees(
                slots_fp(a0.elems()),
            ),
        decreases n_wide - j,
    {
        let ix_wide: i64 = lb as i64 + j;
        let ix: i32 = ix_wide as i32;
        let ghost pre = arr.elems();
        let got = arr.put_element(ix, mk_zero_slot(VT_BSTR as u16));
        let slot = match got {
            Ok(s) => s,
            Err(hr) => {
                proof {
                    assert(j as int == a0.elems().len());
                }
                host.destroy_arr(arr);
                return Err(
                    FromSafeArrayError::from_element_err(
                        FromSafeArrElemError::GetElementFailed { hr }.into_element_error(),
                        j as usize,
                    ).into_safe_array_error(),
                );
            },
        };
        proof {
            assert(slot == a0.elems()[j as int]);
            assert(elem_slot_wf(a0.elem_vt, a0.elems()[j as int]));
            lemma_slots_fp_take(pre, j as int, zero_slot(VT_BSTR as u16));
        }
        match slot {
            Slot::Var(o) => match o {
                Some(ch) => {
                    let ghost chg = *ch;
                    host.tick_variant_free();
                    let child = *ch;
                    match child.slot {
                        Slot::Str(so) => match so {
                            Some(b) => {
                                proof {
                                    assert(slot_fp(chg.slot) == (Fp {
                                        strings: 1,
                                        variants: 0,
                                        arrays: 0,
                                    }));
                                    assert(rec_fp(chg) == (Fp {
                                        strings: 1,
                                        variants: 1,
                                        arrays: 0,
                                    }));
                                }
                                let units = host.bstr_read(&b);
                                host.free_bstr(b);
                                out.push(u16string_from_vec(units));
                            },
                            None => {
                                proof {
                                    assert(slot_fp(chg.slot) == fp_zero());
                                    assert(rec_fp(chg) == (Fp {
                                        strings: 0,
                                        variants: 1,
                                        arrays: 0,
                                    }));
                                    assert(host.counts().plus_frees(slots_fp(arr.elems())) == old(host).counts().plus_frees(slots_fp(a0.elems())));
                                    assert(!(str_elem_units(a0.elems()[j as int]) is Some));
                                }
                                host.destroy_arr(arr);
                                return Err(
                                    FromSafeArrayError::from_element_err(
                                        FromVariantError::VariantPtrNull.into_element_error(),
                                        j as usize,
                                    ).into_safe_array_error(),
                                );
                            },
                        },
                        _ => {
                            proof {
                                assert(false);
                            }
                        },
                    }
                },
                None => {
                    proof {
                        assert(slot_fp(a0.elems()[j as int]) == fp_zero());
                        assert(host.counts().plus_frees(slots_fp(arr.elems())) == old(host).counts().plus_frees(slots_fp(a0.elems())));
                        assert(!(str_elem_units(a0.elems()[j as int]) is Some));
                    }
                    host.destroy_arr(arr);
                    return Err(
                        FromSafeArrayError::from_element_err(
                            FromVariantError::VariantPtrNull.into_element_error(),
                            j as usize,
                        ).into_safe_array_error(),
                    );
                },
            },
            _ => {
                proof {
                    assert(false);
                }
            },
        }
        j = j + 1;
    }
    host.destroy_arr(arr);
    Ok(out)
}

/// How many of the dynamic values are strings; each of those costs one
/// wide-string allocation to encode.
pub open spec fn count_strings(vs: Seq<Variants>) -> nat
    decreases vs.len(),
{
    if vs.len() == 0 {
        0
    } else {
        count_strings(vs.drop_last()) + (if vs.last() is String {
            1nat
        } else {
            0nat
        })
    }
}

/// Counting one more value adds one exactly when it is a string.
pub proof fn lemma_count_strings_snoc(vs: Seq<Variants>, j: int)
    requires
        0 <= j < vs.len(),
    ensures
        count_strings(vs.subrange(0, j + 1)) == count_strings(vs.subrange(0, j)) + (if vs[j]
            is String {
            1nat
        } else {
            0nat
        }),
{
    assert(vs.subrange(0, j + 1).drop_last() =~= vs.subrange(0, j));
    assert(vs.subrange(0, j + 1).last() == vs[j]);
}

/// A prefix never holds more strings than the whole sequence.
pub proof fn lemma_count_strings_mono(vs: Seq<Variants>, i: int)
    requires
        0 <= i <= vs.len(),
    ensures
        count_strings(vs.subrange(0, i)) <= count_strings(vs),
    decreases vs.len() - i,
{
    if i < vs.len() {
        lemma_count_strings_snoc(vs, i);
        lemma_count_strings_mono(vs, i + 1);
    } else {
        assert(vs.subrange(0, i) =~= vs);
    }
}

/// True of the encode-side element error at the given ordinal whose cause is
/// a refused wide-string allocation, wrapped through the value-record
/// encoder, of the given length.
pub open spec fn is_var_alloc_elem_err(e: SafeArrayError, index: int, len: nat) -> bool {
    e matches SafeArrayError::Into(b) && *b matches IntoSafeArrayError::ElementConversionFailed {
        index: i,
        element: el,
    } && i == index && (*el matches ElementError::Into(ie) && *ie matches
        IntoSafeArrElemError::IntoVariantError(ive) && (*ive matches
        IntoVariantError::AllocBStrFailed(be) && *be matches BStringError::AllocateFailed {
        len: l,
    } && l == len))
}

/// True when the slot holds a present nested record encoding the given
/// dynamic value.
pub open spec fn var_elem_ok(s: Slot, v: Variants) -> bool {
    s matches Slot::Var(o) && o matches Some(ch) && variants_rec_ok(*ch, v)
}

/// Encodes a sequence of dynamic values into a one-dimensional array record
/// with element discriminant `VT_VARIANT`; each element is an independent
/// nested value record. If the record's allocation, or any element's
/// encoding, fails, everything built so far, the record included, is
/// released exactly once: what was allocated equals what was freed, and the
/// error carries the failing element's ordinal.
#[verifier::loop_isolation(false)]
pub fn encode_sequence_variants(host: &mut Host, values: Vec<Variants>) -> (r: Result<
    Ptr<ArrRec, DefaultDestructor>,
    SafeArrayError,
>)
    requires
        values@.len() <= i32::MAX as int,
    ensures
        match r {
            Ok(p) => budget_covers(old(host).budget(), count_strings(values@) + 1) && final(host).budget() == budget_minus(old(host).budget(), count_strings(values@) + 1) && final(host).counts() == (HostCounts {
                string_allocs: (old(host).counts().string_allocs + count_strings(values@)) as nat,
                variant_allocs: (old(host).counts().variant_allocs + values@.len()) as nat,
                array_allocs: old(host).counts().array_allocs + 1,
                ..old(host).counts()
            }) && p@.dims == 1 && p@.elem_vt == VT_VARIANT as u16 && p@.lbound == 0 && p@.ubound
                as int == values@.len() - 1 && p@.elems().len() == values@.len() && (forall|j: int|
                0 <= j < values@.len() ==> var_elem_ok(#[trigger] p@.elems()[j], values@[j]))
                && arr_wf(p@),
            Err(e) => !budget_covers(old(host).budget(), count_strings(values@) + 1) && final(host).budget() == Some(0usize) && final(host).counts().live() == old(host).counts().live() && (if old(host).budget() == Some(0usize) {
                is_create_err(e) && final(host).counts() == old(host).counts()
            } else {
                final(host).counts().array_allocs == old(host).counts().array_allocs + 1 && final(host).counts().array_frees == old(host).counts().array_frees + 1 && (exists|ix: int|
                    0 <= ix < values@.len() && values@[ix] is String && is_var_alloc_elem_err(
                        e,
                        ix,
                        utf16_of((#[trigger] values@[ix])->String_0@).len(),
                    ))
            }),
        },
{
    let mut values = values;
    let ghost vs0 = values@;
    let n = values.len();
    let created = host.array_create(VT_VARIANT as u16, 1, 0, n as u32);
    let mut arr = match created {
        Some(a) => a,
        None => {
            return Err(IntoSafeArrayError::SafeArrayCreateFailed.into_safe_array_error());
        },
    };
    let ghost c0 = host.counts();
    let ghost b0 = host.budget();
    proof {
        assert forall|k: int| 0 <= k < arr.elems().len() implies slot_fp(
            #[trigger] arr.elems()[k],
        ) == fp_zero() by {}
        lemma_slots_fp_zero(arr.elems());
        assert(count_strings(vs0.subrange(0, 0)) == 0) by {
            assert(vs0.subrange(0, 0).len() == 0);
        }
    }
    let mut i: usize = 0;
    while i < n
        invariant
            n == vs0.len(),
            values@.len() == n,
            forall|k: int| i as int <= k < n as int ==> values@[k] == vs0[k],
            n <= i32::MAX as int,
            i <= n,
            arr.dims == 1,
            arr.elem_vt == VT_VARIANT as u16,
            arr.lbound == 0,
            arr.ubound as int == n as int - 1,
            arr.elems().len() == n,
            forall|j: int|
                0 <= j < i as int ==> var_elem_ok(#[trigger] arr.elems()[j], vs0[j]),
            forall|j: int|
                0 <= j < i as int ==> elem_slot_wf(VT_VARIANT as u16, #[trigger] arr.elems()[j]),
            forall|j: int| i as int <= j < n as int ==> arr.elems()[j] == zero_slot(
                VT_VARIANT as u16,
            ),
            slots_fp(arr.elems()) == (Fp {
                strings: count_strings(vs0.subrange(0, i as int)),
                variants: i as nat,
                arrays: 0,
            }),
            host.counts() == (HostCounts {
                string_allocs: (c0.string_allocs + count_strings(
                    vs0.subrange(0, i as int),
                )) as nat,
                variant_allocs: (c0.variant_allocs + i) as nat,
                ..c0
            }),
            host.budget() == budget_minus(b0, count_strings(vs0.subrange(0, i as int))),
            budget_covers(b0, count_strings(vs0.subrange(0, i as int))),
            c0 == old(host).counts().array_alloced(),
            b0 == budget_minus(old(host).budget(), 1),
            old(host).budget() != Some(0usize),
        decreases n - i,
    {
        let mut v = Variants::Bool(false);
        values.set_and_swap(i, &mut v);
        let ghost vg = vs0[i as int];
        let enc = v.into_variant(host);
        proof {
            lemma_count_strings_snoc(vs0, i as int);
        }
        match enc {
            Ok(p) => {
                let ghost pg = p@;
                let ghost pre = arr.elems();
                let put = arr.put_element(i as i32, Slot::Var(Some(Box::new(p.into_inner()))));
                proof {
                    assert(put is Ok);
                    let ns = arr.elems()[i as int];
                    assert(ns matches Slot::Var(o) && o matches Some(c) && *c == pg);
                    assert(variants_rec_ok(pg, vg));
                    if vg is String {
                        assert(slot_fp(pg.slot) == (Fp { strings: 1, variants: 0, arrays: 0 }));
                        assert(rec_fp(pg) == (Fp { strings: 1, variants: 1, arrays: 0 }));
                    } else {
                        assert(pg.slot is Bits);
                        assert(slot_fp(pg.slot) == fp_zero());
                        assert(rec_fp(pg) == (Fp { strings: 0, variants: 1, arrays: 0 }));
                    }
                    assert(slot_fp(ns) == rec_fp(pg));
                    lemma_slots_fp_update(pre, i as int, ns);
                    assert(arr.elems() =~= pre.update(i as int, ns));
                }
                let _displaced = put;
                i = i + 1;
            },
            Err(e) => {
                proof {
                    lemma_count_strings_mono(vs0, i as int + 1);
                }
                host.destroy_arr(arr);
                let ee = IntoSafeArrayError::from_element_err(e.into_element_error(), i);
                let r_err = ee.into_safe_array_error();
                proof {
                    assert(vs0[i as int] is String);
                    assert(is_var_alloc_elem_err(
                        r_err,
                        i as int,
                        utf16_of(vs0[i as int]->String_0@).len(),
                    ));
                }
                return Err(r_err);
            },
        }
    }
    proof {
        assert(vs0.subrange(0, n as int) =~= vs0);
    }
    Ok(Ptr::new(arr))
}

/// True when an element of a dynamic-value array is decodable: it holds a
/// present nested record whose discriminant the dynamic path recognizes.
pub open spec fn var_elem_dec_ok(s: Slot) -> bool {
    s matches Slot::Var(o) && o matches Some(ch) && dyn_dec_err(*ch) is None
}

/// The decode error an undecodable dynamic-value element produces: the
/// null-pointer error for a missing record, its own dynamic decode error
/// otherwise.
pub open spec fn var_elem_err(s: Slot) -> FromVariantError {
    match s {
        Slot::Var(o) => match o {
            Some(ch) => match dyn_dec_err(*ch) {
                Some(e) => e,
                None => FromVariantError::VariantPtrNull,
            },
            None => FromVariantError::VariantPtrNull,
        },
        _ => FromVariantError::VariantPtrNull,
    }
}

/// True of the decode-side element error at the given ordinal wrapping the
/// given value-record decode error.
pub open spec fn is_from_var_elem_err(e: SafeArrayError, index: int, ve: FromVariantError) -> bool {
    e matches SafeArrayError::From(b) && *b matches FromSafeArrayError::ElementConversionFailed {
        index: i,
        element: el,
    } && i == index && (*el matches ElementError::From(fe) && *fe matches
        FromSafeArrElemError::FromVarError(w) && *w == ve)
}

/// Decodes a one-dimensional array record of dynamic values: each element's
/// nested record is decoded by discriminant. A null element fails with the
/// null-pointer element error at that ordinal; an element of an unrecognized
/// discriminant fails with the unsupported-kind error there. The record and
/// everything it still owns are released exactly once on every path.
#[verifier::loop_isolation(false)]
pub fn decode_sequence_variants(host: &mut Host, var: Ptr<ArrRec, DefaultDestructor>) -> (r:
    Result<Vec<Variants>, SafeArrayError>)
    requires
        arr_wf(var@),
    ensures
        final(host).budget() == old(host).budget(),
        final(host).counts() == old(host).counts().plus_frees(arr_fp(var@)),
        var@.dims != 1 ==> (r matches Err(e) && is_dims_err(e, var@.dims)),
        var@.dims == 1 && var@.elem_vt != VT_VARIANT as u16 ==> (r matches Err(e) && is_vt_err(
            e,
            VT_VARIANT as u16,
            var@.elem_vt,
        )),
        seq_ok(var@, VT_VARIANT as u16) && (forall|j: int|
            0 <= j < seq_n(var@) ==> var_elem_dec_ok(#[trigger] var@.elems()[j])) ==> (r matches
            Ok(v) && v@.len() == seq_n(var@) && (forall|j: int|
            0 <= j < seq_n(var@) ==> ((#[trigger] var@.elems()[j]) matches Slot::Var(o) && o
                matches Some(ch) && variants_of_rec(*ch, v@[j])))),
        var@.dims == 1 && var@.elem_vt == VT_VARIANT as u16 && !(forall|j: int|
            0 <= j < seq_scan_limit(var@) ==> var_elem_dec_ok(#[trigger] var@.elems()[j])) ==> (r
            matches Err(e) && (exists|ix: int|
            0 <= ix < seq_scan_limit(var@) && !var_elem_dec_ok(#[trigger] var@.elems()[ix]) && (
            forall|j: int| 0 <= j < ix ==> var_elem_dec_ok(#[trigger] var@.elems()[j]))
                && is_from_var_elem_err(e, ix, var_elem_err(var@.elems()[ix])))),
{
    let ghost a0 = var@;
    let mut arr = var.into_inner();
    let dims = arr.get_dims();
    if dims != 1 {
        host.destroy_arr(arr);
        return Err(
            FromSafeArrayError::SafeArrayDimsInvalid { sa_dims: dims }.into_safe_array_error(),
        );
    }
    let vt = arr.get_vartype();
    if vt != (VT_VARIANT as u16) {
        host.destroy_arr(arr);
        return Err(
            FromSafeArrayError::VarTypeDoesNotMatch {
                expected: VT_VARIANT as u32,
                found: vt as u32,
            }.into_safe_array_error(),
        );
    }
    let lb = arr.get_lbound();
    let ub = arr.get_ubound();
    let n_wide: i64 = if ub >= lb {
        ub as i64 - lb as i64 + 1
    } else {
        0
    };
    let mut out: Vec<Variants> = Vec::new();
    let mut j: i64 = 0;
    while j < n_wide
        invariant
            arr.dims == a0.dims,
            arr.elem_vt == a0.elem_vt,
            arr.lbound == a0.lbound,
            arr.ubound == a0.ubound,
            arr.elems().len() == a0.elems().len(),
            0 <= j <= n_wide,
            n_wide == seq_n(a0),
            j as int <= a0.elems().len(),
            forall|k: int| j as int <= k < a0.elems().len() ==> arr.elems()[k] == a0.elems()[k],
            forall|k: int| 0 <= k < j as int ==> arr.elems()[k] == zero_slot(VT_VARIANT as u16),
            forall|k: int| 0 <= k < j as int ==> var_elem_dec_ok(#[trigger] a0.elems()[k]),
            out@.len() == j as int,
            forall|k: int|
                0 <= k < j as int ==> ((#[trigger] a0.elems()[k]) matches Slot::Var(o) && o
                    matches Some(ch) && variants_of_rec(*ch, out@[k])),
            host.budget() == old(host).budget(),
            host.counts().plus_frees(slots_fp(arr.elems())) == old(host).counts().plus_frees(
                slots_fp(a0.elems()),
            ),
        decreases n_wide - j,
    {
        let ix_wide: i64 = lb as i64 + j;
        let ix: i32 = ix_wide as i32;
        let ghost pre = arr.elems();
        let got = arr.put_element(ix, mk_zero_slot(VT_VARIANT as u16));
        let slot = match got {
            Ok(s) => s,
            Err(hr) => {
                proof {
                    assert(j as int == a0.elems().len());
                }
                host.destroy_arr(arr);
                return Err(
                    FromSafeArrayError::from_element_err(
                        FromSafeArrElemError::GetElementFailed { hr }.into_element_error(),
                        j as usize,
                    ).into_safe_array_error(),
                );
            },
        };
        proof {
            assert(slot == a0.elems()[j as int]);
            assert(elem_slot_wf(a0.elem_vt, a0.elems()[j as int]));
            lemma_slots_fp_take(pre, j as int, zero_slot(VT_VARIANT as u16));
        }
        match slot {
            Slot::Var(o) => match o {
                Some(ch) => {
                    let ghost chg = *ch;
                    let cp: Ptr<VarRec, crate::variant::VariantDestructor> = Ptr::new(*ch);
                    let dec = Variants::from_variant(host, cp);
                    match dec {
                        Ok(v) => {
                            out.push(v);
                        },
                        Err(e) => {
                            proof {
                                assert(host.counts().plus_frees(slots_fp(arr.elems())) == old(host).counts().plus_frees(slots_fp(a0.elems())));
                                assert(!var_elem_dec_ok(a0.elems()[j as int]));
                                assert(e == var_elem_err(a0.elems()[j as int]));
                            }
                            host.destroy_arr(arr);
                            let ee = FromSafeArrayError::from_element_err(
                                e.into_element_error(),
                                j as usize,
                            );
                            let r_err = ee.into_safe_array_error();
                            proof {
                                assert(is_from_var_elem_err(
                                    r_err,
                                    j as int,
                                    var_elem_err(a0.elems()[j as int]),
                                ));
                            }
                            return Err(r_err);
                        },
                    }
                },
                None => {
                    proof {
                        assert(slot_fp(a0.elems()[j as int]) == fp_zero());
                        assert(!var_elem_dec_ok(a0.elems()[j as int]));
                        assert(var_elem_err(a0.elems()[j as int])
                            == FromVariantError::VariantPtrNull);
                    }
                    host.destroy_arr(arr);
                    let ee = FromSafeArrayError::from_element_err(
                        FromVariantError::VariantPtrNull.into_element_error(),
                        j as usize,
                    );
                    let r_err = ee.into_safe_array_error();
                    proof {
                        assert(is_from_var_elem_err(
                            r_err,
                            j as int,
                            var_elem_err(a0.elems()[j as int]),
                        ));
                    }
                    return Err(r_err);
                },
            },
            _ => {
                proof {
                    assert(false);
                }
            },
        }
        j = j + 1;
    }
    host.destroy_arr(arr);
    Ok(out)
}

/// Round-trip law for sequences of inline scalar kinds: an array record
/// holding what the encoder writes decodes to a sequence with the same
/// length, the same order, and the same values, for lengths zero upward.
/// One statement follows per kind.
pub proof fn lemma_sequence_round_trip_i16(arr: ArrRec, values: Seq<i16>)
    requires
        arr.dims == 1,
        arr.elem_vt == VT_I2 as u16,
        arr.lbound == 0,
        arr.ubound as int == values.len() - 1,
        arr.elems() == values.map_values(|v: i16| seq_slot_i16(v)),
    ensures
        seq_ok(arr, VT_I2 as u16),
        arr_bits_seq(arr).map_values(|b: u64| seq_val_i16(b)) == values,
{
    assert(arr.elems().len() == values.len());
    let dec = arr_bits_seq(arr).map_values(|b: u64| seq_val_i16(b));
    assert(dec.len() == values.len());
    assert forall|j: int| 0 <= j < values.len() implies dec[j] == values[j] by {
        assert(arr.elems()[j] == seq_slot_i16(values[j]));
        lemma_cast_i16(values[j]);
    }
    assert(dec =~= values);
}

pub proof fn lemma_sequence_round_trip_i32(arr: ArrRec, values: Seq<i32>)
    requires
        arr.dims == 1,
        arr.elem_vt == VT_I4 as u16,
        arr.lbound == 0,
        arr.ubound as int == values.len() - 1,
        arr.elems() == values.map_values(|v: i32| seq_slot_i32(v)),
    ensures
        seq_ok(arr, VT_I4 as u16),
        arr_bits_seq(arr).map_values(|b: u64| seq_val_i32(b)) == values,
{
    assert(arr.elems().len() == values.len());
    let dec = arr_bits_seq(arr).map_values(|b: u64| seq_val_i32(b));
    assert(dec.len() == values.len());
    assert forall|j: int| 0 <= j < values.len() implies dec[j] == values[j] by {
        assert(arr.elems()[j] == seq_slot_i32(values[j]));
        lemma_cast_i32(values[j]);
    }
    assert(dec =~= values);
}

pub proof fn lemma_sequence_round_trip_f32_bits(arr: ArrRec, values: Seq<u32>)
    requires
        arr.dims == 1,
        arr.elem_vt == VT_R4 as u16,
        arr.lbound == 0,
        arr.ubound as int == values.len() - 1,
        arr.elems() == values.map_values(|v: u32| seq_slot_f32_bits(v)),
    ensures
        seq_ok(arr, VT_R4 as u16),
        arr_bits_seq(arr).map_values(|b: u64| seq_val_f32_bits(b)) == values,
{
    assert(arr.elems().len() == values.len());
    let dec = arr_bits_seq(arr).map_values(|b: u64| seq_val_f32_bits(b));
    assert(dec.len() == values.len());
    assert forall|j: int| 0 <= j < values.len() implies dec[j] == values[j] by {
        assert(arr.elems()[j] == seq_slot_f32_bits(values[j]));
        
    }
    assert(dec =~= values);
}

pub proof fn lemma_sequence_round_trip_f64_bits(arr: ArrRec, values: Seq<u64>)
    requires
        arr.dims == 1,
        arr.elem_vt == VT_R8 as u16,
        arr.lbound == 0,
        arr.ubound as int == values.len() - 1,
        arr.elems() == values.map_values(|v: u64| seq_slot_f64_bits(v)),
    ensures
        seq_ok(arr, VT_R8 as u16),
        arr_bits_seq(arr).map_values(|b: u64| seq_val_f64_bits(b)) == values,
{
    assert(arr.elems().len() == values.len());
    let dec = arr_bits_seq(arr).map_values(|b: u64| seq_val_f64_bits(b));
    assert(dec.len() == values.len());
    assert forall|j: int| 0 <= j < values.len() implies dec[j] == values[j] by {
        assert(arr.elems()[j] == seq_slot_f64_bits(values[j]));
        
    }
    assert(dec =~= values);
}

pub proof fn lemma_sequence_round_trip_cy(arr: ArrRec, values: Seq<Currency>)
    requires
        arr.dims == 1,
        arr.elem_vt == VT_CY as u16,
        arr.lbound == 0,
        arr.ubound as int == values.len() - 1,
        arr.elems() == values.map_values(|v: Currency| seq_slot_cy(v)),
    ensures
        seq_ok(arr, VT_CY as u16),
        arr_bits_seq(arr).map_values(|b: u64| seq_val_cy(b)) == values,
{
    assert(arr.elems().len() == values.len());
    let dec = arr_bits_seq(arr).map_values(|b: u64| seq_val_cy(b));
    assert(dec.len() == values.len());
    assert forall|j: int| 0 <= j < values.len() implies dec[j] == values[j] by {
        assert(arr.elems()[j] == seq_slot_cy(values[j]));
        lemma_cast_i64(values[j].0);
    }
    assert(dec =~= values);
}

pub proof fn lemma_sequence_round_trip_date(arr: ArrRec, values: Seq<Date>)
    requires
        arr.dims == 1,
        arr.elem_vt == VT_DATE as u16,
        arr.lbound == 0,
        arr.ubound as int == values.len() - 1,
        arr.elems() == values.map_values(|v: Date| seq_slot_date(v)),
    ensures
        seq_ok(arr, VT_DATE as u16),
        arr_bits_seq(arr).map_values(|b: u64| seq_val_date(b)) == values,
{
    assert(arr.elems().len() == values.len());
    let dec = arr_bits_seq(arr).map_values(|b: u64| seq_val_date(b));
    assert(dec.len() == values.len());
    assert forall|j: int| 0 <= j < values.len() implies dec[j] == values[j] by {
        assert(arr.elems()[j] == seq_slot_date(values[j]));
        
    }
    assert(dec =~= values);
}

pub proof fn lemma_sequence_round_trip_scode(arr: ArrRec, values: Seq<SCode>)
    requires
        arr.dims == 1,
        arr.elem_vt == VT_ERROR as u16,
        arr.lbound == 0,
        arr.ubound as int == values.len() - 1,
        arr.elems() == values.map_values(|v: SCode| seq_slot_scode(v)),
    ensures
        seq_ok(arr, VT_ERROR as u16),
        arr_bits_seq(arr).map_values(|b: u64| seq_val_scode(b)) == values,
{
    assert(arr.elems().len() == values.len());
    let dec = arr_bits_seq(arr).map_values(|b: u64| seq_val_scode(b));
    assert(dec.len() == values.len());
    assert forall|j: int| 0 <= j < values.len() implies dec[j] == values[j] by {
        assert(arr.elems()[j] == seq_slot_scode(values[j]));
        lemma_cast_i32(values[j].0);
    }
    assert(dec =~= values);
}

pub proof fn lemma_sequence_round_trip_bool(arr: ArrRec, values: Seq<VariantBool>)
    requires
        arr.dims == 1,
        arr.elem_vt == VT_BOOL as u16,
        arr.lbound == 0,
        arr.ubound as int == values.len() - 1,
        arr.elems() == values.map_values(|v: VariantBool| seq_slot_bool(v)),
    ensures
        seq_ok(arr, VT_BOOL as u16),
        arr_bits_seq(arr).map_values(|b: u64| seq_val_bool(b)) == values,
{
    assert(arr.elems().len() == values.len());
    let dec = arr_bits_seq(arr).map_values(|b: u64| seq_val_bool(b));
    assert(dec.len() == values.len());
    assert forall|j: int| 0 <= j < values.len() implies dec[j] == values[j] by {
        assert(arr.elems()[j] == seq_slot_bool(values[j]));
        assert(((0xFFFFu64 as u16) as i16) < 0) by (bit_vector);
    }
    assert(dec =~= values);
}

pub proof fn lemma_sequence_round_trip_i8(arr: ArrRec, values: Seq<i8>)
    requires
        arr.dims == 1,
        arr.elem_vt == VT_I1 as u16,
        arr.lbound == 0,
        arr.ubound as int == values.len() - 1,
        arr.elems() == values.map_values(|v: i8| seq_slot_i8(v)),
    ensures
        seq_ok(arr, VT_I1 as u16),
        arr_bits_seq(arr).map_values(|b: u64| seq_val_i8(b)) == values,
{
    assert(arr.elems().len() == values.len());
    let dec = arr_bits_seq(arr).map_values(|b: u64| seq_val_i8(b));
    assert(dec.len() == values.len());
    assert forall|j: int| 0 <= j < values.len() implies dec[j] == values[j] by {
        assert(arr.elems()[j] == seq_slot_i8(values[j]));
        lemma_cast_i8(values[j]);
    }
    assert(dec =~= values);
}

pub proof fn lemma_sequence_round_trip_u8(arr: ArrRec, values: Seq<u8>)
    requires
        arr.dims == 1,
        arr.elem_vt == VT_UI1 as u16,
        arr.lbound == 0,
        arr.ubound as int == values.len() - 1,
        arr.elems() == values.map_values(|v: u8| seq_slot_u8(v)),
    ensures
        seq_ok(arr, VT_UI1 as u16),
        arr_bits_seq(arr).map_values(|b: u64| seq_val_u8(b)) == values,
{
    assert(arr.elems().len() == values.len());
    let dec = arr_bits_seq(arr).map_values(|b: u64| seq_val_u8(b));
    assert(dec.len() == values.len());
    assert forall|j: int| 0 <= j < values.len() implies dec[j] == values[j] by {
        assert(arr.elems()[j] == seq_slot_u8(values[j]));
        
    }
    assert(dec =~= values);
}

pub proof fn lemma_sequence_round_trip_u16(arr: ArrRec, values: Seq<u16>)
    requires
        arr.dims == 1,
        arr.elem_vt == VT_UI2 as u16,
        arr.lbound == 0,
        arr.ubound as int == values.len() - 1,
        arr.elems() == values.map_values(|v: u16| seq_slot_u16(v)),
    ensures
        seq_ok(arr, VT_UI2 as u16),
        arr_bits_seq(arr).map_values(|b: u64| seq_val_u16(b)) == values,
{
    assert(arr.elems().len() == values.len());
    let dec = arr_bits_seq(arr).map_values(|b: u64| seq_val_u16(b));
    assert(dec.len() == values.len());
    assert forall|j: int| 0 <= j < values.len() implies dec[j] == values[j] by {
        assert(arr.elems()[j] == seq_slot_u16(values[j]));
        
    }
    assert(dec =~= values);
}

pub proof fn lemma_sequence_round_trip_u32(arr: ArrRec, values: Seq<u32>)
    requires
        arr.dims == 1,
        arr.elem_vt == VT_UI4 as u16,
        arr.lbound == 0,
        arr.ubound as int == values.len() - 1,
        arr.elems() == values.map_values(|v: u32| seq_slot_u32(v)),
    ensures
        seq_ok(arr, VT_UI4 as u16),
        arr_bits_seq(arr).map_values(|b: u64| seq_val_u32(b)) == values,
{
    assert(arr.elems().len() == values.len());
    let dec = arr_bits_seq(arr).map_values(|b: u64| seq_val_u32(b));
    assert(dec.len() == values.len());
    assert forall|j: int| 0 <= j < values.len() implies dec[j] == values[j] by {
        assert(arr.elems()[j] == seq_slot_u32(values[j]));
        
    }
    assert(dec =~= values);
}

pub proof fn lemma_sequence_round_trip_int(arr: ArrRec, values: Seq<Int>)
    requires
        arr.dims == 1,
        arr.elem_vt == VT_INT as u16,
        arr.lbound == 0,
        arr.ubound as int == values.len() - 1,
        arr.elems() == values.map_values(|v: Int| seq_slot_int(v)),
    ensures
        seq_ok(arr, VT_INT as u16),
        arr_bits_seq(arr).map_values(|b: u64| seq_val_int(b)) == values,
{
    assert(arr.elems().len() == values.len());
    let dec = arr_bits_seq(arr).map_values(|b: u64| seq_val_int(b));
    assert(dec.len() == values.len());
    assert forall|j: int| 0 <= j < values.len() implies dec[j] == values[j] by {
        assert(arr.elems()[j] == seq_slot_int(values[j]));
        lemma_cast_i32(values[j].0);
    }
    assert(dec =~= values);
}

pub proof fn lemma_sequence_round_trip_uint(arr: ArrRec, values: Seq<UInt>)
    requires
        arr.dims == 1,
        arr.elem_vt == VT_UINT as u16,
        arr.lbound == 0,
        arr.ubound as int == values.len() - 1,
        arr.elems() == values.map_values(|v: UInt| seq_slot_uint(v)),
    ensures
        seq_ok(arr, VT_UINT as u16),
        arr_bits_seq(arr).map_values(|b: u64| seq_val_uint(b)) == values,
{
    assert(arr.elems().len() == values.len());
    let dec = arr_bits_seq(arr).map_values(|b: u64| seq_val_uint(b));
    assert(dec.len() == values.len());
    assert forall|j: int| 0 <= j < values.len() implies dec[j] == values[j] by {
        assert(arr.elems()[j] == seq_slot_uint(values[j]));
        
    }
    assert(dec =~= values);
}

/// Round-trip law for sequences of wide strings: an array record holding
/// what the encoder writes is decodable in full, and decoding yields one
/// string per element, in order, with exactly the element's code units,
/// embedded zeros included.
pub proof fn lemma_sequence_round_trip_string(arr: ArrRec, units: Seq<Seq<u16>>)
    requires
        arr.dims == 1,
        arr.elem_vt == VT_BSTR as u16,
        arr.lbound == 0,
        arr.ubound as int == units.len() - 1,
        arr.elems().len() == units.len(),
        forall|j: int| 0 <= j < units.len() ==> str_elem_units(#[trigger] arr.elems()[j]) == Some(
            units[j],
        ),
    ensures
        seq_ok(arr, VT_BSTR as u16),
        seq_n(arr) == units.len(),
        str_prefix_ok(arr, seq_n(arr)),
{
}

/// Round-trip law for sequences of 96-bit decimals: length and order are
/// preserved; each element's value equality is the decimal round-trip law.
pub proof fn lemma_sequence_round_trip_decimal(arr: ArrRec, values: Seq<DecWrapper>)
    requires
        arr.dims == 1,
        arr.elem_vt == VT_DECIMAL as u16,
        arr.lbound == 0,
        arr.ubound as int == values.len() - 1,
        arr.elems() == values.map_values(|v: DecWrapper| seq_slot_decimal(v)),
    ensures
        seq_ok(arr, VT_DECIMAL as u16),
        seq_n(arr) == values.len(),
{
    assert(arr.elems().len() == values.len());
}

/// Round-trip law for sequences of dynamic values: an array record holding
/// what the encoder writes is decodable in full, with the same length and
/// order; each element's value equality is the dynamic round-trip law.
pub proof fn lemma_sequence_round_trip_variants(arr: ArrRec, values: Seq<Variants>)
    requires
        arr.dims == 1,
        arr.elem_vt == VT_VARIANT as u16,
        arr.lbound == 0,
        arr.ubound as int == values.len() - 1,
        arr.elems().len() == values.len(),
        forall|j: int| 0 <= j < values.len() ==> var_elem_ok(#[trigger] arr.elems()[j], values[j]),
    ensures
        seq_ok(arr, VT_VARIANT as u16),
        seq_n(arr) == values.len(),
        forall|j: int|
            0 <= j < seq_n(arr) ==> ((#[trigger] arr.elems()[j]) matches Slot::Var(o) && o matches
                Some(ch) && dyn_dec_err(*ch) is None),
{
    assert forall|j: int|
        0 <= j < seq_n(arr) implies ((#[trigger] arr.elems()[j]) matches Slot::Var(o) && o matches
        Some(ch) && dyn_dec_err(*ch) is None) by {
        assert(var_elem_ok(arr.elems()[j], values[j]));
    }
}

} // verus!
