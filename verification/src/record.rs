//! The native record structures that the codec reconstructs: the
//! discriminant-tagged value record, the bounded one-dimensional array record,
//! and the length-prefixed wide-string buffer; with their well-formedness
//! (the discriminant always matches the payload's interpretation) and their
//! resource footprint (what a transitive release must free).

use vstd::prelude::*;
use vstd::pervasive::VecAdditionalExecFns;
use crate::types::DecParts;

verus! {

/// Tag of the empty kind.
pub const VT_EMPTY: u32 = 0;

/// Tag of the null kind.
pub const VT_NULL: u32 = 1;

/// Tag of the 2-byte signed integer kind.
pub const VT_I2: u32 = 2;

/// Tag of the 4-byte signed integer kind.
pub const VT_I4: u32 = 3;

/// Tag of the 4-byte floating-point kind.
pub const VT_R4: u32 = 4;

/// Tag of the 8-byte floating-point kind.
pub const VT_R8: u32 = 5;

/// Tag of the currency kind.
pub const VT_CY: u32 = 6;

/// Tag of the date kind.
pub const VT_DATE: u32 = 7;

/// Tag of the wide-string kind.
pub const VT_BSTR: u32 = 8;

/// Tag of the dispatch-interface object-reference kind.
pub const VT_DISPATCH: u32 = 9;

/// Tag of the status-code kind.
pub const VT_ERROR: u32 = 10;

/// Tag of the boolean kind.
pub const VT_BOOL: u32 = 11;

/// Tag of the nested value-record kind.
pub const VT_VARIANT: u32 = 12;

/// Tag of the unknown-interface object-reference kind.
pub const VT_UNKNOWN: u32 = 13;

/// Tag of the 96-bit decimal kind.
pub const VT_DECIMAL: u32 = 14;

/// Tag of the 1-byte signed integer kind.
pub const VT_I1: u32 = 16;

/// Tag of the 1-byte unsigned integer kind.
pub const VT_UI1: u32 = 17;

/// Tag of the 2-byte unsigned integer kind.
pub const VT_UI2: u32 = 18;

/// Tag of the 4-byte unsigned integer kind.
pub const VT_UI4: u32 = 19;

/// Tag of the 8-byte signed integer kind.
pub const VT_I8: u32 = 20;

/// Tag of the 8-byte unsigned integer kind.
pub const VT_UI8: u32 = 21;

/// Tag of the platform-sized signed integer kind.
pub const VT_INT: u32 = 22;

/// Tag of the platform-sized unsigned integer kind.
pub const VT_UINT: u32 = 23;

/// Tag of the array kind.
pub const VT_ARRAY: u32 = 0x2000;

/// Flag marking the by-reference variant of a kind; alone, the raw untyped
/// pointer kind.
pub const VT_BYREF: u32 = 0x4000;

/// Tag of the by-reference 1-byte unsigned integer kind.
pub const VT_PUI1: u32 = 0x4011;

/// Tag of the by-reference 2-byte signed integer kind.
pub const VT_PI2: u32 = 0x4002;

/// Tag of the by-reference 4-byte signed integer kind.
pub const VT_PI4: u32 = 0x4003;

/// Tag of the by-reference 8-byte signed integer kind.
pub const VT_PI8: u32 = 0x4014;

/// Tag of the by-reference 8-byte unsigned integer kind.
pub const VT_PUI8: u32 = 0x4015;

/// Tag of the by-reference 4-byte floating-point kind.
pub const VT_PR4: u32 = 0x4004;

/// Tag of the by-reference 8-byte floating-point kind.
pub const VT_PR8: u32 = 0x4005;

/// Tag of the by-reference boolean kind.
pub const VT_PBOOL: u32 = 0x400B;

/// Tag of the by-reference status-code kind.
pub const VT_PERROR: u32 = 0x400A;

/// Tag of the by-reference currency kind.
pub const VT_PCY: u32 = 0x4006;

/// Tag of the by-reference date kind.
pub const VT_PDATE: u32 = 0x4007;

/// Tag of the by-reference 96-bit decimal kind.
pub const VT_PDECIMAL: u32 = 0x400E;

/// Tag of the by-reference 1-byte signed integer kind.
pub const VT_PI1: u32 = 0x4010;

/// Tag of the by-reference 2-byte unsigned integer kind.
pub const VT_PUI2: u32 = 0x4012;

/// Tag of the by-reference 4-byte unsigned integer kind.
pub const VT_PUI4: u32 = 0x4013;

/// Tag of the by-reference platform-sized signed integer kind.
pub const VT_PINT: u32 = 0x4016;

/// Tag of the by-reference platform-sized unsigned integer kind.
pub const VT_PUINT: u32 = 0x4017;

/// Status code of an element access outside the array's bounds.
pub const DISP_E_BADINDEX: i32 = -2147352565;

/// A wide-string buffer owned by the host string allocator. Its length is a
/// property of the buffer, queried from the host, never inferred from a
/// terminator: embedded zero code units are ordinary data. A buffer can only
/// be made and released by the host, which counts both events.
pub struct BStr {
    units: Vec<u16>,
}

impl BStr {
    /// The code units the buffer holds.
    pub closed spec fn units(self) -> Seq<u16> {
        self.units@
    }

    pub(crate) fn raw_new(units: Vec<u16>) -> (r: BStr)
        ensures
            r.units() == units@,
    {
        BStr { units }
    }

    pub(crate) fn raw_len(&self) -> (r: usize)
        ensures
            r == self.units().len(),
    {
        self.units.len()
    }

    pub(crate) fn raw_read(&self) -> (r: Vec<u16>)
        ensures
            r@ == self.units(),
    {
        let mut out: Vec<u16> = Vec::new();
        let mut i: usize = 0;
        while i < self.units.len()
            invariant
                i <= self.units.len(),
                out@ == self.units@.subrange(0, i as int),
            decreases self.units.len() - i,
        {
            out.push(self.units[i]);
            i = i + 1;
        }
        proof {
            assert(out@ =~= self.units());
        }
        out
    }
}

/// The pointee of a by-reference payload: a single host-side cell holding
/// either a scalar's bits or a native decimal record.
#[derive(Clone, Copy, Debug)]
pub enum CellVal {
    /// The bits of a scalar value.
    Scalar(u64),
    /// A native decimal record.
    Dec(DecParts),
}

/// The payload slot of a value record or of one array element. The
/// discriminant beside it says how the slot is to be read; a well-formed
/// record never carries a slot of the wrong shape for its discriminant.
pub enum Slot {
    /// An inline scalar payload: the value's bits, zero-extended into the
    /// 8-byte union slot.
    Bits(u64),
    /// A wide-string payload: an owned buffer, or null.
    Str(Option<BStr>),
    /// A by-reference payload: an owned cell, or null.
    Cell(Option<Box<CellVal>>),
    /// A nested value-record payload: an owned child record, or null.
    Var(Option<Box<VarRec>>),
    /// An array payload: an owned array record, or null.
    Arr(Option<Box<ArrRec>>),
    /// A 96-bit decimal payload, in the wide slot that lies outside the
    /// ordinary union and overlays the discriminant, which therefore stays
    /// zero.
    Dec(DecParts),
}

/// A value record: a kind discriminant plus the payload slot it governs.
pub struct VarRec {
    /// The kind discriminant.
    pub vt: u16,
    /// The payload.
    pub slot: Slot,
}

/// An array record: a dimension count, one inclusive bound pair, an element
/// discriminant, and the element storage. Only records whose dimension count
/// is exactly one can be decoded; the count is data, not an invariant.
pub struct ArrRec {
    /// The dimension count.
    pub dims: u32,
    /// The discriminant every element is tagged with.
    pub elem_vt: u16,
    /// The inclusive lower bound.
    pub lbound: i32,
    /// The inclusive upper bound.
    pub ubound: i32,
    /// The element storage.
    pub elems: Vec<Slot>,
}

impl ArrRec {
    /// The element storage, as a sequence of slots.
    pub open spec fn elems(self) -> Seq<Slot> {
        self.elems@
    }

    /// The dimension count, as the host reports it.
    pub fn get_dims(&self) -> (r: u32)
        ensures
            r == self.dims,
    {
        self.dims
    }

    /// The element discriminant, as the host reports it.
    pub fn get_vartype(&self) -> (r: u16)
        ensures
            r == self.elem_vt,
    {
        self.elem_vt
    }

    /// The inclusive lower bound.
    pub fn get_lbound(&self) -> (r: i32)
        ensures
            r == self.lbound,
    {
        self.lbound
    }

    /// The inclusive upper bound.
    pub fn get_ubound(&self) -> (r: i32)
        ensures
            r == self.ubound,
    {
        self.ubound
    }

    /// True when all fields but the element storage are unchanged between two
    /// states of a record.
    pub open spec fn same_frame(self, other: ArrRec) -> bool {
        self.dims == other.dims && self.elem_vt == other.elem_vt && self.lbound == other.lbound
            && self.ubound == other.ubound
    }

    /// Sets the inclusive lower bound.
    pub fn put_lbound(&mut self, l: i32)
        ensures
            final(self).lbound == l,
            final(self).dims == old(self).dims,
            final(self).elem_vt == old(self).elem_vt,
            final(self).ubound == old(self).ubound,
            final(self).elems() == old(self).elems(),
    {
        self.lbound = l;
    }

    /// Sets the inclusive upper bound.
    pub fn put_ubound(&mut self, u: i32)
        ensures
            final(self).ubound == u,
            final(self).dims == old(self).dims,
            final(self).elem_vt == old(self).elem_vt,
            final(self).lbound == old(self).lbound,
            final(self).elems() == old(self).elems(),
    {
        self.ubound = u;
    }

    /// Replaces the element at native index `ix` (counted from the lower
    /// bound), handing back the slot that was displaced; rejects an index
    /// outside the storage with [`DISP_E_BADINDEX`].
    pub fn put_element(&mut self, ix: i32, slot: Slot) -> (r: Result<Slot, i32>)
        ensures
            final(self).same_frame(*old(self)),
            ({
                let off = ix as int - old(self).lbound as int;
                if 0 <= off < old(self).elems().len() {
                    r matches Ok(displaced) && displaced == old(self).elems()[off] && final(self).elems() == old(self).elems().update(off, slot)
                } else {
                    r == Err::<Slot, i32>(DISP_E_BADINDEX) && final(self).elems() == old(self).elems()
                }
            }),
    {
        let off_wide: i128 = ix as i128 - self.lbound as i128;
        if 0 <= off_wide && off_wide < self.elems.len() as i128 {
            let off: usize = off_wide as usize;
            let mut slot = slot;
            self.elems.set_and_swap(off, &mut slot);
            Ok(slot)
        } else {
            Err(DISP_E_BADINDEX)
        }
    }

    /// Takes the element at native index `ix` out of the storage, leaving the
    /// zeroed slot of the element kind in its place; rejects an index outside
    /// the storage with [`DISP_E_BADINDEX`].
    pub fn get_element(&mut self, ix: i32) -> (r: Result<Slot, i32>)
        ensures
            final(self).same_frame(*old(self)),
            ({
                let off = ix as int - old(self).lbound as int;
                if 0 <= off < old(self).elems().len() {
                    r matches Ok(taken) && taken == old(self).elems()[off] && final(self).elems()
                        == old(self).elems().update(off, zero_slot(old(self).elem_vt))
                } else {
                    r == Err::<Slot, i32>(DISP_E_BADINDEX) && final(self).elems() == old(self).elems()
                }
            }),
    {
        let off_wide: i128 = ix as i128 - self.lbound as i128;
        if 0 <= off_wide && off_wide < self.elems.len() as i128 {
            let off: usize = off_wide as usize;
            let mut taken = mk_zero_slot(self.elem_vt);
            self.elems.set_and_swap(off, &mut taken);
            Ok(taken)
        } else {
            Err(DISP_E_BADINDEX)
        }
    }
}

/// True of the discriminants whose payload lives inline in the ordinary
/// union slot.
pub open spec fn is_bits_vt(vt: u16) -> bool {
    vt == VT_EMPTY as u16 || vt == VT_NULL as u16 || vt == VT_I2 as u16 || vt == VT_I4 as u16 || vt
        == VT_R4 as u16 || vt == VT_R8 as u16 || vt == VT_CY as u16 || vt == VT_DATE as u16 || vt
        == VT_ERROR as u16 || vt == VT_BOOL as u16 || vt == VT_I1 as u16 || vt == VT_UI1 as u16
        || vt == VT_UI2 as u16 || vt == VT_UI4 as u16 || vt == VT_I8 as u16 || vt == VT_UI8 as u16
        || vt == VT_INT as u16 || vt == VT_UINT as u16 || vt == VT_UNKNOWN as u16 || vt
        == VT_DISPATCH as u16 || vt == VT_BYREF as u16
}

/// True of the discriminants whose payload is a pointer to a scalar cell.
pub open spec fn is_cell_scalar_vt(vt: u16) -> bool {
    vt == VT_PUI1 as u16 || vt == VT_PI2 as u16 || vt == VT_PI4 as u16 || vt == VT_PI8 as u16 || vt
        == VT_PUI8 as u16 || vt == VT_PR4 as u16 || vt == VT_PR8 as u16 || vt == VT_PBOOL as u16
        || vt == VT_PERROR as u16 || vt == VT_PCY as u16 || vt == VT_PDATE as u16 || vt
        == VT_PI1 as u16 || vt == VT_PUI2 as u16 || vt == VT_PUI4 as u16 || vt == VT_PINT as u16
        || vt == VT_PUINT as u16
}

/// Well-formedness of a decimal payload: the scale and sign are ones the
/// decimal library can produce.
pub open spec fn dec_parts_wf(p: DecParts) -> bool {
    p.scale <= 28 && (p.sign == 0u8 || p.sign == 128u8)
}

/// Well-formedness of one cell under a by-reference discriminant.
pub open spec fn cell_wf(vt: u16, c: CellVal) -> bool {
    match c {
        CellVal::Scalar(_) => is_cell_scalar_vt(vt),
        CellVal::Dec(p) => vt == VT_PDECIMAL as u16 && dec_parts_wf(p),
    }
}

/// Well-formedness of a value record: the discriminant matches the payload's
/// actual interpretation, recursively. The decimal payload lives in the wide
/// slot that overlays the discriminant, so its discriminant reads zero.
pub open spec fn rec_wf(r: VarRec) -> bool
    decreases r,
{
    match r.slot {
        Slot::Bits(_) => is_bits_vt(r.vt),
        Slot::Str(_) => r.vt == VT_BSTR as u16,
        Slot::Cell(c) => (is_cell_scalar_vt(r.vt) || r.vt == VT_PDECIMAL as u16) && match c {
            Some(cv) => cell_wf(r.vt, *cv),
            None => true,
        },
        Slot::Var(c) => r.vt == VT_VARIANT as u16 && match c {
            Some(ch) => rec_wf(*ch),
            None => true,
        },
        Slot::Arr(a) => r.vt == VT_ARRAY as u16 && match a {
            Some(ar) => arr_wf(*ar),
            None => true,
        },
        Slot::Dec(p) => r.vt == 0u16 && dec_parts_wf(p),
    }
}

/// Well-formedness of an array record: every element slot has the shape the
/// element discriminant calls for. The dimension count and the bounds are
/// data and are not constrained.
pub open spec fn arr_wf(a: ArrRec) -> bool
    decreases a,
{
    forall|i: int| 0 <= i < a.elems().len() ==> elem_slot_wf(a.elem_vt, #[trigger] a.elems()[i])
}

/// Well-formedness of one element slot under an element discriminant.
/// String elements are carried through the nested value-record indirection:
/// the slot holds a child record tagged as a wide string.
pub open spec fn elem_slot_wf(vt: u16, s: Slot) -> bool
    decreases s,
{
    match s {
        Slot::Bits(_) => is_bits_vt(vt) && vt != VT_EMPTY as u16 && vt != VT_NULL as u16,
        Slot::Str(_) => false,
        Slot::Cell(_) => false,
        Slot::Var(c) => (vt == VT_VARIANT as u16 || vt == VT_BSTR as u16) && match c {
            Some(ch) => rec_wf(*ch) && (vt == VT_BSTR as u16 ==> ch.vt == VT_BSTR as u16),
            None => true,
        },
        Slot::Arr(_) => false,
        Slot::Dec(p) => vt == VT_DECIMAL as u16 && dec_parts_wf(p),
    }
}

/// The zeroed slot an element of the given kind starts out as when the host
/// creates an array record.
pub open spec fn zero_slot(elem_vt: u16) -> Slot {
    if elem_vt == VT_BSTR as u16 || elem_vt == VT_VARIANT as u16 {
        Slot::Var(None)
    } else if elem_vt == VT_DECIMAL as u16 {
        Slot::Dec(DecParts { scale: 0u8, sign: 0u8, hi32: 0u32, lo64: 0u64 })
    } else {
        Slot::Bits(0u64)
    }
}

/// Builds the zeroed slot of the given element kind.
pub fn mk_zero_slot(elem_vt: u16) -> (r: Slot)
    ensures
        r == zero_slot(elem_vt),
{
    if elem_vt == (VT_BSTR as u16) || elem_vt == (VT_VARIANT as u16) {
        Slot::Var(None)
    } else if elem_vt == (VT_DECIMAL as u16) {
        Slot::Dec(DecParts { scale: 0, sign: 0, hi32: 0, lo64: 0 })
    } else {
        Slot::Bits(0)
    }
}

/// A resource footprint: how many live strings, value records and array
/// records a value owns, and so how many releases a transitive release of it
/// performs.
pub struct Fp {
    /// Owned wide-string buffers.
    pub strings: nat,
    /// Owned value records, the value itself included.
    pub variants: nat,
    /// Owned array records.
    pub arrays: nat,
}

/// The empty footprint.
pub open spec fn fp_zero() -> Fp {
    Fp { strings: 0, variants: 0, arrays: 0 }
}

/// Component-wise sum of two footprints.
pub open spec fn fp_add(a: Fp, b: Fp) -> Fp {
    Fp {
        strings: a.strings + b.strings,
        variants: a.variants + b.variants,
        arrays: a.arrays + b.arrays,
    }
}

/// The footprint of one payload slot.
pub open spec fn slot_fp(s: Slot) -> Fp
    decreases s,
{
    match s {
        Slot::Bits(_) => fp_zero(),
        Slot::Str(o) => match o {
            Some(_) => Fp { strings: 1, variants: 0, arrays: 0 },
            None => fp_zero(),
        },
        Slot::Cell(_) => fp_zero(),
        Slot::Var(c) => match c {
            Some(ch) => rec_fp(*ch),
            None => fp_zero(),
        },
        Slot::Arr(a) => match a {
            Some(ar) => arr_fp(*ar),
            None => fp_zero(),
        },
        Slot::Dec(_) => fp_zero(),
    }
}

/// The footprint of a value record: itself plus its payload.
pub open spec fn rec_fp(r: VarRec) -> Fp
    decreases r,
{
    fp_add(Fp { strings: 0, variants: 1, arrays: 0 }, slot_fp(r.slot))
}

/// The footprint of an array record: itself plus its elements.
pub open spec fn arr_fp(a: ArrRec) -> Fp
    decreases a,
{
    fp_add(Fp { strings: 0, variants: 0, arrays: 1 }, slots_fp(a.elems()))
}

/// The footprint of a sequence of element slots.
pub open spec fn slots_fp(s: Seq<Slot>) -> Fp
    decreases s,
{
    if s.len() == 0 {
        fp_zero()
    } else {
        fp_add(slots_fp(s.drop_last()), slot_fp(s.last()))
    }
}

} // verus!
