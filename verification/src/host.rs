//! The platform services the codec is injected with: the wide-string
//! allocator, the array-record allocator, and the recursive release of
//! records; instrumented with allocation and release counts.
//!
//! The services keep an exact ghost count of every allocation and release,
//! mirrored in runtime counters that tests can read (the mirrors saturate at
//! the machine word; the ghost counts never do). An optional budget injects
//! allocator exhaustion: when it runs out, the string allocator and the
//! array allocator fail the way the native ones do, so that the codec's
//! failure paths can be exercised and its release discipline observed.

use vstd::prelude::*;
use crate::errors::BStringError;
use crate::record::{ArrRec, BStr, Fp, Slot, VarRec, arr_fp, fp_add, fp_zero, mk_zero_slot,
    rec_fp, slot_fp, slots_fp, zero_slot};

verus! {

/// The ghost ledger of what the host has handed out and taken back.
pub struct HostCounts {
    /// Wide-string buffers allocated.
    pub string_allocs: nat,
    /// Wide-string buffers released.
    pub string_frees: nat,
    /// Value records allocated.
    pub variant_allocs: nat,
    /// Value records released.
    pub variant_frees: nat,
    /// Array records allocated.
    pub array_allocs: nat,
    /// Array records released.
    pub array_frees: nat,
}

impl HostCounts {
    /// The ledger before anything was allocated.
    pub open spec fn zero() -> HostCounts {
        HostCounts {
            string_allocs: 0,
            string_frees: 0,
            variant_allocs: 0,
            variant_frees: 0,
            array_allocs: 0,
            array_frees: 0,
        }
    }

    /// The ledger after one more wide-string allocation.
    pub open spec fn string_alloced(self) -> HostCounts {
        HostCounts { string_allocs: self.string_allocs + 1, ..self }
    }

    /// The ledger after one more wide-string release.
    pub open spec fn string_freed(self) -> HostCounts {
        HostCounts { string_frees: self.string_frees + 1, ..self }
    }

    /// The ledger after one more value-record allocation.
    pub open spec fn variant_alloced(self) -> HostCounts {
        HostCounts { variant_allocs: self.variant_allocs + 1, ..self }
    }

    /// The ledger after one more value-record release.
    pub open spec fn variant_freed(self) -> HostCounts {
        HostCounts { variant_frees: self.variant_frees + 1, ..self }
    }

    /// The ledger after one more array-record allocation.
    pub open spec fn array_alloced(self) -> HostCounts {
        HostCounts { array_allocs: self.array_allocs + 1, ..self }
    }

    /// The ledger after one more array-record release.
    pub open spec fn array_freed(self) -> HostCounts {
        HostCounts { array_frees: self.array_frees + 1, ..self }
    }

    /// The ledger after releasing a whole footprint.
    pub open spec fn plus_frees(self, f: Fp) -> HostCounts {
        HostCounts {
            string_frees: self.string_frees + f.strings,
            variant_frees: self.variant_frees + f.variants,
            array_frees: self.array_frees + f.arrays,
            ..self
        }
    }

    /// How many of each record kind are still live under this ledger.
    pub open spec fn live(self) -> (int, int, int) {
        (
            self.string_allocs - self.string_frees,
            self.variant_allocs - self.variant_frees,
            self.array_allocs - self.array_frees,
        )
    }
}

/// A ghost count clamped to what a runtime counter can show.
pub open spec fn clamp_count(n: nat) -> int {
    if n <= usize::MAX as nat {
        n as int
    } else {
        usize::MAX as int
    }
}

/// Bumps a runtime counter, saturating at the machine word.
fn sat_inc(c: usize) -> (r: usize)
    ensures
        c < usize::MAX ==> r == c + 1,
        c == usize::MAX ==> r == c,
{
    if c < usize::MAX {
        c + 1
    } else {
        c
    }
}

/// The injected platform services: string allocator, array allocator,
/// recursive release, and the instrumentation around them.
pub struct Host {
    string_allocs: usize,
    string_frees: usize,
    variant_allocs: usize,
    variant_frees: usize,
    array_allocs: usize,
    array_frees: usize,
    budget: Option<usize>,
    counts: Ghost<HostCounts>,
}

impl Host {
    #[verifier::type_invariant]
    spec fn inv(self) -> bool {
        self.string_allocs as int == clamp_count(self.counts@.string_allocs)
            && self.string_frees as int == clamp_count(self.counts@.string_frees)
            && self.variant_allocs as int == clamp_count(self.counts@.variant_allocs)
            && self.variant_frees as int == clamp_count(self.counts@.variant_frees)
            && self.array_allocs as int == clamp_count(self.counts@.array_allocs)
            && self.array_frees as int == clamp_count(self.counts@.array_frees)
    }

    /// The exact ledger of allocations and releases so far.
    pub closed spec fn counts(self) -> HostCounts {
        self.counts@
    }

    /// The remaining allocation budget; `None` is unlimited.
    pub closed spec fn budget(self) -> Option<usize> {
        self.budget
    }

    /// A host whose allocators never fail.
    pub fn new() -> (r: Host)
        ensures
            r.counts() == HostCounts::zero(),
            r.budget() is None,
    {
        Host {
            string_allocs: 0,
            string_frees: 0,
            variant_allocs: 0,
            variant_frees: 0,
            array_allocs: 0,
            array_frees: 0,
            budget: None,
            counts: Ghost(HostCounts::zero()),
        }
    }

    /// A host whose allocators grant exactly `n` further allocations and then
    /// fail, the way an exhausted native allocator does.
    pub fn with_budget(n: usize) -> (r: Host)
        ensures
            r.counts() == HostCounts::zero(),
            r.budget() == Some(n),
    {
        Host {
            string_allocs: 0,
            string_frees: 0,
            variant_allocs: 0,
            variant_frees: 0,
            array_allocs: 0,
            array_frees: 0,
            budget: Some(n),
            counts: Ghost(HostCounts::zero()),
        }
    }

    /// Runtime reading of the wide-string allocation count.
    pub fn string_allocs(&self) -> (r: usize)
        ensures
            r as int == clamp_count(self.counts().string_allocs),
    {
        proof {
            use_type_invariant(&*self);
        }
        self.string_allocs
    }

    /// Runtime reading of the wide-string release count.
    pub fn string_frees(&self) -> (r: usize)
        ensures
            r as int == clamp_count(self.counts().string_frees),
    {
        proof {
            use_type_invariant(&*self);
        }
        self.string_frees
    }

    /// Runtime reading of the value-record allocation count.
    pub fn variant_allocs(&self) -> (r: usize)
        ensures
            r as int == clamp_count(self.counts().variant_allocs),
    {
        proof {
            use_type_invariant(&*self);
        }
        self.variant_allocs
    }

    /// Runtime reading of the value-record release count.
    pub fn variant_frees(&self) -> (r: usize)
        ensures
            r as int == clamp_count(self.counts().variant_frees),
    {
        proof {
            use_type_invariant(&*self);
        }
        self.variant_frees
    }

    /// Runtime reading of the array-record allocation count.
    pub fn array_allocs(&self) -> (r: usize)
        ensures
            r as int == clamp_count(self.counts().array_allocs),
    {
        proof {
            use_type_invariant(&*self);
        }
        self.array_allocs
    }

    /// Runtime reading of the array-record release count.
    pub fn array_frees(&self) -> (r: usize)
        ensures
            r as int == clamp_count(self.counts().array_frees),
    {
        proof {
            use_type_invariant(&*self);
        }
        self.array_frees
    }

    /// Whether the budget grants one more allocation, consuming it if so.
    fn budget_take(&mut self) -> (r: bool)
        ensures
            final(self).counts() == old(self).counts(),
            match old(self).budget() {
                None => r && final(self).budget() is None,
                Some(k) => if k == 0 {
                    !r && final(self).budget() == Some(0usize)
                } else {
                    r && final(self).budget() == Some((k - 1) as usize)
                },
            },
    {
        proof {
            use_type_invariant(&*self);
        }
        match self.budget {
            None => true,
            Some(k) => {
                if k == 0 {
                    false
                } else {
                    self.budget = Some(k - 1);
                    true
                }
            },
        }
    }

    /// Allocates a wide-string buffer holding exactly the given code units,
    /// embedded zeros included. Fails, carrying the requested length, exactly
    /// when the budget is exhausted.
    pub fn alloc_bstr(&mut self, units: Vec<u16>) -> (r: Result<BStr, BStringError>)
        ensures
            match r {
                Ok(b) => b.units() == units@ && final(self).counts() == old(self).counts().string_alloced() && old(self).budget() != Some(0usize) && final(self).budget() == (match old(self).budget() {
                    None => None,
                    Some(k) => Some((k - 1) as usize),
                }),
                Err(e) => e matches BStringError::AllocateFailed { len } && len == units@.len()
                    && old(self).budget() == Some(0usize) && final(self).counts() == old(self).counts() && final(self).budget() == Some(0usize),
            },
    {
        proof {
            use_type_invariant(&*self);
        }
        if self.budget_take() {
            proof {
                use_type_invariant(&*self);
            }
            *self = Host {
                string_allocs: sat_inc(self.string_allocs),
                string_frees: self.string_frees,
                variant_allocs: self.variant_allocs,
                variant_frees: self.variant_frees,
                array_allocs: self.array_allocs,
                array_frees: self.array_frees,
                budget: self.budget,
                counts: Ghost(self.counts@.string_alloced()),
            };
            Ok(BStr::raw_new(units))
        } else {
            Err(BStringError::AllocateFailed { len: units.len() })
        }
    }

    /// Releases a wide-string buffer. This is the one release path for
    /// buffers the string allocator handed out.
    pub fn free_bstr(&mut self, b: BStr)
        ensures
            final(self).counts() == old(self).counts().string_freed(),
            final(self).budget() == old(self).budget(),
    {
        proof {
            use_type_invariant(&*self);
        }
        *self = Host {
            string_allocs: self.string_allocs,
            string_frees: sat_inc(self.string_frees),
            variant_allocs: self.variant_allocs,
            variant_frees: self.variant_frees,
            array_allocs: self.array_allocs,
            array_frees: self.array_frees,
            budget: self.budget,
            counts: Ghost(self.counts@.string_freed()),
        };
        let _released = b;
    }

    /// Queries a buffer's length from the host; never scans for a terminator.
    pub fn bstr_len(&self, b: &BStr) -> (r: usize)
        ensures
            r == b.units().len(),
    {
        b.raw_len()
    }

    /// Copies out exactly as many code units as the buffer's queried length.
    pub fn bstr_read(&self, b: &BStr) -> (r: Vec<u16>)
        ensures
            r@ == b.units(),
    {
        b.raw_read()
    }

    pub(crate) fn tick_variant_alloc(&mut self)
        ensures
            final(self).counts() == old(self).counts().variant_alloced(),
            final(self).budget() == old(self).budget(),
    {
        proof {
            use_type_invariant(&*self);
        }
        *self = Host {
            string_allocs: self.string_allocs,
            string_frees: self.string_frees,
            variant_allocs: sat_inc(self.variant_allocs),
            variant_frees: self.variant_frees,
            array_allocs: self.array_allocs,
            array_frees: self.array_frees,
            budget: self.budget,
            counts: Ghost(self.counts@.variant_alloced()),
        };
    }

    pub(crate) fn tick_variant_free(&mut self)
        ensures
            final(self).counts() == old(self).counts().variant_freed(),
            final(self).budget() == old(self).budget(),
    {
        proof {
            use_type_invariant(&*self);
        }
        *self = Host {
            string_allocs: self.string_allocs,
            string_frees: self.string_frees,
            variant_allocs: self.variant_allocs,
            variant_frees: sat_inc(self.variant_frees),
            array_allocs: self.array_allocs,
            array_frees: self.array_frees,
            budget: self.budget,
            counts: Ghost(self.counts@.variant_freed()),
        };
    }

    pub(crate) fn tick_array_free(&mut self)
        ensures
            final(self).counts() == old(self).counts().array_freed(),
            final(self).budget() == old(self).budget(),
    {
        proof {
            use_type_invariant(&*self);
        }
        *self = Host {
            string_allocs: self.string_allocs,
            string_frees: self.string_frees,
            variant_allocs: self.variant_allocs,
            variant_frees: self.variant_frees,
            array_allocs: self.array_allocs,
            array_frees: sat_inc(self.array_frees),
            budget: self.budget,
            counts: Ghost(self.counts@.array_freed()),
        };
    }

    /// Allocates an array record with the given element discriminant,
    /// dimension count, lower bound and element count, its storage zeroed.
    /// Returns nothing, as the native allocator returns null, exactly when
    /// the budget is exhausted.
    pub fn array_create(&mut self, elem_vt: u16, dims: u32, lbound: i32, len: u32) -> (r: Option<
        ArrRec,
    >)
        requires
            lbound as int + len as int - 1 <= i32::MAX as int,
            i32::MIN as int <= lbound as int - 1,
        ensures
            match r {
                Some(a) => a.dims == dims && a.elem_vt == elem_vt && a.lbound == lbound && a.ubound
                    as int == lbound as int + len as int - 1 && a.elems() == Seq::new(
                    len as nat,
                    |i: int| zero_slot(elem_vt),
                ) && final(self).counts() == old(self).counts().array_alloced() && old(self).budget() != Some(0usize) && final(self).budget() == (match old(self).budget() {
                    None => None,
                    Some(k) => Some((k - 1) as usize),
                }),
                None => old(self).budget() == Some(0usize) && final(self).counts() == old(self).counts() && final(self).budget() == Some(0usize),
            },
    {
        proof {
            use_type_invariant(&*self);
        }
        if !self.budget_take() {
            return None;
        }
        proof {
            use_type_invariant(&*self);
        }
        *self = Host {
            string_allocs: self.string_allocs,
            string_frees: self.string_frees,
            variant_allocs: self.variant_allocs,
            variant_frees: self.variant_frees,
            array_allocs: sat_inc(self.array_allocs),
            array_frees: self.array_frees,
            budget: self.budget,
            counts: Ghost(self.counts@.array_alloced()),
        };
        let mut elems: Vec<Slot> = Vec::new();
        let mut i: u32 = 0;
        while i < len
            invariant
                i <= len,
                elems@.len() == i as nat,
                forall|j: int| 0 <= j < i as int ==> elems@[j] == zero_slot(elem_vt),
            decreases len - i,
        {
            elems.push(mk_zero_slot(elem_vt));
            i = i + 1;
        }
        let ubound: i32 = if len == 0 {
            lbound - 1
        } else {
            let ub_wide: i64 = lbound as i64 + len as i64 - 1;
            ub_wide as i32
        };
        let arr = ArrRec { dims, elem_vt, lbound, ubound, elems };
        proof {
            assert(arr.elems() =~= Seq::new(len as nat, |i: int| zero_slot(elem_vt)));
        }
        Some(arr)
    }

    /// Recursively releases one payload slot: the string buffer, cell, child
    /// record or array record it owns, if any.
    pub(crate) fn clear_slot(&mut self, s: Slot)
        ensures
            final(self).counts() == old(self).counts().plus_frees(slot_fp(s)),
            final(self).budget() == old(self).budget(),
        decreases s,
    {
        match s {
            Slot::Bits(_) => (),
            Slot::Dec(_) => (),
            Slot::Cell(_) => (),
            Slot::Str(o) => match o {
                Some(b) => self.free_bstr(b),
                None => (),
            },
            Slot::Var(c) => match c {
                Some(ch) => self.clear_rec(*ch),
                None => (),
            },
            Slot::Arr(a) => match a {
                Some(ar) => self.destroy_arr(*ar),
                None => (),
            },
        }
    }

    /// Recursively releases a value record: its payload, transitively, and
    /// then the record itself, each exactly once.
    pub(crate) fn clear_rec(&mut self, rec: VarRec)
        ensures
            final(self).counts() == old(self).counts().plus_frees(rec_fp(rec)),
            final(self).budget() == old(self).budget(),
        decreases rec,
    {
        self.tick_variant_free();
        let VarRec { vt: _, slot } = rec;
        self.clear_slot(slot);
    }

    /// Releases an array record: every element slot, transitively, and the
    /// record itself, each exactly once.
    #[verifier::loop_isolation(false)]
    pub(crate) fn destroy_arr(&mut self, arr: ArrRec)
        ensures
            final(self).counts() == old(self).counts().plus_frees(arr_fp(arr)),
            final(self).budget() == old(self).budget(),
        decreases arr,
    {
        let ghost arr0 = arr;
        self.tick_array_free();
        let ghost c0 = self.counts();
        let ghost b0 = self.budget();
        let ArrRec { dims: _, elem_vt: _, lbound: _, ubound: _, elems: mut elems } = arr;
        while elems.len() > 0
            invariant
                elems@.len() <= arr0.elems().len(),
                elems@ == arr0.elems().subrange(0, elems@.len() as int),
                self.counts().plus_frees(slots_fp(elems@)) == c0.plus_frees(
                    slots_fp(arr0.elems()),
                ),
                self.budget() == b0,
            decreases elems@.len(),
        {
            let ghost pre = elems@;
            let s = elems.pop().unwrap();
            proof {
                assert(pre.len() >= 1 && pre.len() <= arr0.elems().len());
                assert(s == pre[pre.len() - 1]);
                assert(s == arr0.elems()[pre.len() - 1]);
                assert(elems@ =~= arr0.elems().subrange(0, elems@.len() as int));
                assert(pre.drop_last() =~= elems@);
                assert(slots_fp(pre) == fp_add(slots_fp(elems@), slot_fp(s)));
                assert(decreases_to!(arr0 => s));
            }
            self.clear_slot(s);
        }
        proof {
            assert(slots_fp(elems@) == fp_zero());
        }
    }
}

} // verus!
