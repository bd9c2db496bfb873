//! The wide-string codec: allocating, reading and releasing length-prefixed
//! UTF-16 buffers through the host string allocator, and the conversions
//! between `widestring::U16String` and those buffers.
//!
//! A buffer's length is what the allocator was asked for; it is queried back
//! from the host, never found by scanning, so embedded zero code units pass
//! through unharmed. Whatever the string allocator handed out must go back to
//! the same allocator, and to nothing else: [`Host::free_bstr`] is that one
//! release path, and the owning wrappers here lead to it.

use vstd::prelude::*;
use crate::errors::BStringError;
use crate::host::Host;
use crate::ptr::{DefaultDestructor, Ptr};
use crate::record::BStr;

verus! {

#[verifier::external_type_specification]
#[verifier::external_body]
pub struct ExU16String(widestring::U16String);

/// The code units a `widestring::U16String` holds.
pub uninterp spec fn wide_units(s: widestring::U16String) -> Seq<u16>;

/// The UTF-16 encoding of a string of characters, as
/// `widestring::U16String::from_str` computes it; it depends on the
/// characters alone.
pub uninterp spec fn utf16_of(s: Seq<char>) -> Seq<u16>;

/// The characters that lossy decoding of UTF-16 code units yields, as
/// `widestring::U16String::to_string_lossy` computes them; they depend on the
/// code units alone.
pub uninterp spec fn lossy_of(units: Seq<u16>) -> Seq<char>;

/// Relies on widestring's `U16String::from_vec`, which takes the vector's
/// code units as they are, checking and changing nothing.
#[verifier::external_body]
pub(crate) fn u16string_from_vec(v: Vec<u16>) -> (r: widestring::U16String)
    ensures
        wide_units(r) == v@,
{
    widestring::U16String::from_vec(v)
}

/// Relies on widestring's `U16String::as_slice`, which exposes exactly the
/// string's code units.
#[verifier::external_body]
pub(crate) fn u16string_units(s: &widestring::U16String) -> (r: Vec<u16>)
    ensures
        r@ == wide_units(*s),
{
    s.as_slice().to_vec()
}

/// Relies on widestring's `U16String::from_str`, which encodes the string's
/// characters as UTF-16.
#[verifier::external_body]
pub(crate) fn u16string_from_str(s: &str) -> (r: widestring::U16String)
    ensures
        wide_units(r) == utf16_of(s@),
{
    widestring::U16String::from_str(s)
}

/// Relies on widestring's `U16String::to_string_lossy`, which decodes the
/// code units as UTF-16, replacing what is invalid.
#[verifier::external_body]
pub(crate) fn u16string_to_lossy(s: &widestring::U16String) -> (r: String)
    ensures
        r@ == lossy_of(wide_units(*s)),
{
    s.to_string_lossy()
}

/// Allocates a host-owned buffer holding exactly the string's code units,
/// embedded zeros included. The handle's default policy performs no release:
/// the caller, or whoever the buffer is handed to, owns it. Fails, carrying
/// the requested length, exactly when the allocator's budget is exhausted.
pub fn allocate_bstr(host: &mut Host, s: &widestring::U16String) -> (r: Result<
    Ptr<BStr, DefaultDestructor>,
    BStringError,
>)
    ensures
        final(host).budget() == (match old(host).budget() {
            None => None,
            Some(k) => if k == 0 {
                Some(0usize)
            } else {
                Some((k - 1) as usize)
            },
        }),
        match r {
            Ok(p) => p@.units() == wide_units(*s) && old(host).budget() != Some(0usize) && final(host).counts() == old(host).counts().string_alloced(),
            Err(e) => e matches BStringError::AllocateFailed { len } && len == wide_units(*s).len()
                && old(host).budget() == Some(0usize) && final(host).counts() == old(host).counts(),
        },
{
    let units = u16string_units(s);
    match host.alloc_bstr(units) {
        Ok(b) => Ok(Ptr::new(b)),
        Err(e) => Err(e),
    }
}

/// Allocates a buffer as [`allocate_bstr`] does, wrapped so that release on
/// every path is a single explicit step unless the buffer is consumed.
pub fn allocate_managed_bstr(host: &mut Host, s: &widestring::U16String) -> (r: Result<
    DroppableBString,
    BStringError,
>)
    ensures
        final(host).budget() == (match old(host).budget() {
            None => None,
            Some(k) => if k == 0 {
                Some(0usize)
            } else {
                Some((k - 1) as usize)
            },
        }),
        match r {
            Ok(d) => d.get() matches Some(b) && b.units() == wide_units(*s) && old(host).budget()
                != Some(0usize) && final(host).counts() == old(host).counts().string_alloced(),
            Err(e) => e matches BStringError::AllocateFailed { len } && len == wide_units(*s).len()
                && old(host).budget() == Some(0usize) && final(host).counts() == old(host).counts(),
        },
{
    let p = allocate_bstr(host, s)?;
    Ok(DroppableBString { inner: Some(p.into_inner()) })
}

/// Releases a buffer through the host string allocator, the same allocator
/// that handed it out.
pub fn deallocate_bstr(host: &mut Host, bstr: Ptr<BStr, DefaultDestructor>)
    ensures
        final(host).counts() == old(host).counts().string_freed(),
        final(host).budget() == old(host).budget(),
{
    host.free_bstr(bstr.into_inner());
}

/// Reads a buffer out into a `U16String`: queries the length from the host
/// and copies exactly that many code units.
pub fn from_bstr(host: &Host, b: &BStr) -> (r: widestring::U16String)
    ensures
        wide_units(r) == b.units(),
{
    let units = host.bstr_read(b);
    u16string_from_vec(units)
}

/// Reads a buffer held by a handle, without releasing it.
pub fn from_pbstr(host: &Host, b: &Ptr<BStr, DefaultDestructor>) -> (r: widestring::U16String)
    ensures
        wide_units(r) == b@.units(),
{
    from_bstr(host, b.as_ptr())
}

/// A wide-string buffer that is released by one explicit step unless it has
/// been consumed; consumption hands the raw buffer to the caller, who then
/// owns it, typically to pass it across the automation boundary.
pub struct DroppableBString {
    inner: Option<BStr>,
}

impl DroppableBString {
    /// The buffer currently held, if it was not consumed yet.
    pub closed spec fn get(self) -> Option<BStr> {
        self.inner
    }

    /// Hands out the held buffer and marks this wrapper consumed: managing
    /// the memory is the caller's responsibility from here on. Returns
    /// nothing if the buffer was already consumed, as a null pointer would.
    pub fn consume(&mut self) -> (r: Option<BStr>)
        ensures
            r == old(self).get(),
            final(self).get() is None,
    {
        let ret = self.inner.take();
        ret
    }

    /// Releases the held buffer through the host allocator, unless the
    /// wrapper was consumed, in which case there is nothing to release.
    pub fn release(self, host: &mut Host)
        ensures
            final(host).budget() == old(host).budget(),
            final(host).counts() == (match self.get() {
                Some(_) => old(host).counts().string_freed(),
                None => old(host).counts(),
            }),
    {
        match self.inner {
            Some(b) => host.free_bstr(b),
            None => (),
        }
    }
}

} // verus!
