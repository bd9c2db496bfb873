//! The owning handle: a wrapper holding exactly one live value, parameterized
//! by a release policy selected at the type level.
//!
//! A handle is created over a value that stands for a non-null native
//! pointer; a null pointer has no handle ([`Ptr::with_checked`] refuses it).
//! Reinterpreting a handle ([`Ptr::cast`]) consumes it and never runs the old
//! policy, so no value is ever released twice. The default policy performs no
//! release at all: dropping such a handle models handing the memory to the
//! far side of the automation boundary. The releasing policies are carried
//! out by explicit operations that take the platform services, since a
//! release is itself a host call: see `variant_clear` and `array_destroy`.

use vstd::prelude::*;
use core::marker::PhantomData;

verus! {

/// A release policy for a handle over `T`. The policy is a type-level marker;
/// which operation releases a handle of that policy is documented beside the
/// policy type.
pub trait PtrDestructor<T> {

}

/// The default policy: no release. A handle of this policy deliberately
/// leaks its value, modelling ownership handed to an external caller.
#[derive(Clone, Copy, Debug)]
pub struct DefaultDestructor;

impl<T> PtrDestructor<T> for DefaultDestructor {

}

/// A policy that releases the value the ordinary Rust way, with no host
/// involvement: see [`Ptr::release`].
#[derive(Clone, Copy, Debug)]
pub struct DropDestructor;

impl<T> PtrDestructor<T> for DropDestructor {

}

/// An owning handle over a value of type `T` with release policy `D`.
/// It always holds exactly one live value: the model of a guaranteed
/// non-null owning pointer.
pub struct Ptr<T, D = DefaultDestructor> where D: PtrDestructor<T> {
    inner: T,
    _marker: PhantomData<D>,
}

impl<T, D: PtrDestructor<T>> View for Ptr<T, D> {
    type V = T;

    closed spec fn view(&self) -> T {
        self.inner
    }
}

impl<T, D: PtrDestructor<T>> Ptr<T, D> {
    /// Wraps a value known to be live.
    pub fn new(p: T) -> (r: Ptr<T, D>)
        ensures
            r@ == p,
    {
        Ptr { inner: p, _marker: PhantomData }
    }

    /// Checks a possibly-null pointer and wraps it: a present value gives a
    /// handle, null gives nothing.
    pub fn with_checked(p: Option<T>) -> (r: Option<Ptr<T, D>>)
        ensures
            match p {
                Some(v) => r matches Some(q) && q@ == v,
                None => r is None,
            },
    {
        match p {
            Some(v) => Some(Ptr::new(v)),
            None => None,
        }
    }

    /// Borrows the held value, as dereferencing the inner pointer would.
    pub fn as_ptr(&self) -> (r: &T)
        ensures
            *r == self@,
    {
        &self.inner
    }

    /// Re-types the handle under another release policy, consuming this one.
    /// Whatever the old policy was, it is not run: the value moves unreleased
    /// into the new handle.
    pub fn cast<Q: PtrDestructor<T>>(self) -> (r: Ptr<T, Q>)
        ensures
            r@ == self@,
    {
        Ptr { inner: self.inner, _marker: PhantomData }
    }

    /// Consumes the handle and hands the value out without running any
    /// release policy; the caller takes over the memory's fate.
    pub fn into_inner(self) -> (r: T)
        ensures
            r == self@,
    {
        self.inner
    }
}

impl<T> Ptr<T, DropDestructor> {
    /// Releases the value the ordinary Rust way.
    pub fn release(self) {
        let _released = self.inner;
    }
}

} // verus!
