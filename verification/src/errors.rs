//! The layered error taxonomy of the codec.
//!
//! Every fallible native-style operation reports a typed error at the point of
//! the call; higher layers wrap lower layers' errors with added context (the
//! failing index, the expected kind) instead of discarding them. Raw status
//! codes, where one exists, are preserved inside the error value.

use vstd::prelude::*;

verus! {

/// Error raised while converting a single array element, in either direction.
#[derive(Debug)]
pub enum ElementError {
    /// Holds a [`FromSafeArrElemError`] in a box.
    From(Box<FromSafeArrElemError>),
    /// Holds an [`IntoSafeArrElemError`] in a box.
    Into(Box<IntoSafeArrElemError>),
}

/// The ways reading one element out of an array record can fail.
#[derive(Debug)]
pub enum FromSafeArrElemError {
    /// The element read was rejected by the host; the status code tells why.
    GetElementFailed {
        /// Status code returned by the element read.
        hr: i32,
    },
    /// Holds a [`BStringError`] in a box.
    BStringFailed(Box<BStringError>),
    /// Decoding the element's value record failed.
    FromVarError(Box<FromVariantError>),
}

/// The ways writing one element into an array record can fail.
#[derive(Debug)]
pub enum IntoSafeArrElemError {
    /// Allocating the wide string for the element failed.
    BStringFailed(Box<BStringError>),
    /// The element write was rejected by the host; the status code tells why.
    PutElementFailed {
        /// Status code returned by the element write.
        hr: i32,
    },
    /// Encoding the element's value record failed.
    IntoVariantError(Box<IntoVariantError>),
}

/// Error raised by the array codec, in either direction.
#[derive(Debug)]
pub enum SafeArrayError {
    /// Wrapper for a [`FromSafeArrayError`].
    From(Box<FromSafeArrayError>),
    /// Wrapper for an [`IntoSafeArrayError`].
    Into(Box<IntoSafeArrayError>),
}

/// The ways decoding an array record can fail.
#[derive(Debug)]
pub enum FromSafeArrayError {
    /// The record's dimension count is not exactly one.
    SafeArrayDimsInvalid {
        /// The dimension count that was found.
        sa_dims: u32,
    },
    /// The record's element discriminant does not equal the requested one.
    VarTypeDoesNotMatch {
        /// The requested element discriminant.
        expected: u32,
        /// The element discriminant that was found.
        found: u32,
    },
    /// Reading the lower bound failed with a status code.
    SafeArrayLBoundFailed {
        /// Status code returned.
        hr: i32,
    },
    /// Reading the upper bound failed with a status code.
    SafeArrayRBoundFailed {
        /// Status code returned.
        hr: i32,
    },
    /// Reading the element discriminant failed with a status code.
    SafeArrayGetVartypeFailed {
        /// Status code returned.
        hr: i32,
    },
    /// Converting one element failed; carries the failing index.
    ElementConversionFailed {
        /// The index at which conversion failed.
        index: usize,
        /// The element error that caused the failure.
        element: Box<ElementError>,
    },
    /// Decoding a value record wrapping the array failed.
    FromVariantError(Box<FromVariantError>),
}

/// The ways encoding an array record can fail.
#[derive(Debug)]
pub enum IntoSafeArrayError {
    /// Converting one element failed; carries the failing index.
    ElementConversionFailed {
        /// The index at which conversion failed.
        index: usize,
        /// The element error that caused the failure.
        element: Box<ElementError>,
    },
    /// Encoding a value record wrapping the array failed.
    IntoVariantError(Box<IntoVariantError>),
    /// The host refused to allocate the array record itself.
    SafeArrayCreateFailed,
}

/// The ways a wide-string allocation can fail.
#[derive(Clone, Copy, Debug)]
pub enum BStringError {
    /// The host string allocator refused the request.
    AllocateFailed {
        /// The length that was requested.
        len: usize,
    },
}

/// The ways decoding a value record can fail.
#[derive(Clone, Copy, Debug, PartialEq, Eq, Structural)]
pub enum FromVariantError {
    /// A pointer slot that had to be followed was null.
    VariantPtrNull,
    /// The dynamic decoding path does not support the discriminant found.
    UnknownVarType(u16),
    /// The record's discriminant does not equal the requested kind's tag.
    VarTypeDoesNotMatch {
        /// The tag of the requested kind.
        expected: u32,
        /// The discriminant that was found.
        found: u32,
    },
}

/// The ways encoding a value record can fail.
#[derive(Debug)]
pub enum IntoVariantError {
    /// Allocating a wide string for the payload failed.
    AllocBStrFailed(Box<BStringError>),
    /// Encoding an array payload failed.
    SafeArrConvFailed(Box<SafeArrayError>),
    /// The value cannot be encoded through this path.
    CVarWrapper,
}

/// Errors of the narrowest utility layer.
#[derive(Debug)]
pub enum ConversionError {
    /// The pointer being followed was null.
    PtrWasNull,
    /// A wrapped cause, carried as text.
    General(Box<String>),
}

impl FromSafeArrElemError {
    /// Boxes this error into an [`ElementError`].
    pub fn into_element_error(self) -> (r: ElementError)
        ensures
            r matches ElementError::From(b) && *b == self,
    {
        ElementError::From(Box::new(self))
    }
}

impl IntoSafeArrElemError {
    /// Boxes this error into an [`ElementError`].
    pub fn into_element_error(self) -> (r: ElementError)
        ensures
            r matches ElementError::Into(b) && *b == self,
    {
        ElementError::Into(Box::new(self))
    }
}

impl FromVariantError {
    /// Boxes this error into a [`FromSafeArrElemError`].
    pub fn into_from_elem_error(self) -> (r: FromSafeArrElemError)
        ensures
            r matches FromSafeArrElemError::FromVarError(b) && *b == self,
    {
        FromSafeArrElemError::FromVarError(Box::new(self))
    }

    /// Boxes this error into an [`ElementError`], through the element layer.
    pub fn into_element_error(self) -> (r: ElementError)
        ensures
            r matches ElementError::From(b)
                && (*b matches FromSafeArrElemError::FromVarError(v) && *v == self),
    {
        self.into_from_elem_error().into_element_error()
    }

    /// Boxes this error into a [`FromSafeArrayError`].
    pub fn into_from_array_error(self) -> (r: FromSafeArrayError)
        ensures
            r matches FromSafeArrayError::FromVariantError(b) && *b == self,
    {
        FromSafeArrayError::FromVariantError(Box::new(self))
    }

    /// Boxes this error into a [`SafeArrayError`], through the decode layer.
    pub fn into_safe_array_error(self) -> (r: SafeArrayError)
        ensures
            r matches SafeArrayError::From(b)
                && (*b matches FromSafeArrayError::FromVariantError(v) && *v == self),
    {
        self.into_from_array_error().into_safe_array_error()
    }
}

impl IntoVariantError {
    /// Boxes this error into an [`IntoSafeArrElemError`].
    pub fn into_into_elem_error(self) -> (r: IntoSafeArrElemError)
        ensures
            r matches IntoSafeArrElemError::IntoVariantError(b) && *b == self,
    {
        IntoSafeArrElemError::IntoVariantError(Box::new(self))
    }

    /// Boxes this error into an [`ElementError`], through the element layer.
    pub fn into_element_error(self) -> (r: ElementError)
        ensures
            r matches ElementError::Into(b)
                && (*b matches IntoSafeArrElemError::IntoVariantError(v) && *v == self),
    {
        self.into_into_elem_error().into_element_error()
    }

    /// Boxes this error into an [`IntoSafeArrayError`].
    pub fn into_into_array_error(self) -> (r: IntoSafeArrayError)
        ensures
            r matches IntoSafeArrayError::IntoVariantError(b) && *b == self,
    {
        IntoSafeArrayError::IntoVariantError(Box::new(self))
    }
}

impl BStringError {
    /// Boxes this error into an [`IntoSafeArrElemError`].
    pub fn into_into_elem_error(self) -> (r: IntoSafeArrElemError)
        ensures
            r matches IntoSafeArrElemError::BStringFailed(b) && *b == self,
    {
        IntoSafeArrElemError::BStringFailed(Box::new(self))
    }

    /// Boxes this error into an [`IntoVariantError`].
    pub fn into_variant_error(self) -> (r: IntoVariantError)
        ensures
            r matches IntoVariantError::AllocBStrFailed(b) && *b == self,
    {
        IntoVariantError::AllocBStrFailed(Box::new(self))
    }
}

impl FromSafeArrayError {
    /// Boxes this error into a [`SafeArrayError`].
    pub fn into_safe_array_error(self) -> (r: SafeArrayError)
        ensures
            r matches SafeArrayError::From(b) && *b == self,
    {
        SafeArrayError::From(Box::new(self))
    }

    /// Boxes an [`ElementError`] into a [`FromSafeArrayError`], tagging it
    /// with the index at which the element conversion failed.
    pub fn from_element_err(ee: ElementError, index: usize) -> (r: FromSafeArrayError)
        ensures
            r matches FromSafeArrayError::ElementConversionFailed {
                index: i,
                element: b,
            } && i == index && *b == ee,
    {
        FromSafeArrayError::ElementConversionFailed { index, element: Box::new(ee) }
    }
}

impl IntoSafeArrayError {
    /// Boxes this error into a [`SafeArrayError`].
    pub fn into_safe_array_error(self) -> (r: SafeArrayError)
        ensures
            r matches SafeArrayError::Into(b) && *b == self,
    {
        SafeArrayError::Into(Box::new(self))
    }

    /// Boxes an [`ElementError`] into an [`IntoSafeArrayError`], tagging it
    /// with the index at which the element conversion failed.
    pub fn from_element_err(ee: ElementError, index: usize) -> (r: IntoSafeArrayError)
        ensures
            r matches IntoSafeArrayError::ElementConversionFailed {
                index: i,
                element: b,
            } && i == index && *b == ee,
    {
        IntoSafeArrayError::ElementConversionFailed { index, element: Box::new(ee) }
    }
}

} // verus!
