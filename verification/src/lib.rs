//! A bidirectional codec between Rust values and the tagged value records,
//! bounded array records and length-prefixed wide-string buffers of a COM-style
//! automation ABI.
//!
//! Every value that crosses the automation boundary is carried by one of three
//! host-owned structures: a discriminant-tagged value record (the variant), a
//! one-dimensional bounded array of homogeneous elements, or a wide-string
//! buffer whose length is a property of the buffer rather than of a
//! terminator. This crate reconstructs those structures as explicit data,
//! routes every allocation and release through an injected platform-services
//! value ([`host::Host`]), and states the behaviour of each conversion as a
//! verified contract: encoding writes exactly the tag and payload of the
//! requested kind, decoding under a mismatched tag fails with a typed error
//! and never reinterprets the payload, and every record that an operation
//! allocates is released exactly once, also when the operation fails halfway.

pub mod array;
pub mod bstr;
pub mod errors;
pub mod host;
pub mod ptr;
pub mod record;
pub mod types;
pub mod variant;
