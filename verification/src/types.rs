//! Value types carried by the codec: the fixed-point currency, the bit-level
//! date, the automation boolean, the signed and unsigned integer wrappers,
//! the status-code wrapper, and the 96-bit decimal together with its
//! conversions to and from `rust_decimal::Decimal`.

use vstd::prelude::*;

verus! {

/// The automation boolean's true value: every bit of the 16-bit slot set.
pub const VARIANT_TRUE: i16 = -1;

/// Sign marker of a negative native decimal.
pub const DECIMAL_NEG: u8 = 128;

/// A currency amount: a 64-bit integer scaled by ten to the minus four.
#[derive(Clone, Copy, Debug, PartialEq, Eq, Structural)]
pub struct Currency(pub i64);

impl From<i64> for Currency {
    fn from(i: i64) -> Currency {
        Currency(i)
    }
}

impl vstd::std_specs::convert::FromSpecImpl<i64> for Currency {
    open spec fn obeys_from_spec() -> bool {
        true
    }

    open spec fn from_spec(i: i64) -> Currency {
        Currency(i)
    }
}

/// A date: the bit pattern of the native 8-byte float that counts days from
/// the automation epoch. The codec moves the bits unchanged; interpreting
/// them as a floating-point day count is the caller's business.
#[derive(Clone, Copy, Debug, PartialEq, Eq, Structural)]
pub struct Date(pub u64);

impl Date {
    /// Wraps the bit pattern of a native date.
    pub fn from_bits(bits: u64) -> (r: Date)
        ensures
            r.0 == bits,
    {
        Date(bits)
    }

    /// The bit pattern of the native date.
    pub fn bits(self) -> (r: u64)
        ensures
            r == self.0,
    {
        self.0
    }
}

/// The automation boolean, which stores true as every bit of a 16-bit slot
/// set and false as zero.
#[derive(Clone, Copy, Debug, PartialEq, Eq, Structural)]
pub struct VariantBool(pub bool);

impl From<bool> for VariantBool {
    fn from(b: bool) -> VariantBool {
        VariantBool(b)
    }
}

impl vstd::std_specs::convert::FromSpecImpl<bool> for VariantBool {
    open spec fn obeys_from_spec() -> bool {
        true
    }

    open spec fn from_spec(b: bool) -> VariantBool {
        VariantBool(b)
    }
}

impl VariantBool {
    /// The native 16-bit representation of this boolean.
    pub fn raw(self) -> (r: i16)
        ensures
            r == (if self.0 {
                VARIANT_TRUE
            } else {
                0i16
            }),
    {
        if self.0 {
            VARIANT_TRUE
        } else {
            0
        }
    }

    /// Reads the native 16-bit representation: any negative value is true.
    pub fn from_raw(v: i16) -> (r: VariantBool)
        ensures
            r.0 == (v < 0),
    {
        VariantBool(v < 0)
    }
}

/// The platform-sized signed integer kind.
#[derive(Clone, Copy, Debug, PartialEq, Eq, Structural)]
pub struct Int(pub i32);

impl From<i32> for Int {
    fn from(i: i32) -> Int {
        Int(i)
    }
}

impl vstd::std_specs::convert::FromSpecImpl<i32> for Int {
    open spec fn obeys_from_spec() -> bool {
        true
    }

    open spec fn from_spec(i: i32) -> Int {
        Int(i)
    }
}

/// The platform-sized unsigned integer kind.
#[derive(Clone, Copy, Debug, PartialEq, Eq, Structural)]
pub struct UInt(pub u32);

impl From<u32> for UInt {
    fn from(i: u32) -> UInt {
        UInt(i)
    }
}

impl vstd::std_specs::convert::FromSpecImpl<u32> for UInt {
    open spec fn obeys_from_spec() -> bool {
        true
    }

    open spec fn from_spec(i: u32) -> UInt {
        UInt(i)
    }
}

/// A status code, the payload of the error kind.
#[derive(Clone, Copy, Debug, PartialEq, Eq, Structural)]
pub struct SCode(pub i32);

impl From<i32> for SCode {
    fn from(i: i32) -> SCode {
        SCode(i)
    }
}

impl vstd::std_specs::convert::FromSpecImpl<i32> for SCode {
    open spec fn obeys_from_spec() -> bool {
        true
    }

    open spec fn from_spec(i: i32) -> SCode {
        SCode(i)
    }
}

/// The native decimal record: a 96-bit mantissa split into a low quadword and
/// a high doubleword, a one-byte scale, and a one-byte sign marker that is
/// either zero or [`DECIMAL_NEG`].
#[derive(Clone, Copy, Debug, PartialEq, Eq, Structural)]
pub struct DecParts {
    /// Decimal digits to the right of the point; at most 28 in any value the
    /// decimal library produces.
    pub scale: u8,
    /// Zero for a positive value, [`DECIMAL_NEG`] for a negative one.
    pub sign: u8,
    /// The high 32 bits of the mantissa.
    pub hi32: u32,
    /// The low 64 bits of the mantissa.
    pub lo64: u64,
}

impl DecParts {
    /// The all-zero decimal record.
    pub fn zero() -> (r: DecParts)
        ensures
            r == (DecParts { scale: 0u8, sign: 0u8, hi32: 0u32, lo64: 0u64 }),
    {
        DecParts { scale: 0, sign: 0, hi32: 0, lo64: 0 }
    }
}

#[verifier::external_type_specification]
#[verifier::external_body]
pub struct ExDecimal(rust_decimal::Decimal);

/// The 16-byte serialized image of a `rust_decimal::Decimal`: four flag bytes
/// (zero, zero, scale, sign), then the 96-bit mantissa in little-endian
/// order. The image depends on the value alone.
pub uninterp spec fn dec_serial(d: rust_decimal::Decimal) -> Seq<u8>;

/// Relies on rust_decimal's `Decimal::serialize`, whose documented layout is
/// four flag bytes followed by the mantissa words in little-endian order; the
/// flag bytes hold zero, zero, the scale (at most 28), and the sign byte,
/// which is zero or the sign bit alone.
#[verifier::external_body]
fn dec_serialize(d: &rust_decimal::Decimal) -> (r: Vec<u8>)
    ensures
        r@ == dec_serial(*d),
        r@.len() == 16,
        r@[0] == 0u8,
        r@[1] == 0u8,
        r@[2] <= 28u8,
        r@[3] == 0u8 || r@[3] == 128u8,
{
    d.serialize().to_vec()
}

/// The serialized image that `Decimal::from_parts` gives to the value built
/// from the three mantissa words, the sign, and the scale: the sign is kept
/// only when the mantissa is not zero.
pub open spec fn serial_of_parts(lo: u32, mid: u32, hi: u32, negative: bool, scale: u8) -> Seq<u8> {
    seq![
        0u8,
        0u8,
        scale,
        if negative && !(lo == 0 && mid == 0 && hi == 0) {
            128u8
        } else {
            0u8
        },
        (lo & 0xFF) as u8,
        ((lo >> 8) & 0xFF) as u8,
        ((lo >> 16) & 0xFF) as u8,
        ((lo >> 24) & 0xFF) as u8,
        (mid & 0xFF) as u8,
        ((mid >> 8) & 0xFF) as u8,
        ((mid >> 16) & 0xFF) as u8,
        ((mid >> 24) & 0xFF) as u8,
        (hi & 0xFF) as u8,
        ((hi >> 8) & 0xFF) as u8,
        ((hi >> 16) & 0xFF) as u8,
        ((hi >> 24) & 0xFF) as u8,
    ]
}

/// Relies on rust_decimal's `Decimal::from_parts`: it stores the mantissa
/// words, scale and sign exactly as given, except that a zero mantissa is
/// always stored positive. It panics when the scale exceeds 28, which the
/// requires excludes.
#[verifier::external_body]
fn dec_build(lo: u32, mid: u32, hi: u32, negative: bool, scale: u8) -> (r: rust_decimal::Decimal)
    requires
        scale <= 28,
    ensures
        dec_serial(r) == serial_of_parts(lo, mid, hi, negative, scale),
{
    rust_decimal::Decimal::from_parts(lo, mid, hi, negative, scale as u32)
}

/// The decimal parts read back from a 16-byte serialized image.
pub open spec fn parts_of_serial(s: Seq<u8>) -> DecParts {
    DecParts {
        scale: s[2],
        sign: s[3],
        hi32: (s[12] as u32) | ((s[13] as u32) << 8) | ((s[14] as u32) << 16) | (
        (s[15] as u32) << 24),
        lo64: (s[4] as u64) | ((s[5] as u64) << 8) | ((s[6] as u64) << 16) | ((s[7] as u64) << 24)
            | ((s[8] as u64) << 32) | ((s[9] as u64) << 40) | ((s[10] as u64) << 48) | (
        (s[11] as u64) << 56),
    }
}

/// Law: splitting a decimal's serialized image into the native record and
/// rebuilding a decimal from that record gives back a value with the same
/// image, bit for bit. The one image this does not hold of is a negative
/// zero, whose sign the rebuild clears; the requires leaves it out.
pub proof fn lemma_decimal_round_trip(s: Seq<u8>)
    requires
        s.len() == 16,
        s[0] == 0u8,
        s[1] == 0u8,
        s[2] <= 28u8,
        s[3] == 0u8 || s[3] == 128u8,
        s[3] == 128u8 ==> !(s[4] == 0u8 && s[5] == 0u8 && s[6] == 0u8 && s[7] == 0u8 && s[8] == 0u8
            && s[9] == 0u8 && s[10] == 0u8 && s[11] == 0u8 && s[12] == 0u8 && s[13] == 0u8 && s[14]
            == 0u8 && s[15] == 0u8),
    ensures
        ({
            let p = parts_of_serial(s);
            serial_of_parts(
                (p.lo64 & 0xFFFF_FFFF) as u32,
                ((p.lo64 >> 32) & 0xFFFF_FFFF) as u32,
                p.hi32,
                p.sign == DECIMAL_NEG,
                p.scale,
            ) == s
        }),
{
    let p = parts_of_serial(s);
    let b4 = s[4];
    let b5 = s[5];
    let b6 = s[6];
    let b7 = s[7];
    let b8 = s[8];
    let b9 = s[9];
    let b10 = s[10];
    let b11 = s[11];
    let b12 = s[12];
    let b13 = s[13];
    let b14 = s[14];
    let b15 = s[15];
    let lo64 = p.lo64;
    let hi32 = p.hi32;
    let lo = (lo64 & 0xFFFF_FFFF) as u32;
    let mid = ((lo64 >> 32) & 0xFFFF_FFFF) as u32;
    assert((lo & 0xFF) as u8 == b4 && ((lo >> 8) & 0xFF) as u8 == b5 && ((lo >> 16) & 0xFF) as u8
        == b6 && ((lo >> 24) & 0xFF) as u8 == b7 && (mid & 0xFF) as u8 == b8 && ((mid >> 8)
        & 0xFF) as u8 == b9 && ((mid >> 16) & 0xFF) as u8 == b10 && ((mid >> 24) & 0xFF) as u8
        == b11) by (bit_vector)
        requires
            lo64 == (b4 as u64) | ((b5 as u64) << 8) | ((b6 as u64) << 16) | ((b7 as u64) << 24) | (
            (b8 as u64) << 32) | ((b9 as u64) << 40) | ((b10 as u64) << 48) | ((b11 as u64) << 56),
            lo == (lo64 & 0xFFFF_FFFF) as u32,
            mid == ((lo64 >> 32) & 0xFFFF_FFFF) as u32,
    ;
    assert((hi32 & 0xFF) as u8 == b12 && ((hi32 >> 8) & 0xFF) as u8 == b13 && ((hi32 >> 16)
        & 0xFF) as u8 == b14 && ((hi32 >> 24) & 0xFF) as u8 == b15) by (bit_vector)
        requires
            hi32 == (b12 as u32) | ((b13 as u32) << 8) | ((b14 as u32) << 16) | ((b15 as u32)
                << 24),
    ;
    if p.sign == DECIMAL_NEG {
        assert(!(lo == 0 && mid == 0 && hi32 == 0)) by (bit_vector)
            requires
                lo64 == (b4 as u64) | ((b5 as u64) << 8) | ((b6 as u64) << 16) | ((b7 as u64) << 24)
                    | ((b8 as u64) << 32) | ((b9 as u64) << 40) | ((b10 as u64) << 48) | (
                (b11 as u64) << 56),
                hi32 == (b12 as u32) | ((b13 as u32) << 8) | ((b14 as u32) << 16) | ((b15 as u32)
                    << 24),
                lo == (lo64 & 0xFFFF_FFFF) as u32,
                mid == ((lo64 >> 32) & 0xFFFF_FFFF) as u32,
                !(b4 == 0u8 && b5 == 0u8 && b6 == 0u8 && b7 == 0u8 && b8 == 0u8 && b9 == 0u8 && b10
                    == 0u8 && b11 == 0u8 && b12 == 0u8 && b13 == 0u8 && b14 == 0u8 && b15 == 0u8),
        ;
    }
    let t = serial_of_parts(lo, mid, hi32, p.sign == DECIMAL_NEG, p.scale);
    assert(t.len() == s.len());
    assert forall|i: int| 0 <= i < 16 implies t[i] == s[i] by {
        assert(t[0] == s[0] && t[1] == s[1] && t[2] == s[2] && t[3] == s[3] && t[4] == s[4] && t[5]
            == s[5] && t[6] == s[6] && t[7] == s[7] && t[8] == s[8] && t[9] == s[9] && t[10] == s[10]
            && t[11] == s[11] && t[12] == s[12] && t[13] == s[13] && t[14] == s[14] && t[15]
            == s[15]);
    }
    assert(t =~= s);
}

/// A wrapper around `rust_decimal::Decimal`, the value behind the 96-bit
/// decimal kind.
#[derive(Clone, Copy, Debug)]
pub struct DecWrapper(rust_decimal::Decimal);

impl DecWrapper {
    /// Wraps a `Decimal`.
    pub fn new(dec: rust_decimal::Decimal) -> (r: DecWrapper)
        ensures
            dec_serial(r.dec()) == dec_serial(dec),
    {
        DecWrapper(dec)
    }

    /// Returns the wrapped value, consuming the wrapper.
    pub fn unwrap(self) -> (r: rust_decimal::Decimal)
        ensures
            r == self.dec(),
    {
        self.0
    }

    /// Borrows the wrapped value.
    pub fn borrow(&self) -> (r: &rust_decimal::Decimal)
        ensures
            *r == self.dec(),
    {
        &self.0
    }

    /// Borrows the wrapped value for writing.
    pub fn borrow_mut(&mut self) -> &mut rust_decimal::Decimal {
        &mut self.0
    }

    /// The wrapped value.
    pub closed spec fn dec(self) -> rust_decimal::Decimal {
        self.0
    }

    /// Splits a `Decimal` into the native decimal record: scale and sign from
    /// the flag bytes, then the mantissa recombined into its low quadword and
    /// high doubleword.
    pub fn build_c_decimal(dec: &rust_decimal::Decimal) -> (r: DecParts)
        ensures
            r == parts_of_serial(dec_serial(*dec)),
            r.scale <= 28,
            r.sign == 0u8 || r.sign == DECIMAL_NEG,
    {
        let ser: Vec<u8> = dec_serialize(dec);
        let scale: u8 = ser[2];
        let sign: u8 = ser[3];
        let lo: u64 = (ser[4] as u64) | ((ser[5] as u64) << 8) | ((ser[6] as u64) << 16) | (
        (ser[7] as u64) << 24) | ((ser[8] as u64) << 32) | ((ser[9] as u64) << 40) | (
        (ser[10] as u64) << 48) | ((ser[11] as u64) << 56);
        let hi: u32 = (ser[12] as u32) | ((ser[13] as u32) << 8) | ((ser[14] as u32) << 16) | (
        (ser[15] as u32) << 24);
        DecParts { scale, sign, hi32: hi, lo64: lo }
    }

    /// Rebuilds a `Decimal` from a native decimal record, splitting the low
    /// quadword into the two low mantissa words.
    pub fn build_rust_decimal(dec: &DecParts) -> (r: rust_decimal::Decimal)
        requires
            dec.scale <= 28,
        ensures
            dec_serial(r) == serial_of_parts(
                (dec.lo64 & 0xFFFF_FFFF) as u32,
                ((dec.lo64 >> 32) & 0xFFFF_FFFF) as u32,
                dec.hi32,
                dec.sign == DECIMAL_NEG,
                dec.scale,
            ),
    {
        dec_build(
            (dec.lo64 & 0xFFFF_FFFF) as u32,
            ((dec.lo64 >> 32) & 0xFFFF_FFFF) as u32,
            dec.hi32,
            dec.sign == DECIMAL_NEG,
            dec.scale,
        )
    }
}

} // verus!
