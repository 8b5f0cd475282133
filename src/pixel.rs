//! Element types of a raw image: unsigned integers of 8, 16 or 32 bits.
use vstd::prelude::*;

verus! {

/// An unsigned integer element type with checked conversions to and from
/// the narrower integers that the image sources and the wire format carry.
pub trait Pixel: Copy + Sized {
    /// The numeric value held.
    spec fn value(self) -> nat;

    /// Whether a numeric value can be held without loss.
    spec fn fits(n: nat) -> bool;

    /// Distinct elements hold distinct values, and every value held fits.
    proof fn lemma_value(a: Self, b: Self)
        ensures
            a.value() == b.value() ==> a == b,
            Self::fits(a.value()),
    ;

    /// The zero element.
    fn zero() -> (r: Self)
        ensures
            r.value() == 0,
    ;

    /// Widens or narrows an 8-bit channel value, failing on loss.
    fn from_u8(v: u8) -> (r: Option<Self>)
        ensures
            r is Some <==> Self::fits(v as nat),
            r is Some ==> r->0.value() == v as nat,
    ;

    /// Widens or narrows a 16-bit wire value, failing on loss.
    fn from_u16(v: u16) -> (r: Option<Self>)
        ensures
            r is Some <==> Self::fits(v as nat),
            r is Some ==> r->0.value() == v as nat,
    ;

    /// Narrows the element to a 16-bit wire value, failing on loss.
    fn to_u16(self) -> (r: Option<u16>)
        ensures
            r is Some <==> self.value() <= u16::MAX,
            r is Some ==> r->0 as nat == self.value(),
    ;
}

impl Pixel for u8 {
    open spec fn value(self) -> nat {
        self as nat
    }

    open spec fn fits(n: nat) -> bool {
        n <= u8::MAX
    }

    proof fn lemma_value(a: Self, b: Self) {
    }

    fn zero() -> (r: Self) {
        0
    }

    fn from_u8(v: u8) -> (r: Option<Self>) {
        Some(v)
    }

    fn from_u16(v: u16) -> (r: Option<Self>) {
        if v <= u8::MAX as u16 {
            Some(v as u8)
        } else {
            None
        }
    }

    fn to_u16(self) -> (r: Option<u16>) {
        Some(self as u16)
    }
}

impl Pixel for u16 {
    open spec fn value(self) -> nat {
        self as nat
    }

    open spec fn fits(n: nat) -> bool {
        n <= u16::MAX
    }

    proof fn lemma_value(a: Self, b: Self) {
    }

    fn zero() -> (r: Self) {
        0
    }

    fn from_u8(v: u8) -> (r: Option<Self>) {
        Some(v as u16)
    }

    fn from_u16(v: u16) -> (r: Option<Self>) {
        Some(v)
    }

    fn to_u16(self) -> (r: Option<u16>) {
        Some(self)
    }
}

impl Pixel for u32 {
    open spec fn value(self) -> nat {
        self as nat
    }

    open spec fn fits(n: nat) -> bool {
        n <= u32::MAX
    }

    proof fn lemma_value(a: Self, b: Self) {
    }

    fn zero() -> (r: Self) {
        0
    }

    fn from_u8(v: u8) -> (r: Option<Self>) {
        Some(v as u32)
    }

    fn from_u16(v: u16) -> (r: Option<Self>) {
        Some(v as u32)
    }

    fn to_u16(self) -> (r: Option<u16>) {
        if self <= u16::MAX as u32 {
            Some(self as u16)
        } else {
            None
        }
    }
}

} // verus!
