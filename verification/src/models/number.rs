//! Binary64 numbers held by their bit pattern.
//!
//! A coordinate or a measurement is a 64-bit IEEE 754 number. The library
//! never does arithmetic on one; it only asks whether it is finite and how its
//! magnitude stands against a bound. Both questions have exact answers on the
//! bit pattern: the top bit is the sign, and among patterns with the sign
//! cleared the order of the patterns is the order of the magnitudes, with the
//! infinities and the NaNs at and above `INFINITY_BITS`.

use vstd::prelude::*;

verus! {

/// The sign bit of a binary64 pattern.
pub const SIGN_BIT: u64 = 0x8000_0000_0000_0000;

/// The pattern of positive infinity; every pattern whose magnitude is at or
/// above it is an infinity or a NaN.
pub const INFINITY_BITS: u64 = 0x7FF0_0000_0000_0000;

/// The pattern of 90.0, the largest magnitude of a latitude.
pub const LATITUDE_LIMIT_BITS: u64 = 0x4056_8000_0000_0000;

/// The pattern of 180.0, the largest magnitude of a longitude.
pub const LONGITUDE_LIMIT_BITS: u64 = 0x4066_8000_0000_0000;

/// The pattern with the sign bit cleared.
pub open spec fn magnitude_bits(bits: u64) -> u64 {
    if bits >= SIGN_BIT {
        (bits - SIGN_BIT) as u64
    } else {
        bits
    }
}

/// Whether the pattern is a finite number (neither an infinity nor a NaN).
pub open spec fn bits_finite(bits: u64) -> bool {
    magnitude_bits(bits) < INFINITY_BITS
}

/// Whether the pattern is a finite number whose magnitude is at most that of
/// the non-negative finite pattern `limit`.
pub open spec fn bits_within(bits: u64, limit: u64) -> bool {
    magnitude_bits(bits) <= limit && magnitude_bits(bits) < INFINITY_BITS
}

/// A binary64 number, held by its bit pattern. Two values are equal when
/// their patterns are.
#[derive(Clone, Copy, Debug, PartialEq, Eq, Structural)]
pub struct Float64 {
    pub bits: u64,
}

impl View for Float64 {
    type V = u64;

    open spec fn view(&self) -> u64 {
        self.bits
    }
}

impl DeepView for Float64 {
    type V = u64;

    open spec fn deep_view(&self) -> u64 {
        self.bits
    }
}

impl Float64 {
    /// The number with the given pattern.
    pub fn from_bits(bits: u64) -> (number: Float64)
        ensures
            number.bits == bits,
    {
        Float64 { bits }
    }

    /// The pattern of the number.
    pub fn to_bits(&self) -> (bits: u64)
        ensures
            bits == self.bits,
    {
        self.bits
    }

    /// The pattern with the sign cleared.
    pub fn magnitude(&self) -> (bits: u64)
        ensures
            bits == magnitude_bits(self.bits),
    {
        if self.bits >= SIGN_BIT {
            self.bits - SIGN_BIT
        } else {
            self.bits
        }
    }

    /// Whether the number is finite.
    pub fn is_finite(&self) -> (yes: bool)
        ensures
            yes == bits_finite(self.bits),
    {
        self.magnitude() < INFINITY_BITS
    }

    /// Whether the number is finite and its magnitude is at most that of
    /// `limit`, a non-negative finite number.
    pub fn is_within(&self, limit: Float64) -> (yes: bool)
        ensures
            yes == bits_within(self.bits, limit.bits),
    {
        let m = self.magnitude();
        m <= limit.bits && m < INFINITY_BITS
    }

    /// Whether the number is a latitude: finite and between -90 and 90.
    pub fn is_latitude(&self) -> (yes: bool)
        ensures
            yes == bits_within(self.bits, LATITUDE_LIMIT_BITS),
    {
        self.is_within(Float64 { bits: LATITUDE_LIMIT_BITS })
    }

    /// Whether the number is a longitude: finite and between -180 and 180.
    pub fn is_longitude(&self) -> (yes: bool)
        ensures
            yes == bits_within(self.bits, LONGITUDE_LIMIT_BITS),
    {
        self.is_within(Float64 { bits: LONGITUDE_LIMIT_BITS })
    }
}

} // verus!
