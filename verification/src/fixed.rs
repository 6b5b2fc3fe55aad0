//! The scalar type of the engine: signed fixed-point numbers with 32
//! fractional bits (Q31.32), stored in an `i64`.
//!
//! All arithmetic saturates at `MAX_RAW` / `MIN_RAW` and rounds toward
//! zero, and every operation is specified exactly, as a function on the
//! underlying integers.

use vstd::prelude::*;

verus! {

/// The fixed-point scale: raw value of 1.0 (2^32).
pub const ONE_RAW: i64 = 0x1_0000_0000;

/// Raw value of 0.5.
pub const HALF_RAW: i64 = 0x8000_0000;

/// Largest raw value the arithmetic produces (saturation bound).
pub const MAX_RAW: i64 = 0x7FFF_FFFF_FFFF_FFFF;

/// Smallest raw value the arithmetic produces (saturation bound).
pub const MIN_RAW: i64 = -0x7FFF_FFFF_FFFF_FFFF;

/// Saturate a raw result into `[MIN_RAW, MAX_RAW]`.
pub open spec fn clamp_raw(x: int) -> int {
    if x > MAX_RAW as int {
        MAX_RAW as int
    } else if x < MIN_RAW as int {
        MIN_RAW as int
    } else {
        x
    }
}

/// Divide a raw product by the scale, rounding toward zero.
pub open spec fn scale_down(p: int) -> int {
    if p >= 0 {
        p / (ONE_RAW as int)
    } else {
        -((-p) / (ONE_RAW as int))
    }
}

/// What `Fx::add` returns, on raw values.
pub open spec fn fx_add(a: int, b: int) -> int {
    clamp_raw(a + b)
}

/// What `Fx::sub` returns, on raw values.
pub open spec fn fx_sub(a: int, b: int) -> int {
    clamp_raw(a - b)
}

/// What `Fx::mul` returns, on raw values.
pub open spec fn fx_mul(a: int, b: int) -> int {
    clamp_raw(scale_down(a * b))
}

/// A fixed-point number; `raw` counts units of 2^-32.
#[derive(Clone, Copy, PartialEq, Eq, Structural, Debug)]
pub struct Fx {
    raw: i64,
}

impl View for Fx {
    type V = int;

    closed spec fn view(&self) -> int {
        self.raw as int
    }
}

impl DeepView for Fx {
    type V = int;

    open spec fn deep_view(&self) -> int {
        self.view()
    }
}

impl Fx {
    /// Wrap a raw count of 2^-32 units.
    pub fn from_raw(raw: i64) -> (r: Fx)
        ensures
            r@ == raw as int,
    {
        Fx { raw }
    }

    /// The raw count of 2^-32 units.
    pub fn raw(&self) -> (r: i64)
        ensures
            r as int == self@,
    {
        self.raw
    }

    /// Saturating fixed-point addition.
    pub fn add(self, other: Fx) -> (r: Fx)
        ensures
            r@ == fx_add(self@, other@),
    {
        let s: i128 = self.raw as i128 + other.raw as i128;
        if s > MAX_RAW as i128 {
            Fx { raw: MAX_RAW }
        } else if s < MIN_RAW as i128 {
            Fx { raw: MIN_RAW }
        } else {
            Fx { raw: s as i64 }
        }
    }

    /// Saturating fixed-point subtraction.
    pub fn sub(self, other: Fx) -> (r: Fx)
        ensures
            r@ == fx_sub(self@, other@),
    {
        let s: i128 = self.raw as i128 - other.raw as i128;
        if s > MAX_RAW as i128 {
            Fx { raw: MAX_RAW }
        } else if s < MIN_RAW as i128 {
            Fx { raw: MIN_RAW }
        } else {
            Fx { raw: s as i64 }
        }
    }

    /// Saturating fixed-point multiplication, rounding toward zero.
    pub fn mul(self, other: Fx) -> (r: Fx)
        ensures
            r@ == fx_mul(self@, other@),
    {
        let a: i128 = self.raw as i128;
        let b: i128 = other.raw as i128;
        proof {
            assert((-0x8000_0000_0000_0000i128) <= a <= 0x7FFF_FFFF_FFFF_FFFFi128);
            assert((-0x8000_0000_0000_0000i128) <= b <= 0x7FFF_FFFF_FFFF_FFFFi128);
            assert(a * b <= 0x4000_0000_0000_0000_0000_0000_0000_0000i128
                && a * b >= -0x4000_0000_0000_0000_0000_0000_0000_0000i128) by (nonlinear_arith)
                requires
                    (-0x8000_0000_0000_0000i128) <= a <= 0x7FFF_FFFF_FFFF_FFFFi128,
                    (-0x8000_0000_0000_0000i128) <= b <= 0x7FFF_FFFF_FFFF_FFFFi128,
            ;
        }
        let p: i128 = a * b;
        let neg: bool = p < 0;
        let mag: u128 = if neg {
            (-p) as u128
        } else {
            p as u128
        };
        let q: u128 = mag / 0x1_0000_0000u128;
        let clamped: u128 = if q > MAX_RAW as u128 {
            MAX_RAW as u128
        } else {
            q
        };
        let raw: i64 = if neg {
            -(clamped as i64)
        } else {
            clamped as i64
        };
        Fx { raw }
    }
}

} // verus!
