use vstd::prelude::*;

use crate::math::{floor_sqrt, isqrt};

verus! {

/// Lightness, chroma and scores are fixed-point numbers in hundredths of a unit.
pub const MIN_LIGHTNESS: u64 = 0;

pub const MAX_LIGHTNESS: u64 = 10000;

/// Colours lighter than this are light, the others dark.
pub const MID_LIGHTNESS: u32 = 5000;

pub const MIN_CHROMA: u64 = 0;

pub const MAX_CHROMA: u64 = 18000;

/// A colour in CIELAB space, each component in hundredths.
#[derive(Clone, Copy, Debug, PartialEq, Eq)]
pub struct Color {
    pub l: u32,
    pub a: i32,
    pub b: i32,
}

impl Color {
    pub fn new(l: u32, a: i32, b: i32) -> (r: Color)
        ensures
            r.l == l,
            r.a == a,
            r.b == b,
    {
        Color { l, a, b }
    }

    pub open spec fn spec_chroma(&self) -> nat {
        floor_sqrt((self.a * self.a + self.b * self.b) as nat)
    }

    pub open spec fn spec_is_light(&self) -> bool {
        self.l > MID_LIGHTNESS
    }

    /// The chroma `sqrt(a^2 + b^2)`, rounded down.
    pub fn chroma(&self) -> (r: u64)
        ensures
            r == self.spec_chroma(),
            r < 0x1_0000_0000,
    {
        let a = self.a as i64;
        let b = self.b as i64;
        assert(a * a <= 0x4000_0000_0000_0000) by (nonlinear_arith)
            requires
                -0x8000_0000 <= a <= 0x7fff_ffff,
        ;
        assert(b * b <= 0x4000_0000_0000_0000) by (nonlinear_arith)
            requires
                -0x8000_0000 <= b <= 0x7fff_ffff,
        ;
        assert(a * a >= 0 && b * b >= 0) by (nonlinear_arith);
        let sum: u128 = (a * a) as u128 + (b * b) as u128;
        let r = isqrt(sum);
        assert(r < 0x1_0000_0000) by (nonlinear_arith)
            requires
                r * r <= sum,
                sum <= 0x8000_0000_0000_0000,
        ;
        r as u64
    }

    pub fn lightness(&self) -> (r: u64)
        ensures
            r == self.l,
    {
        self.l as u64
    }

    pub fn is_light(&self) -> (r: bool)
        ensures
            r == self.spec_is_light(),
    {
        self.l > MID_LIGHTNESS
    }

    pub fn is_dark(&self) -> (r: bool)
        ensures
            r == !self.spec_is_light(),
    {
        !self.is_light()
    }
}

} // verus!
