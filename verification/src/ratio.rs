use vstd::prelude::*;

verus! {

/// The product of two values below `2^32` fits in a `u64`.
pub proof fn lemma_u32_mul_fits_u64(a: int, b: int)
    requires
        0 <= a < 0x1_0000_0000,
        0 <= b < 0x1_0000_0000,
    ensures
        0 <= a * b <= u64::MAX,
{
    assert(0 <= a * b <= u64::MAX) by (nonlinear_arith)
        requires
            0 <= a < 0x1_0000_0000,
            0 <= b < 0x1_0000_0000;
}

/// Scaling a quantity `b` by a factor `a / c <= 1` (with floor division)
/// never exceeds `b`. This bounds every rescaled coordinate and every
/// scaled hue component.
pub proof fn lemma_mul_div_le(a: int, b: int, c: int)
    requires
        0 <= a <= c,
        0 <= b,
        0 < c,
    ensures
        a * b / c <= b,
{
    assert(a * b <= c * b) by (nonlinear_arith)
        requires
            0 <= a <= c,
            0 <= b;
    vstd::arithmetic::div_mod::lemma_div_is_ordered(a * b, c * b, c);
    vstd::arithmetic::div_mod::lemma_div_multiples_vanish(b, c);
}

/// An exact fraction `num / den` with `den > 0` and `num <= den`.
///
/// Gauge fill levels are fractional positions along a scanline of known
/// pixel width, so they are represented exactly as `pixel_index / width`
/// instead of floating point.
#[derive(Debug, Clone, Copy, PartialEq, Eq, Structural)]
pub struct Ratio {
    pub num: u32,
    pub den: u32,
}

impl Ratio {
    /// Well-formed fill ratio: a value in `[0, 1]`.
    pub open spec fn wf(self) -> bool {
        0 < self.den && self.num <= self.den
    }

    pub open spec fn is_zero(self) -> bool {
        self.num == 0
    }

    pub open spec fn is_one(self) -> bool {
        self.num == self.den
    }

    /// Mathematical comparison `self < other`, by cross-multiplication.
    pub open spec fn spec_lt(self, other: Ratio) -> bool {
        self.num * other.den < other.num * self.den
    }

    pub fn new(num: u32, den: u32) -> (r: Ratio)
        requires
            0 < den,
            num <= den,
        ensures
            r == (Ratio { num, den }),
            r.wf(),
    {
        Ratio { num, den }
    }

    pub fn zero() -> (r: Ratio)
        ensures
            r == (Ratio { num: 0u32, den: 1u32 }),
            r.wf(),
            r.is_zero(),
    {
        Ratio { num: 0, den: 1 }
    }

    pub fn one() -> (r: Ratio)
        ensures
            r == (Ratio { num: 1u32, den: 1u32 }),
            r.wf(),
            r.is_one(),
    {
        Ratio { num: 1, den: 1 }
    }

    pub fn lt(&self, other: &Ratio) -> (r: bool)
        ensures
            r == self.spec_lt(*other),
    {
        let a = self.num as u64;
        let b = other.den as u64;
        let c = other.num as u64;
        let d = self.den as u64;
        proof {
            assert(a * b <= u64::MAX && c * d <= u64::MAX) by (nonlinear_arith)
                requires
                    a < 0x1_0000_0000,
                    b < 0x1_0000_0000,
                    c < 0x1_0000_0000,
                    d < 0x1_0000_0000;
        }
        a * b < c * d
    }

    pub fn ge(&self, other: &Ratio) -> (r: bool)
        ensures
            r == !self.spec_lt(*other),
    {
        !self.lt(other)
    }
}

} // verus!
