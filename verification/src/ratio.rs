use vstd::prelude::*;

verus! {

/// An exact rational number `num / den`. Well-formed values have `den > 0`.
///
/// The training engine keeps every scalar that its decisions depend on
/// (hyperparameters, accuracies, loss figures) as an exact rational, so that
/// comparisons such as "test accuracy reached the stopping threshold" are
/// decidable facts about integers rather than rounded approximations.
#[derive(Clone, Copy, Debug, PartialEq, Eq, Structural)]
pub struct Ratio {
    pub num: i64,
    pub den: u64,
}

impl Ratio {
    /// Well-formed: the denominator is positive.
    pub open spec fn wf(self) -> bool {
        self.den > 0
    }

    /// `self <= other` as mathematical rationals (valid for well-formed values).
    pub open spec fn spec_le(self, other: Ratio) -> bool {
        self.num * other.den <= other.num * self.den
    }

    /// The value is exactly zero.
    pub open spec fn spec_is_zero(self) -> bool {
        self.num == 0
    }

    pub fn new(num: i64, den: u64) -> (r: Ratio)
        requires
            den > 0,
        ensures
            r == (Ratio { num, den }),
            r.wf(),
    {
        Ratio { num, den }
    }

    pub fn zero() -> (r: Ratio)
        ensures
            r == (Ratio { num: 0, den: 1 }),
            r.wf(),
            r.spec_is_zero(),
    {
        Ratio { num: 0, den: 1 }
    }

    pub fn one() -> (r: Ratio)
        ensures
            r == (Ratio { num: 1, den: 1 }),
            r.wf(),
    {
        Ratio { num: 1, den: 1 }
    }

    /// Exact comparison by cross-multiplication.
    pub fn le(&self, other: &Ratio) -> (r: bool)
        requires
            self.wf(),
            other.wf(),
        ensures
            r == self.spec_le(*other),
    {
        let a: i128 = self.num as i128;
        let b: i128 = other.den as i128;
        let c: i128 = other.num as i128;
        let d: i128 = self.den as i128;
        proof {
            lemma_i64_u64_product_fits(self.num as int, other.den as int);
            lemma_i64_u64_product_fits(other.num as int, self.den as int);
        }
        a * b <= c * d
    }

    /// Exact `self >= other`.
    pub fn ge(&self, other: &Ratio) -> (r: bool)
        requires
            self.wf(),
            other.wf(),
        ensures
            r == other.spec_le(*self),
    {
        other.le(self)
    }
}

/// The product of an `i64` and a `u64` fits in an `i128`.
proof fn lemma_i64_u64_product_fits(a: int, b: int)
    requires
        -0x8000_0000_0000_0000 <= a <= 0x7fff_ffff_ffff_ffff,
        0 <= b <= 0xffff_ffff_ffff_ffff,
    ensures
        -0x8000_0000_0000_0000_0000_0000_0000_0000 <= a * b
            <= 0x7fff_ffff_ffff_ffff_ffff_ffff_ffff_ffff,
{
    assert(-0x8000_0000_0000_0000_0000_0000_0000_0000 <= a * b
        <= 0x7fff_ffff_ffff_ffff_ffff_ffff_ffff_ffff) by (nonlinear_arith)
        requires
            -0x8000_0000_0000_0000 <= a <= 0x7fff_ffff_ffff_ffff,
            0 <= b <= 0xffff_ffff_ffff_ffff,
    ;
}

} // verus!
