//! Exact rational numbers used for derived metrics.
//!
//! A `Ratio` stores the value `num / den` without reducing it; the
//! denominator of a well-formed ratio is at least 1, so the sign of the
//! value is the sign of `num`. Ordering is decided by cross
//! multiplication, carried out in `i128`, which cannot overflow for
//! `i64` factors.

use vstd::prelude::*;

verus! {

/// The exact rational value `num / den`.
#[derive(Clone, Copy, Debug, PartialEq, Eq, Structural)]
pub struct Ratio {
    pub num: i64,
    pub den: i64,
}

/// A ratio is well formed when its denominator is positive.
pub open spec fn ratio_wf(r: Ratio) -> bool {
    1 <= r.den
}

/// The rational number zero, in its canonical representation.
pub open spec fn ratio_zero() -> Ratio {
    Ratio { num: 0, den: 1 }
}

/// `a` is strictly smaller than `b` as a rational value
/// (meaningful when both denominators are positive).
pub open spec fn ratio_lt(a: Ratio, b: Ratio) -> bool {
    a.num * b.den < b.num * a.den
}

/// `a` and `b` denote the same rational value
/// (meaningful when both denominators are positive).
pub open spec fn ratio_eqv(a: Ratio, b: Ratio) -> bool {
    a.num * b.den == b.num * a.den
}

/// The product of two `i64` factors stays well inside the `i128` range.
pub proof fn lemma_mul_i64_fits(a: int, b: int)
    by (nonlinear_arith)
    requires
        -0x8000_0000_0000_0000 <= a <= 0x7fff_ffff_ffff_ffff,
        -0x8000_0000_0000_0000 <= b <= 0x7fff_ffff_ffff_ffff,
    ensures
        -0x4000_0000_0000_0000_0000_0000_0000_0000 <= a * b
            <= 0x4000_0000_0000_0000_0000_0000_0000_0000,
{
}

/// Exactly one of `a < b`, `b < a`, `a == b` holds of the values.
pub proof fn lemma_ratio_trichotomy(a: Ratio, b: Ratio)
    ensures
        ratio_lt(a, b) || ratio_lt(b, a) || ratio_eqv(a, b),
        ratio_lt(a, b) ==> !ratio_lt(b, a) && !ratio_eqv(a, b),
        ratio_eqv(a, b) ==> !ratio_lt(a, b) && !ratio_lt(b, a),
{
}

/// Strict order on values is transitive.
pub proof fn lemma_ratio_lt_trans(a: Ratio, b: Ratio, c: Ratio)
    by (nonlinear_arith)
    requires
        ratio_wf(a),
        ratio_wf(b),
        ratio_wf(c),
        ratio_lt(a, b),
        ratio_lt(b, c),
    ensures
        ratio_lt(a, c),
{
}

/// A strict bound survives replacing the right side by an equal value.
pub proof fn lemma_ratio_lt_eqv_trans(a: Ratio, b: Ratio, c: Ratio)
    by (nonlinear_arith)
    requires
        ratio_wf(a),
        ratio_wf(b),
        ratio_wf(c),
        ratio_lt(a, b),
        ratio_eqv(b, c),
    ensures
        ratio_lt(a, c),
{
}

/// A strict bound survives replacing the left side by an equal value.
pub proof fn lemma_ratio_eqv_lt_trans(a: Ratio, b: Ratio, c: Ratio)
    by (nonlinear_arith)
    requires
        ratio_wf(a),
        ratio_wf(b),
        ratio_wf(c),
        ratio_eqv(a, b),
        ratio_lt(b, c),
    ensures
        ratio_lt(a, c),
{
}

/// Value equality is transitive.
pub proof fn lemma_ratio_eqv_trans(a: Ratio, b: Ratio, c: Ratio)
    by (nonlinear_arith)
    requires
        ratio_wf(a),
        ratio_wf(b),
        ratio_wf(c),
        ratio_eqv(a, b),
        ratio_eqv(b, c),
    ensures
        ratio_eqv(a, c),
{
}

/// Decides `ratio_lt` by cross multiplication in `i128`.
pub fn ratio_lt_exec(a: &Ratio, b: &Ratio) -> (r: bool)
    ensures
        r == ratio_lt(*a, *b),
{
    proof {
        lemma_mul_i64_fits(a.num as int, b.den as int);
        lemma_mul_i64_fits(b.num as int, a.den as int);
    }
    (a.num as i128) * (b.den as i128) < (b.num as i128) * (a.den as i128)
}

/// Decides `ratio_eqv` by cross multiplication in `i128`.
pub fn ratio_eqv_exec(a: &Ratio, b: &Ratio) -> (r: bool)
    ensures
        r == ratio_eqv(*a, *b),
{
    proof {
        lemma_mul_i64_fits(a.num as int, b.den as int);
        lemma_mul_i64_fits(b.num as int, a.den as int);
    }
    (a.num as i128) * (b.den as i128) == (b.num as i128) * (a.den as i128)
}

} // verus!
