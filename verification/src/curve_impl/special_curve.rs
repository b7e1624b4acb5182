//! A special curve: the graph of a two-piece sigmoid blend over
//! s in [-10, 5].

use vstd::prelude::*;
use crate::fixed::{Fixed, fx_add, FX_SCALE, fx_exp, lemma_fx_exp_nonneg};
use crate::duals::{
    DualNumber, spec_dual_inv, spec_dual_exp, spec_dual_mul_s, spec_dual_div_s, spec_dual_add_s,
};

verus! {

/// A sigmoid-blended curve with a fixed native domain.
#[derive(Clone, Copy, Debug, PartialEq, Eq, Structural)]
pub struct SpecialCurve;

/// Dual-valued y position of the special curve at dual parameter `s`:
/// `1 / (2 (exp(k) + 1))` with `k = -3 (s + 6)` on the left piece
/// (value below -3) and `k = 3 s` on the right piece.
pub open spec fn special_ys(s: (int, int)) -> (int, int) {
    let k = if s.0 < -3 * FX_SCALE {
        spec_dual_mul_s(spec_dual_add_s(s, 6 * FX_SCALE), -3 * FX_SCALE)
    } else {
        spec_dual_mul_s(s, 3 * FX_SCALE)
    };
    spec_dual_div_s(
        spec_dual_mul_s(spec_dual_inv(spec_dual_add_s(spec_dual_exp(k), FX_SCALE as int)),
            FX_SCALE as int),
        2 * FX_SCALE,
    )
}

impl SpecialCurve {
    /// The special curve.
    pub fn new() -> (r: SpecialCurve)
        ensures
            r == SpecialCurve,
    {
        SpecialCurve
    }

    /// Start of the native parametrization.
    pub fn get_smin(&self) -> (r: Fixed)
        ensures
            r@ == -10 * FX_SCALE,
    {
        Fixed::from_int(-10)
    }

    /// End of the native parametrization.
    pub fn get_smax(&self) -> (r: Fixed)
        ensures
            r@ == 5 * FX_SCALE,
    {
        Fixed::from_int(5)
    }

    /// x-value: the curve is a graph, so x is the parameter itself.
    pub fn xs(&self, s: DualNumber) -> (r: DualNumber)
        ensures
            r@ == s@,
    {
        s
    }

    /// y-value of the sigmoid blend at dual parameter `s`.
    pub fn ys(&self, s: DualNumber) -> (r: DualNumber)
        ensures
            r@ == special_ys(s@),
    {
        let one = Fixed::one();
        let two = Fixed::from_int(2);
        let k: DualNumber;
        if s.get_a().lt(Fixed::from_int(-3)) {
            k = s.add_s(Fixed::from_int(6)).mul_s(Fixed::from_int(-3));
        } else {
            k = s.mul_s(Fixed::from_int(3));
        }
        let denom = k.exp().add_s(one);
        proof {
            lemma_fx_exp_nonneg(k@.0);
        }
        denom.inv().mul_s(one).div_s(two)
    }
}

} // verus!
