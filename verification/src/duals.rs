//! Forward-mode automatic differentiation on dual numbers.
//!
//! A dual number `a + b*eps` (with `eps^2 == 0`) carries a value and its
//! derivative through arithmetic: every operation propagates the tangent
//! component by the exact chain rule of the fixed-point arithmetic, as each
//! `ensures` clause states.  Evaluating a function once on `(x, 1)` therefore
//! yields its derivative at `x` in the tangent component.

use vstd::prelude::*;
use crate::fixed::{
    Fixed, fx_add, fx_sub, fx_mul, fx_div, fx_neg, fx_abs, fx_sin, fx_cos, fx_exp, FX_SCALE,
    FX_BOUND, lemma_fx_mul_int, lemma_fx_mul_one,
};
use vstd::arithmetic::power::pow;

verus! {

/// Tangent-exact product of two dual numbers:
/// `(a + b eps)(c + d eps) == ac + (ad + bc) eps`.
pub open spec fn dual_mul(x: (int, int), y: (int, int)) -> (int, int) {
    (fx_mul(x.0, y.0), fx_add(fx_mul(x.0, y.1), fx_mul(x.1, y.0)))
}

/// Left-nested power of a dual number: `e` factors of `d` multiplied from
/// the left.  A zero exponent gives the constant one with zero tangent,
/// as the Taylor rule demands of `x^0`.
pub open spec fn spec_dual_pow(d: (int, int), e: nat) -> (int, int)
    decreases e,
{
    if e == 0 {
        (FX_SCALE as int, 0)
    } else if e == 1 {
        d
    } else {
        dual_mul(spec_dual_pow(d, (e - 1) as nat), d)
    }
}


/// Spec mirror of the dual reciprocal: `(1/a, -b/a^2)`.
pub open spec fn spec_dual_inv(d: (int, int)) -> (int, int) {
    (fx_div(FX_SCALE as int, d.0), fx_neg(fx_div(d.1, fx_mul(d.0, d.0))))
}

/// Spec mirror of the dual sine: `(sin a, b cos a)`.
pub open spec fn spec_dual_sin(d: (int, int)) -> (int, int) {
    (fx_sin(d.0), fx_mul(d.1, fx_cos(d.0)))
}

/// Spec mirror of the dual cosine: `(cos a, -b sin a)`.
pub open spec fn spec_dual_cos(d: (int, int)) -> (int, int) {
    (fx_cos(d.0), fx_mul(fx_neg(d.1), fx_sin(d.0)))
}

/// Spec mirror of the dual exponential: `(exp a, b exp a)`.
pub open spec fn spec_dual_exp(d: (int, int)) -> (int, int) {
    (fx_exp(d.0), fx_mul(d.1, fx_exp(d.0)))
}

/// Spec mirror of scaling both components.
pub open spec fn spec_dual_mul_s(d: (int, int), k: int) -> (int, int) {
    (fx_mul(d.0, k), fx_mul(d.1, k))
}

/// Spec mirror of dividing both components by a scalar.
pub open spec fn spec_dual_div_s(d: (int, int), k: int) -> (int, int) {
    (fx_div(d.0, k), fx_div(d.1, k))
}

/// Spec mirror of adding a scalar to the value component.
pub open spec fn spec_dual_add_s(d: (int, int), k: int) -> (int, int) {
    (fx_add(d.0, k), d.1)
}

/// A dual number over the library's fixed-point scalar.
#[derive(Clone, Copy, Debug, PartialEq, Eq, Structural)]
pub struct DualNumber {
    a: Fixed,
    b: Fixed,
}

impl View for DualNumber {
    type V = (int, int);

    closed spec fn view(&self) -> (int, int) {
        (self.a@, self.b@)
    }
}

impl DualNumber {
    /// Creates a dual number from value `a` and tangent `b`.
    pub fn from(a: Fixed, b: Fixed) -> (r: DualNumber)
        ensures
            r@ == (a@, b@),
    {
        DualNumber { a, b }
    }

    /// Creates a dual number from a real value `a` (zero tangent).
    pub fn from_real(a: Fixed) -> (r: DualNumber)
        ensures
            r@ == (a@, 0int),
    {
        DualNumber { a, b: Fixed::zero() }
    }

    /// Returns the real (value) component.
    pub fn get_a(&self) -> (r: Fixed)
        ensures
            r@ == self@.0,
    {
        self.a
    }

    /// Returns the dual (tangent) component.
    pub fn get_b(&self) -> (r: Fixed)
        ensures
            r@ == self@.1,
    {
        self.b
    }

    /// Inverts the dual number (as in doing 1/w): value `1/a`, tangent
    /// `-b/a^2` (the reciprocal rule).  The value component must be large
    /// enough that its square does not truncate to zero.
    pub fn inv(&self) -> (r: DualNumber)
        requires
            fx_abs(self@.0) >= 65536,
        ensures
            r@.0 == fx_div(FX_SCALE as int, self@.0),
            r@.1 == fx_neg(fx_div(self@.1, fx_mul(self@.0, self@.0))),
    {
        proof {
            lemma_square_at_least_one(self@.0);
        }
        let asq = self.a.mul(self.a);
        DualNumber { a: Fixed::one().div(self.a), b: self.b.div(asq).neg() }
    }

    /// Sine: value `sin a`, tangent `b * cos a` (chain rule).
    pub fn sin(&self) -> (r: DualNumber)
        ensures
            r@.0 == fx_sin(self@.0),
            r@.1 == fx_mul(self@.1, fx_cos(self@.0)),
    {
        DualNumber { a: self.a.sin(), b: self.b.mul(self.a.cos()) }
    }

    /// Cosine: value `cos a`, tangent `-b * sin a` (chain rule).
    pub fn cos(&self) -> (r: DualNumber)
        ensures
            r@.0 == fx_cos(self@.0),
            r@.1 == fx_mul(fx_neg(self@.1), fx_sin(self@.0)),
    {
        DualNumber { a: self.a.cos(), b: self.b.neg().mul(self.a.sin()) }
    }

    /// Exponential: value `exp a`, tangent `b * exp a` (chain rule).
    pub fn exp(&self) -> (r: DualNumber)
        ensures
            r@.0 == fx_exp(self@.0),
            r@.1 == fx_mul(self@.1, fx_exp(self@.0)),
    {
        DualNumber { a: self.a.exp(), b: self.b.mul(self.a.exp()) }
    }

    /// `self` to the power `e`, by repeated dual multiplication; a zero
    /// exponent gives the constant one (value 1, tangent 0), so a
    /// constant factor `x^0` propagates correctly through the chain rule.
    pub fn pow(&self, e: u8) -> (r: DualNumber)
        ensures
            r@ == spec_dual_pow(self@, e as nat),
    {
        if e == 0 {
            return DualNumber::from(Fixed::one(), Fixed::zero());
        }
        let mut dual = DualNumber::from(self.a, self.b);
        let factor = DualNumber::from(self.a, self.b);
        let mut i: u8 = 1;
        while i < e
            invariant
                1 <= i <= e,
                factor@ == self@,
                dual@ == spec_dual_pow(self@, i as nat),
            decreases e - i,
        {
            dual = dual.mul(factor);
            i = i + 1;
        }
        dual
    }

    /// Componentwise sum.
    pub fn add(self, other: DualNumber) -> (r: DualNumber)
        ensures
            r@.0 == fx_add(self@.0, other@.0),
            r@.1 == fx_add(self@.1, other@.1),
    {
        DualNumber { a: self.a.add(other.a), b: self.b.add(other.b) }
    }

    /// Adds a scalar to the value component.
    pub fn add_s(self, other: Fixed) -> (r: DualNumber)
        ensures
            r@.0 == fx_add(self@.0, other@),
            r@.1 == self@.1,
    {
        DualNumber { a: self.a.add(other), b: self.b }
    }

    /// Componentwise difference.
    pub fn sub(self, other: DualNumber) -> (r: DualNumber)
        ensures
            r@.0 == fx_sub(self@.0, other@.0),
            r@.1 == fx_sub(self@.1, other@.1),
    {
        DualNumber { a: self.a.sub(other.a), b: self.b.sub(other.b) }
    }

    /// Subtracts a scalar from the value component.
    pub fn sub_s(self, other: Fixed) -> (r: DualNumber)
        ensures
            r@.0 == fx_sub(self@.0, other@),
            r@.1 == self@.1,
    {
        DualNumber { a: self.a.sub(other), b: self.b }
    }

    /// Product by the chain rule: `(ac, ad + bc)`.
    pub fn mul(self, other: DualNumber) -> (r: DualNumber)
        ensures
            r@ == dual_mul(self@, other@),
    {
        DualNumber {
            a: self.a.mul(other.a),
            b: self.a.mul(other.b).add(self.b.mul(other.a)),
        }
    }

    /// Scales both components.
    pub fn mul_s(self, other: Fixed) -> (r: DualNumber)
        ensures
            r@.0 == fx_mul(self@.0, other@),
            r@.1 == fx_mul(self@.1, other@),
    {
        DualNumber { a: self.a.mul(other), b: self.b.mul(other) }
    }

    /// Quotient by the quotient rule: value `a/c`, tangent
    /// `b/c - a d / c^2`.  The divisor's value component must be large
    /// enough that its square does not truncate to zero.
    pub fn div(self, other: DualNumber) -> (r: DualNumber)
        requires
            fx_abs(other@.0) >= 65536,
        ensures
            r@.0 == fx_div(self@.0, other@.0),
            r@.1 == fx_sub(
                fx_div(self@.1, other@.0),
                fx_div(fx_mul(self@.0, other@.1), fx_mul(other@.0, other@.0)),
            ),
    {
        proof {
            lemma_square_at_least_one(other@.0);
        }
        let csq = other.a.mul(other.a);
        DualNumber {
            a: self.a.div(other.a),
            b: self.b.div(other.a).sub(self.a.mul(other.b).div(csq)),
        }
    }

    /// Divides both components by a scalar.
    pub fn div_s(self, other: Fixed) -> (r: DualNumber)
        requires
            other@ != 0,
        ensures
            r@.0 == fx_div(self@.0, other@),
            r@.1 == fx_div(self@.1, other@),
    {
        DualNumber { a: self.a.div(other), b: self.b.div(other) }
    }
}

/// A value of magnitude at least 2^16 has a fixed-point square of at
/// least 1 raw unit, so it can serve as a divisor.
pub proof fn lemma_square_at_least_one(a: int)
    requires
        fx_abs(a) >= 65536,
    ensures
        fx_mul(a, a) >= 1,
{
    assert(a * a >= 65536 * 65536) by (nonlinear_arith)
        requires
            fx_abs(a) >= 65536,
    ;
    vstd::arithmetic::div_mod::lemma_div_non_zero(a * a, FX_SCALE as int);
}


/// The magnitude of a power is the power of the magnitude.
proof fn lemma_pow_abs(k: int, e: nat)
    ensures
        fx_abs(pow(k, e)) == pow(fx_abs(k), e),
    decreases e,
{
    reveal(pow);
    if e == 0 {
    } else {
        lemma_pow_abs(k, (e - 1) as nat);
        assert(pow(k, e) == k * pow(k, (e - 1) as nat));
        assert(pow(fx_abs(k), e) == fx_abs(k) * pow(fx_abs(k), (e - 1) as nat));
        assert(fx_abs(k * pow(k, (e - 1) as nat)) == fx_abs(k) * fx_abs(pow(k, (e - 1) as nat)))
            by (nonlinear_arith);
    }
}

/// The power rule of differentiation holds exactly in the dual
/// arithmetic on exactly representable integers: evaluating the `e`-fold
/// dual power at `(k, 1)` yields value `k^e` and tangent `e * k^(e-1)`
/// with no rounding at all, as long as those results are representable.
pub proof fn lemma_pow_derivative(k: int, e: nat)
    requires
        1 <= e,
        fx_abs(k) <= 536870912,
        pow(fx_abs(k), e) <= 536870912,
        e * pow(fx_abs(k), (e - 1) as nat) <= 536870912,
    ensures
        spec_dual_pow((k * FX_SCALE, FX_SCALE as int), e) == (
            pow(k, e) * FX_SCALE,
            (e * pow(k, (e - 1) as nat)) * FX_SCALE,
        ),
    decreases e,
{
    reveal(pow);
    let q = 536870912int;
    if e == 1 {
        assert(pow(k, 1) == k * pow(k, 0));
        assert(pow(k, 0) == 1);
    } else {
        let e1 = (e - 1) as nat;
        let e2 = (e - 2) as nat;
        let a = fx_abs(k);
        lemma_pow_abs(k, e);
        lemma_pow_abs(k, e1);
        lemma_pow_abs(k, e2);
        if a == 0 {
            vstd::arithmetic::power::lemma0_pow(e1);
            vstd::arithmetic::power::lemma0_pow(e);
            if e2 > 0 {
                vstd::arithmetic::power::lemma0_pow(e2);
            } else {
                vstd::arithmetic::power::lemma_pow0(a);
            }
            assert(pow(0, e1) == 0);
            assert(pow(a, e1) == 0);
            assert(e1 * pow(a, e2) <= 536870912int) by (nonlinear_arith)
                requires
                    e2 == 0 ==> e == 2,
                    e2 > 0 ==> pow(a, e2) == 0,
                    e1 == e - 1,
                    2 <= e,
                    e2 == 0 ==> pow(a, e2) == 1,
            ;
        } else {
            vstd::arithmetic::power::lemma_pow_positive(a, e1);
            vstd::arithmetic::power::lemma_pow_positive(a, e2);
            vstd::arithmetic::power::lemma_pow_increases(a as nat, e1, e);
            vstd::arithmetic::power::lemma_pow_increases(a as nat, e2, e1);
            assert(e1 * pow(a, e2) <= e * pow(a, e1)) by (nonlinear_arith)
                requires
                    0 <= e1 <= e,
                    0 <= pow(a, e2) <= pow(a, e1),
            ;
        }
        assert(0 <= pow(a, e1) && 0 <= pow(a, e2)) by {
            if a == 0 {
            } else {
                vstd::arithmetic::power::lemma_pow_positive(a, e1);
                vstd::arithmetic::power::lemma_pow_positive(a, e2);
            }
        }
        lemma_pow_derivative(k, e1);
        let prev = spec_dual_pow((k * FX_SCALE, FX_SCALE as int), e1);
        assert(prev == (pow(k, e1) * FX_SCALE, (e1 * pow(k, e2)) * FX_SCALE));

        // value component: k^(e-1) * k == k^e, exactly
        assert(pow(k, e) == k * pow(k, e1));
        assert(fx_abs(pow(k, e1) * k) == pow(a, e)) by (nonlinear_arith)
            requires
                pow(k, e) == k * pow(k, e1),
                fx_abs(pow(k, e)) == pow(a, e),
        ;
        lemma_fx_mul_int(pow(k, e1), k);
        assert(pow(k, e1) * k == pow(k, e)) by (nonlinear_arith)
            requires
                pow(k, e) == k * pow(k, e1),
        ;

        // tangent component: k^(e-1) * 1 + (e-1) k^(e-2) * k == e k^(e-1)
        assert(fx_abs(pow(k, e1) * FX_SCALE) <= FX_BOUND) by (nonlinear_arith)
            requires
                fx_abs(pow(k, e1)) <= 536870912int,
        ;
        lemma_fx_mul_one(pow(k, e1) * FX_SCALE);
        assert(pow(a, e1) == a * pow(a, e2));
        assert(fx_abs((e1 * pow(k, e2)) * k) <= 536870912int) by (nonlinear_arith)
            requires
                fx_abs(pow(k, e2)) == pow(a, e2),
                fx_abs(k) == a,
                pow(a, e1) == a * pow(a, e2),
                e * pow(fx_abs(k), (e - 1) as nat) <= 536870912int,
                (e - 1) as nat == e1,
                fx_abs(k) == a,
                0 <= pow(a, e2),
                0 <= pow(a, e1),
                0 <= a,
                0 <= e1 < e,
        ;
        lemma_fx_mul_int(e1 * pow(k, e2), k);
        assert((e1 * pow(k, e2)) * k == e1 * pow(k, e1)) by (nonlinear_arith)
            requires
                pow(k, e1) == k * pow(k, e2),
        ;
        assert(pow(k, e1) == k * pow(k, e2));
        assert(pow(k, e1) * FX_SCALE + (e1 * pow(k, e1)) * FX_SCALE == (e * pow(k, e1))
            * FX_SCALE) by (nonlinear_arith)
            requires
                e1 == e - 1,
        ;
        assert(fx_abs((e * pow(k, e1)) * FX_SCALE) <= FX_BOUND) by (nonlinear_arith)
            requires
                fx_abs(pow(k, e1)) == pow(a, e1),
                e * pow(a, e1) <= 536870912int,
                0 <= pow(a, e1),
                0 <= e,
        ;
    }
}

/// Evaluates `f` at the dual number `(x, 1)` and returns the tangent
/// component: the derivative of `f` at `x`, exactly as the dual-number
/// arithmetic propagates it.
pub fn diff<F: Fn(DualNumber) -> DualNumber>(f: &F, x: Fixed) -> (r: Fixed)
    requires
        forall|d: DualNumber| d@ == (x@, FX_SCALE as int) ==> call_requires(*f, (d,)),
    ensures
        exists|d: DualNumber, rd: DualNumber|
            d@ == (x@, FX_SCALE as int) && #[trigger] call_ensures(*f, (d,), rd) && r@ == rd@.1,
{
    let d = DualNumber::from(x, Fixed::one());
    let rd = f(d);
    rd.get_b()
}

} // verus!
