//! The scalar type of the library: a signed fixed-point number.
//!
//! A `Fixed` stores an integer `raw` and denotes the real number
//! `raw / FX_SCALE`.  All arithmetic is exact integer arithmetic followed by
//! truncation toward zero and saturation at `FX_BOUND`, so every operation
//! has an exact mathematical description (`fx_add`, `fx_mul`, ...) over the
//! raw representation, stated in each method's `ensures` clause.

use vstd::prelude::*;
use vstd::arithmetic::div_mod::lemma_div_multiples_vanish;

verus! {

/// Number of raw units per 1.0: 2^32.
pub const FX_SCALE: i64 = 4294967296;

/// Saturation bound for the raw value: 2^61.  Keeping every raw value in
/// [-FX_BOUND, FX_BOUND] means a sum of two values never overflows `i64`
/// and a product never overflows `i128`.
pub const FX_BOUND: i64 = 2305843009213693952;

/// Saturate an integer into the representable raw range.
pub open spec fn fx_clip(x: int) -> int {
    if x > FX_BOUND {
        FX_BOUND as int
    } else if x < -FX_BOUND {
        -FX_BOUND as int
    } else {
        x
    }
}

/// Magnitude of an integer.
pub open spec fn fx_abs(x: int) -> int {
    if x < 0 {
        -x
    } else {
        x
    }
}

/// Division truncated toward zero (the rounding of the scaling steps),
/// for a positive divisor `d`.
pub open spec fn fx_tdiv(a: int, d: int) -> int {
    if a >= 0 {
        a / d
    } else {
        -((-a) / d)
    }
}

/// Raw result of adding two fixed-point numbers.
pub open spec fn fx_add(a: int, b: int) -> int {
    fx_clip(a + b)
}

/// Raw result of subtracting two fixed-point numbers.
pub open spec fn fx_sub(a: int, b: int) -> int {
    fx_clip(a - b)
}

/// Raw result of negating a fixed-point number.
pub open spec fn fx_neg(a: int) -> int {
    -a
}

/// Raw result of multiplying two fixed-point numbers: the exact product,
/// rescaled with truncation toward zero, then saturated.
pub open spec fn fx_mul(a: int, b: int) -> int {
    fx_clip(fx_tdiv(a * b, FX_SCALE as int))
}

/// Raw result of dividing two fixed-point numbers: the scaled quotient of
/// the magnitudes, truncated toward zero, with the sign of the exact
/// quotient, then saturated.
pub open spec fn fx_div(a: int, b: int) -> int {
    if b == 0 {
        0
    } else if (a < 0) != (b < 0) {
        fx_clip(-(fx_abs(a) * FX_SCALE / fx_abs(b)))
    } else {
        fx_clip(fx_abs(a) * FX_SCALE / fx_abs(b))
    }
}

/// `r` is the nonnegative integer square root of `n`.
pub open spec fn is_isqrt(n: int, r: int) -> bool {
    0 <= r && r * r <= n && n < (r + 1) * (r + 1)
}

/// The unique nonnegative integer square root: `r` with `r^2 <= n < (r+1)^2`.
pub open spec fn spec_isqrt(n: int) -> int {
    choose|r: int| is_isqrt(n, r)
}

/// Raw result of the fixed-point square root of a nonnegative value.
pub open spec fn fx_sqrt(a: int) -> int {
    spec_isqrt(a * FX_SCALE)
}

/// A fixed-point scalar; the represented value is `raw / FX_SCALE`.
#[derive(Clone, Copy, Debug, PartialEq, Eq, Structural)]
pub struct Fixed {
    raw: i64,
}

impl View for Fixed {
    type V = int;

    closed spec fn view(&self) -> int {
        self.raw as int
    }
}

impl Fixed {
    /// Every `Fixed` keeps its value inside the saturation bound.
    #[verifier::type_invariant]
    pub open spec fn wf(self) -> bool {
        -FX_BOUND <= self@ <= FX_BOUND
    }

    /// The raw representation; `raw / FX_SCALE` is the value denoted.
    pub fn raw(self) -> (r: i64)
        ensures
            r == self@,
    {
        self.raw
    }

    /// The number 0.
    pub fn zero() -> (r: Fixed)
        ensures
            r@ == 0,
    {
        Fixed { raw: 0 }
    }

    /// The number 1.
    pub fn one() -> (r: Fixed)
        ensures
            r@ == FX_SCALE,
    {
        Fixed { raw: FX_SCALE }
    }

    /// The fixed-point number with the given raw representation
    /// (denoting `raw / FX_SCALE`).
    pub fn from_raw(raw: i64) -> (r: Fixed)
        requires
            -FX_BOUND <= raw <= FX_BOUND,
        ensures
            r@ == raw,
    {
        Fixed { raw }
    }

    /// The integer `x` as a fixed-point number (exactly representable).
    pub fn from_int(x: i64) -> (r: Fixed)
        requires
            -536870912 <= x <= 536870912,
        ensures
            r@ == x * FX_SCALE,
    {
        Fixed { raw: x * FX_SCALE }
    }

    /// The rational `num / den` rounded toward zero to raw precision.
    pub fn from_ratio(num: i64, den: i64) -> (r: Fixed)
        requires
            -536870912 <= num <= 536870912,
            0 < den,
        ensures
            r@ == fx_tdiv(num * FX_SCALE, den as int),
    {
        let neg: bool = num < 0;
        let nm: u64 = if neg {
            (-num) as u64
        } else {
            num as u64
        };
        let q: u128 = (nm as u128 * FX_SCALE as u128) / (den as u128);
        proof {
            assert(nm as int * FX_SCALE <= 536870912int * FX_SCALE) by (nonlinear_arith)
                requires
                    0 <= nm <= 536870912,
            ;
            assert(q <= nm as int * FX_SCALE);
        }
        let m: i64 = q as i64;
        if neg {
            Fixed { raw: -m }
        } else {
            Fixed { raw: m }
        }
    }

    /// `self + other`, saturating.
    pub fn add(self, other: Fixed) -> (r: Fixed)
        ensures
            r@ == fx_add(self@, other@),
    {
        proof {
            use_type_invariant(self);
            use_type_invariant(other);
        }
        let s: i64 = self.raw + other.raw;
        if s > FX_BOUND {
            Fixed { raw: FX_BOUND }
        } else if s < -FX_BOUND {
            Fixed { raw: -FX_BOUND }
        } else {
            Fixed { raw: s }
        }
    }

    /// `self - other`, saturating.
    pub fn sub(self, other: Fixed) -> (r: Fixed)
        ensures
            r@ == fx_sub(self@, other@),
    {
        proof {
            use_type_invariant(self);
            use_type_invariant(other);
        }
        let s: i64 = self.raw - other.raw;
        if s > FX_BOUND {
            Fixed { raw: FX_BOUND }
        } else if s < -FX_BOUND {
            Fixed { raw: -FX_BOUND }
        } else {
            Fixed { raw: s }
        }
    }

    /// `-self`.
    pub fn neg(self) -> (r: Fixed)
        ensures
            r@ == fx_neg(self@),
    {
        proof {
            use_type_invariant(self);
        }
        Fixed { raw: -self.raw }
    }

    /// `|self|`.
    pub fn abs(self) -> (r: Fixed)
        ensures
            r@ == fx_abs(self@),
    {
        proof {
            use_type_invariant(self);
        }
        if self.raw < 0 {
            Fixed { raw: -self.raw }
        } else {
            self
        }
    }

    /// `self < other` on the denoted values.
    pub fn lt(self, other: Fixed) -> (r: bool)
        ensures
            r == (self@ < other@),
    {
        self.raw < other.raw
    }

    /// `self <= other` on the denoted values.
    pub fn le(self, other: Fixed) -> (r: bool)
        ensures
            r == (self@ <= other@),
    {
        self.raw <= other.raw
    }

    /// `self * other` with truncation toward zero and saturation.
    pub fn mul(self, other: Fixed) -> (r: Fixed)
        ensures
            r@ == fx_mul(self@, other@),
    {
        proof {
            use_type_invariant(self);
            use_type_invariant(other);
        }
        let a: i128 = self.raw as i128;
        let b: i128 = other.raw as i128;
        proof {
            assert(-(0x40000000000000000000000000000000int) <= a * b
                <= 0x40000000000000000000000000000000int) by (nonlinear_arith)
                requires
                    -FX_BOUND <= a <= FX_BOUND,
                    -FX_BOUND <= b <= FX_BOUND,
            ;
        }
        let p: i128 = a * b;
        let neg: bool = p < 0;
        let mag: u128 = if neg {
            (-p) as u128
        } else {
            p as u128
        };
        let q: u128 = mag / (FX_SCALE as u128);
        let qc: u128 = if q > FX_BOUND as u128 {
            FX_BOUND as u128
        } else {
            q
        };
        let m: i64 = qc as i64;
        if neg {
            Fixed { raw: -m }
        } else {
            Fixed { raw: m }
        }
    }

    /// `self / other` with truncation toward zero and saturation.
    /// Fixed-point numbers have no infinity, so a zero divisor is excluded.
    pub fn div(self, other: Fixed) -> (r: Fixed)
        requires
            other@ != 0,
        ensures
            r@ == fx_div(self@, other@),
    {
        proof {
            use_type_invariant(self);
            use_type_invariant(other);
        }
        let neg: bool = (self.raw < 0) != (other.raw < 0);
        let am: u128 = if self.raw < 0 {
            (-(self.raw as i128)) as u128
        } else {
            self.raw as u128
        };
        let bm: u128 = if other.raw < 0 {
            (-(other.raw as i128)) as u128
        } else {
            other.raw as u128
        };
        proof {
            assert(am * (FX_SCALE as u128) <= 0x2000000000000000u128 * 0x100000000u128)
                by (nonlinear_arith)
                requires
                    am <= 0x2000000000000000u128,
            ;
        }
        let q: u128 = (am * (FX_SCALE as u128)) / bm;
        let qc: u128 = if q > FX_BOUND as u128 {
            FX_BOUND as u128
        } else {
            q
        };
        let m: i64 = qc as i64;
        if neg {
            Fixed { raw: -m }
        } else {
            Fixed { raw: m }
        }
    }

    /// `self / n` for a positive machine integer `n`, truncated toward zero.
    pub fn div_int(self, n: u64) -> (r: Fixed)
        requires
            0 < n,
        ensures
            r@ == fx_tdiv(self@, n as int),
    {
        proof {
            use_type_invariant(self);
        }
        let neg: bool = self.raw < 0;
        let am: u64 = if neg {
            (-self.raw) as u64
        } else {
            self.raw as u64
        };
        let q: u64 = am / n;
        proof {
            assert(q <= am);
        }
        let m: i64 = q as i64;
        if neg {
            Fixed { raw: -m }
        } else {
            Fixed { raw: m }
        }
    }
}

/// Multiplying by 1 is exact: `fx_mul(a, FX_SCALE) == a` for in-range `a`.
pub proof fn lemma_fx_mul_one(a: int)
    requires
        -FX_BOUND <= a <= FX_BOUND,
    ensures
        fx_mul(a, FX_SCALE as int) == a,
        fx_mul(FX_SCALE as int, a) == a,
{
    if a >= 0 {
        lemma_div_multiples_vanish(a, FX_SCALE as int);
        assert(a * FX_SCALE == FX_SCALE * a) by (nonlinear_arith);
    } else {
        lemma_div_multiples_vanish(-a, FX_SCALE as int);
        assert(-(a * FX_SCALE) == FX_SCALE * (-a)) by (nonlinear_arith);
        assert(-(FX_SCALE * a) == FX_SCALE * (-a)) by (nonlinear_arith);
    }
}

/// Multiplying by 0 gives 0.
pub proof fn lemma_fx_mul_zero(a: int)
    ensures
        fx_mul(a, 0) == 0,
        fx_mul(0, a) == 0,
{
    assert(a * 0 == 0) by (nonlinear_arith);
    assert(0 * a == 0) by (nonlinear_arith);
    assert(fx_tdiv(0, FX_SCALE as int) == 0);
}

/// A product of a value with itself is nonnegative.
pub proof fn lemma_fx_square_nonneg(a: int)
    ensures
        fx_mul(a, a) >= 0,
{
    assert(a * a >= 0) by (nonlinear_arith);
    assert(fx_tdiv(a * a, FX_SCALE as int) >= 0) by {
        vstd::arithmetic::div_mod::lemma_div_pos_is_pos(a * a, FX_SCALE as int);
    }
}

/// The integer square root exists and is unique.
pub proof fn lemma_isqrt_unique(n: int, r: int)
    requires
        0 <= r,
        r * r <= n,
        n < (r + 1) * (r + 1),
    ensures
        spec_isqrt(n) == r,
{
    assert(is_isqrt(n, r));
    let s = spec_isqrt(n);
    assert(is_isqrt(n, s));
    if s < r {
        assert((s + 1) * (s + 1) <= r * r) by (nonlinear_arith)
            requires
                0 <= s,
                s < r,
        ;
    } else if r < s {
        assert((r + 1) * (r + 1) <= s * s) by (nonlinear_arith)
            requires
                0 <= r,
                r < s,
        ;
    }
}

impl Fixed {
    /// Square root of a nonnegative value, truncated to raw precision.
    /// The result `r` satisfies `r^2 <= self * FX_SCALE < (r+1)^2` on raws.
    pub fn sqrt(self) -> (r: Fixed)
        requires
            self@ >= 0,
        ensures
            r@ == fx_sqrt(self@),
            r@ >= 0,
    {
        proof {
            use_type_invariant(self);
        }
        proof {
            assert(self.raw as int * (FX_SCALE as int) <= 0x2000000000000000int
                * 0x100000000int) by (nonlinear_arith)
                requires
                    0 <= self.raw as int <= 0x2000000000000000int,
            ;
        }
        let n: u128 = (self.raw as u128) * (FX_SCALE as u128);
        let mut lo: u128 = 0;
        let mut hi: u128 = 140737488355328;
        proof {
            assert(n < (140737488355328u128 + 1) * (140737488355328u128 + 1))
                by (nonlinear_arith)
                requires
                    n <= 0x2000000000000000u128 * 0x100000000u128,
            ;
        }
        while lo < hi
            invariant
                lo <= hi,
                hi <= 140737488355328,
                lo * lo <= n,
                n < (hi + 1) * (hi + 1),
            decreases hi - lo,
        {
            let mid: u128 = lo + (hi - lo + 1) / 2;
            proof {
                assert(lo < mid <= hi);
                assert(mid * mid <= 140737488355328u128 * 140737488355328u128)
                    by (nonlinear_arith)
                    requires
                        mid <= 140737488355328u128,
                ;
            }
            let sq: u128 = mid * mid;
            if sq <= n {
                lo = mid;
            } else {
                proof {
                    assert(n < mid * mid);
                }
                hi = mid - 1;
            }
        }
        proof {
            lemma_isqrt_unique(n as int, lo as int);
        }
        Fixed { raw: lo as i64 }
    }
}



/// Negating one factor negates the product exactly: truncation toward
/// zero and the symmetric saturation bound are both odd.
pub proof fn lemma_fx_mul_neg(a: int, b: int)
    ensures
        fx_mul(fx_neg(a), b) == fx_neg(fx_mul(a, b)),
{
    assert((-a) * b == -(a * b)) by (nonlinear_arith);
}

/// Multiplying by a factor between 0 and 1 cannot grow the magnitude.
pub proof fn lemma_fx_mul_unit_bound(a: int, b: int)
    requires
        0 <= b <= FX_SCALE,
    ensures
        fx_abs(fx_mul(a, b)) <= fx_abs(a),
{
    if a >= 0 {
        assert(0 <= a * b <= a * FX_SCALE) by (nonlinear_arith)
            requires
                a >= 0,
                0 <= b <= FX_SCALE,
        ;
        lemma_div_multiples_vanish(a, FX_SCALE as int);
        vstd::arithmetic::div_mod::lemma_div_is_ordered(a * b, a * FX_SCALE, FX_SCALE as int);
        vstd::arithmetic::div_mod::lemma_div_pos_is_pos(a * b, FX_SCALE as int);
        assert(a * FX_SCALE == FX_SCALE as int * a) by (nonlinear_arith);
    } else {
        assert(0 <= -(a * b) <= (-a) * FX_SCALE) by (nonlinear_arith)
            requires
                a < 0,
                0 <= b <= FX_SCALE,
        ;
        lemma_div_multiples_vanish(-a, FX_SCALE as int);
        vstd::arithmetic::div_mod::lemma_div_is_ordered(
            -(a * b),
            (-a) * FX_SCALE,
            FX_SCALE as int,
        );
        vstd::arithmetic::div_mod::lemma_div_pos_is_pos(-(a * b), FX_SCALE as int);
        assert((-a) * FX_SCALE == FX_SCALE as int * (-a)) by (nonlinear_arith);
    }
}

/// Dividing a positive value by itself gives exactly 1.
pub proof fn lemma_fx_div_self(a: int)
    requires
        0 < a,
    ensures
        fx_div(a, a) == FX_SCALE,
{
    assert(a * FX_SCALE == a * FX_SCALE);
    vstd::arithmetic::div_mod::lemma_div_multiples_vanish(FX_SCALE as int, a);
    assert(a * FX_SCALE == FX_SCALE as int * a) by (nonlinear_arith);
}

/// Dividing zero gives zero.
pub proof fn lemma_fx_div_zero(b: int)
    ensures
        fx_div(0, b) == 0,
{
    if b != 0 {
        vstd::arithmetic::div_mod::lemma_div_basics(fx_abs(b));
    }
}


/// A product of exactly representable integers multiplies exactly:
/// no rescaling remainder and no saturation.
pub proof fn lemma_fx_mul_int(a: int, b: int)
    requires
        -536870912 <= a * b <= 536870912,
    ensures
        fx_mul(a * FX_SCALE, b * FX_SCALE) == (a * b) * FX_SCALE,
{
    assert((a * FX_SCALE) * (b * FX_SCALE) == FX_SCALE as int * ((a * b) * FX_SCALE))
        by (nonlinear_arith);
    lemma_div_multiples_vanish((a * b) * FX_SCALE, FX_SCALE as int);
    if (a * b) * FX_SCALE >= 0 {
    } else {
        assert(-(FX_SCALE as int * ((a * b) * FX_SCALE)) == FX_SCALE as int * (-((a * b)
            * FX_SCALE))) by (nonlinear_arith);
        lemma_div_multiples_vanish(-((a * b) * FX_SCALE), FX_SCALE as int);
    }
    assert(-FX_BOUND <= (a * b) * FX_SCALE <= FX_BOUND) by (nonlinear_arith)
        requires
            -536870912 <= a * b <= 536870912,
    ;
}

/// Raw value of pi/2 (rounded down).
pub const FX_HALF_PI: i64 = 6746518852;

/// Raw value of pi, kept exactly twice `FX_HALF_PI` so that quadrant
/// endpoints agree exactly.
pub const FX_PI: i64 = 13493037704;

/// Raw value of 2*pi, kept exactly twice `FX_PI`.
pub const FX_TWO_PI: i64 = 26986075408;

/// Cutoff for the exponential: 21.0.  Above it the true value exceeds the
/// representable range, so the result saturates; below its negation the
/// result truncates to 0.
pub const FX_EXP_HI: i64 = 90194313216;

/// Shift an angle by whole turns into [-FX_PI, FX_PI].
pub open spec fn fx_reduce(a: int) -> int
    decreases fx_abs(a),
{
    if a > FX_PI {
        fx_reduce(a - FX_TWO_PI)
    } else if a < -FX_PI {
        fx_reduce(a + FX_TWO_PI)
    } else {
        a
    }
}

/// Fold a reduced angle into [-FX_HALF_PI, FX_HALF_PI] without changing
/// its sine.
pub open spec fn fx_fold_sin(r: int) -> int {
    if r > FX_HALF_PI {
        FX_PI - r
    } else if r < -FX_HALF_PI {
        -FX_PI - r
    } else {
        r
    }
}

/// Truncated Taylor polynomial for the sine on [-pi/2, pi/2], evaluated by
/// Horner's rule in fixed-point arithmetic:
/// y * (1 - y^2/6 * (1 - y^2/20 * (... (1 - y^2/210)))).
pub open spec fn fx_sin_poly(y: int) -> int {
    let y2 = fx_mul(y, y);
    let h7 = fx_sub(FX_SCALE as int, fx_tdiv(y2, 210));
    let h6 = fx_sub(FX_SCALE as int, fx_tdiv(fx_mul(y2, h7), 156));
    let h5 = fx_sub(FX_SCALE as int, fx_tdiv(fx_mul(y2, h6), 110));
    let h4 = fx_sub(FX_SCALE as int, fx_tdiv(fx_mul(y2, h5), 72));
    let h3 = fx_sub(FX_SCALE as int, fx_tdiv(fx_mul(y2, h4), 42));
    let h2 = fx_sub(FX_SCALE as int, fx_tdiv(fx_mul(y2, h3), 20));
    let h1 = fx_sub(FX_SCALE as int, fx_tdiv(fx_mul(y2, h2), 6));
    fx_mul(y, h1)
}

/// Truncated Taylor polynomial for the cosine on [-pi/2, pi/2]:
/// 1 - y^2/2 * (1 - y^2/12 * (... (1 - y^2/182))).
pub open spec fn fx_cos_poly(y: int) -> int {
    let y2 = fx_mul(y, y);
    let h7 = fx_sub(FX_SCALE as int, fx_tdiv(y2, 182));
    let h6 = fx_sub(FX_SCALE as int, fx_tdiv(fx_mul(y2, h7), 132));
    let h5 = fx_sub(FX_SCALE as int, fx_tdiv(fx_mul(y2, h6), 90));
    let h4 = fx_sub(FX_SCALE as int, fx_tdiv(fx_mul(y2, h5), 56));
    let h3 = fx_sub(FX_SCALE as int, fx_tdiv(fx_mul(y2, h4), 30));
    let h2 = fx_sub(FX_SCALE as int, fx_tdiv(fx_mul(y2, h3), 12));
    fx_sub(FX_SCALE as int, fx_tdiv(fx_mul(y2, h2), 2))
}

/// Raw result of the fixed-point sine.
pub open spec fn fx_sin(a: int) -> int {
    fx_sin_poly(fx_fold_sin(fx_reduce(a)))
}

/// Raw result of the fixed-point cosine.
pub open spec fn fx_cos(a: int) -> int {
    let r = fx_reduce(a);
    if r > FX_HALF_PI {
        -fx_cos_poly(FX_PI - r)
    } else if r < -FX_HALF_PI {
        -fx_cos_poly(FX_PI + r)
    } else {
        fx_cos_poly(r)
    }
}

/// Truncated Taylor polynomial for the exponential on [-1, 1]:
/// 1 + y * (1 + y/2 * (1 + y/3 * (... (1 + y/12)))).
pub open spec fn fx_exp_poly(y: int) -> int {
    let h12 = fx_add(FX_SCALE as int, fx_tdiv(y, 12));
    let h11 = fx_add(FX_SCALE as int, fx_tdiv(fx_mul(y, h12), 11));
    let h10 = fx_add(FX_SCALE as int, fx_tdiv(fx_mul(y, h11), 10));
    let h9 = fx_add(FX_SCALE as int, fx_tdiv(fx_mul(y, h10), 9));
    let h8 = fx_add(FX_SCALE as int, fx_tdiv(fx_mul(y, h9), 8));
    let h7 = fx_add(FX_SCALE as int, fx_tdiv(fx_mul(y, h8), 7));
    let h6 = fx_add(FX_SCALE as int, fx_tdiv(fx_mul(y, h7), 6));
    let h5 = fx_add(FX_SCALE as int, fx_tdiv(fx_mul(y, h6), 5));
    let h4 = fx_add(FX_SCALE as int, fx_tdiv(fx_mul(y, h5), 4));
    let h3 = fx_add(FX_SCALE as int, fx_tdiv(fx_mul(y, h4), 3));
    let h2 = fx_add(FX_SCALE as int, fx_tdiv(fx_mul(y, h3), 2));
    fx_add(FX_SCALE as int, fx_mul(y, h2))
}

/// Raw result of the fixed-point exponential: the argument is split as
/// exp(a) = exp(a/32)^32, with the polynomial on the reduced argument.
pub open spec fn fx_exp(a: int) -> int {
    if a > FX_EXP_HI {
        FX_BOUND as int
    } else if a < -FX_EXP_HI {
        0
    } else {
        let e0 = fx_exp_poly(fx_tdiv(a, 32));
        let e1 = fx_mul(e0, e0);
        let e2 = fx_mul(e1, e1);
        let e3 = fx_mul(e2, e2);
        let e4 = fx_mul(e3, e3);
        fx_mul(e4, e4)
    }
}

/// The exponential is never negative.
pub proof fn lemma_fx_exp_nonneg(a: int)
    ensures
        fx_exp(a) >= 0,
{
    if a > FX_EXP_HI {
    } else if a < -FX_EXP_HI {
    } else {
        let e0 = fx_exp_poly(fx_tdiv(a, 32));
        let e1 = fx_mul(e0, e0);
        let e2 = fx_mul(e1, e1);
        let e3 = fx_mul(e2, e2);
        let e4 = fx_mul(e3, e3);
        lemma_fx_square_nonneg(e4);
    }
}

impl Fixed {
    /// Sine of the denoted value (the argument is an angle in radians).
    pub fn sin(self) -> (r: Fixed)
        ensures
            r@ == fx_sin(self@),
    {
        proof {
            use_type_invariant(self);
        }
        let mut x: i64 = self.raw;
        while x > FX_PI
            invariant
                -FX_BOUND <= x <= FX_BOUND,
                fx_reduce(x as int) == fx_reduce(self@),
            decreases fx_abs(x as int),
        {
            x = x - FX_TWO_PI;
        }
        while x < -FX_PI
            invariant
                -FX_BOUND <= x <= FX_PI,
                fx_reduce(x as int) == fx_reduce(self@),
            decreases fx_abs(x as int),
        {
            x = x + FX_TWO_PI;
        }
        let y: i64 = if x > FX_HALF_PI {
            FX_PI - x
        } else if x < -FX_HALF_PI {
            -FX_PI - x
        } else {
            x
        };
        let yf = Fixed { raw: y };
        let y2 = yf.mul(yf);
        let one = Fixed::one();
        let mut h = one.sub(y2.div_int(210));
        h = one.sub(y2.mul(h).div_int(156));
        h = one.sub(y2.mul(h).div_int(110));
        h = one.sub(y2.mul(h).div_int(72));
        h = one.sub(y2.mul(h).div_int(42));
        h = one.sub(y2.mul(h).div_int(20));
        h = one.sub(y2.mul(h).div_int(6));
        yf.mul(h)
    }

    /// Cosine of the denoted value (the argument is an angle in radians).
    pub fn cos(self) -> (r: Fixed)
        ensures
            r@ == fx_cos(self@),
    {
        proof {
            use_type_invariant(self);
        }
        let mut x: i64 = self.raw;
        while x > FX_PI
            invariant
                -FX_BOUND <= x <= FX_BOUND,
                fx_reduce(x as int) == fx_reduce(self@),
            decreases fx_abs(x as int),
        {
            x = x - FX_TWO_PI;
        }
        while x < -FX_PI
            invariant
                -FX_BOUND <= x <= FX_PI,
                fx_reduce(x as int) == fx_reduce(self@),
            decreases fx_abs(x as int),
        {
            x = x + FX_TWO_PI;
        }
        let neg: bool = x > FX_HALF_PI || x < -FX_HALF_PI;
        let y: i64 = if x > FX_HALF_PI {
            FX_PI - x
        } else if x < -FX_HALF_PI {
            FX_PI + x
        } else {
            x
        };
        let yf = Fixed { raw: y };
        let y2 = yf.mul(yf);
        let one = Fixed::one();
        let mut h = one.sub(y2.div_int(182));
        h = one.sub(y2.mul(h).div_int(132));
        h = one.sub(y2.mul(h).div_int(90));
        h = one.sub(y2.mul(h).div_int(56));
        h = one.sub(y2.mul(h).div_int(30));
        h = one.sub(y2.mul(h).div_int(12));
        let c = one.sub(y2.mul(h).div_int(2));
        if neg {
            c.neg()
        } else {
            c
        }
    }

    /// Exponential of the denoted value, saturating above and truncating
    /// to 0 below the representable range.
    pub fn exp(self) -> (r: Fixed)
        ensures
            r@ == fx_exp(self@),
    {
        proof {
            use_type_invariant(self);
        }
        if self.raw > FX_EXP_HI {
            return Fixed { raw: FX_BOUND };
        }
        if self.raw < -FX_EXP_HI {
            return Fixed { raw: 0 };
        }
        let y = self.div_int(32);
        let one = Fixed::one();
        let mut h = one.add(y.div_int(12));
        h = one.add(y.mul(h).div_int(11));
        h = one.add(y.mul(h).div_int(10));
        h = one.add(y.mul(h).div_int(9));
        h = one.add(y.mul(h).div_int(8));
        h = one.add(y.mul(h).div_int(7));
        h = one.add(y.mul(h).div_int(6));
        h = one.add(y.mul(h).div_int(5));
        h = one.add(y.mul(h).div_int(4));
        h = one.add(y.mul(h).div_int(3));
        h = one.add(y.mul(h).div_int(2));
        let e0 = one.add(y.mul(h));
        let e1 = e0.mul(e0);
        let e2 = e1.mul(e1);
        let e3 = e2.mul(e2);
        let e4 = e3.mul(e3);
        e4.mul(e4)
    }
}


} // verus!
