//! The domain generator: transfinite interpolation (a Coons patch) of
//! four boundary curves into a structured grid of physical coordinates.
//!
//! Construction first checks that the four curves close into a consistent
//! loop (each curve's arc-length-sampled endpoints must meet the next
//! curve's, within tolerance), inferring each curve's traversal direction;
//! an inconsistent loop is surfaced as `GridError::GeometryInconsistency`.
//! The blend then samples the boundaries at uniform arc-length fractions
//! and mixes edge and corner contributions so that the boundary rows and
//! columns of the grid reproduce the sampled boundary points.

use vstd::prelude::*;
use crate::fixed::{
    Fixed, fx_abs, fx_add, fx_div, fx_mul, fx_neg, fx_sub, FX_SCALE, FX_BOUND,
    lemma_fx_mul_one, lemma_fx_mul_zero, lemma_fx_mul_neg, lemma_fx_mul_unit_bound,
    lemma_fx_div_self, lemma_fx_div_zero,
};
use crate::errors::GridError;
use crate::geometry::point::{
    Point, point_add, point_sub, point_mul, point_neg, point_eq_eps, POINT_EPS,
};
use crate::geometry::curves::{Curves, curve_xy};

verus! {

/// Uniform reference coordinate of index `i` out of `n`: i / (n - 1).
pub open spec fn spec_frac(i: int, n: int) -> int {
    fx_div(i * FX_SCALE, (n - 1) * FX_SCALE)
}

/// The blending weight 1 - s.
pub open spec fn spec_psi0(s: int) -> int {
    fx_sub(FX_SCALE as int, s)
}

/// The blending weight s.
pub open spec fn spec_psi1(s: int) -> int {
    s
}

/// Direction-corrected sampling parameter: reversed when the stored
/// direction of the curve equals the direction of the opposite boundary.
pub open spec fn spec_xieta(s: int, dir: bool, dir_opposite: bool) -> int {
    if dir == dir_opposite {
        fx_sub(FX_SCALE as int, s)
    } else {
        s
    }
}

/// Do the endpoints of `a` at fraction `ta` and of `b` at fraction `tb`
/// coincide within the endpoint-matching tolerance?
pub open spec fn spec_touches(a: Curves, b: Curves, ta: int, tb: int) -> bool {
    point_eq_eps(curve_xy(a, ta), curve_xy(b, tb), POINT_EPS as int)
}

/// Does curve `i` of the loop meet curve `i+1` at any pair of endpoints?
pub open spec fn spec_matched_at(bnd: Seq<Curves>, i: int) -> bool {
    let a = bnd[i];
    let b = bnd[(i + 1) % 4];
    spec_touches(a, b, 0, 0) || spec_touches(a, b, 0, FX_SCALE as int) || spec_touches(
        a,
        b,
        FX_SCALE as int,
        0,
    ) || spec_touches(a, b, FX_SCALE as int, FX_SCALE as int)
}

/// The four curves close into a loop: every consecutive pair meets.
pub open spec fn spec_consistent(bnd: Seq<Curves>) -> bool {
    forall|i: int| 0 <= i < 4 ==> spec_matched_at(bnd, i)
}

/// The inferred traversal direction of curve `i`: `false` when its start
/// (fraction 0) touches the next curve, `true` otherwise.
pub open spec fn spec_dir_at(bnd: Seq<Curves>, i: int) -> bool {
    let a = bnd[i];
    let b = bnd[(i + 1) % 4];
    if spec_touches(a, b, 0, 0) || spec_touches(a, b, 0, FX_SCALE as int) {
        false
    } else {
        true
    }
}

/// The inferred traversal directions of the four curves.
pub open spec fn spec_directions(bnd: Seq<Curves>) -> Seq<bool> {
    Seq::new(4, |i: int| spec_dir_at(bnd, i))
}

/// Boundary sample of curve 0 at index `i` of `n`.
pub open spec fn spec_gamma0(bnd: Seq<Curves>, n: int, i: int) -> (int, int) {
    curve_xy(bnd[0], spec_frac(i, n))
}

/// Boundary sample of curve 2 at index `i` of `n`, direction-corrected
/// against curve 0.
pub open spec fn spec_gamma2(bnd: Seq<Curves>, dirs: Seq<bool>, n: int, i: int) -> (int, int) {
    curve_xy(bnd[2], spec_xieta(spec_frac(i, n), dirs[2], dirs[0]))
}

/// Boundary sample of curve 1 at index `j` of `m`.
pub open spec fn spec_gamma1(bnd: Seq<Curves>, m: int, j: int) -> (int, int) {
    curve_xy(bnd[1], spec_frac(j, m))
}

/// Boundary sample of curve 3 at index `j` of `m`, direction-corrected
/// against curve 1.
pub open spec fn spec_gamma3(bnd: Seq<Curves>, dirs: Seq<bool>, m: int, j: int) -> (int, int) {
    curve_xy(bnd[3], spec_xieta(spec_frac(j, m), dirs[1], dirs[3]))
}

/// The transfinite-interpolation blend at grid index (i, j): the four
/// edge contributions, minus the corner contributions that both edge
/// terms would otherwise count twice.
pub open spec fn spec_grid_point(
    bnd: Seq<Curves>,
    dirs: Seq<bool>,
    n: int,
    m: int,
    i: int,
    j: int,
) -> (int, int) {
    let xi = spec_frac(i, n);
    let eta = spec_frac(j, m);
    let edge = point_add(
        point_add(
            point_add(
                point_mul(spec_gamma3(bnd, dirs, m, j), spec_psi0(xi)),
                point_mul(spec_gamma1(bnd, m, j), spec_psi1(xi)),
            ),
            point_mul(spec_gamma0(bnd, n, i), spec_psi0(eta)),
        ),
        point_mul(spec_gamma2(bnd, dirs, n, i), spec_psi1(eta)),
    );
    let corner = point_sub(
        point_sub(
            point_sub(
                point_mul(
                    point_mul(point_neg(spec_gamma0(bnd, n, 0)), spec_psi0(xi)),
                    spec_psi0(eta),
                ),
                point_mul(point_mul(spec_gamma2(bnd, dirs, n, 0), spec_psi0(xi)), spec_psi1(eta)),
            ),
            point_mul(point_mul(spec_gamma0(bnd, n, n - 1), spec_psi1(xi)), spec_psi0(eta)),
        ),
        point_mul(point_mul(spec_gamma2(bnd, dirs, n, n - 1), spec_psi1(xi)), spec_psi1(eta)),
    );
    point_add(edge, corner)
}


/// Bound under which a boundary sample is small enough that no blending
/// sum can saturate (an eighth of the representable range).
pub const SAMPLE_BOUND: i64 = 288230376151711744;

/// Both coordinates of a sample lie within `SAMPLE_BOUND`.
pub open spec fn sample_in_range(p: (int, int)) -> bool {
    fx_abs(p.0) <= SAMPLE_BOUND && fx_abs(p.1) <= SAMPLE_BOUND
}

/// The uniform reference coordinates are exact at the ends and stay in
/// [0, 1] in between.
pub proof fn lemma_spec_frac_range(i: int, n: int)
    requires
        2 <= n,
        0 <= i <= n - 1,
    ensures
        0 <= spec_frac(i, n) <= FX_SCALE,
        i == 0 ==> spec_frac(i, n) == 0,
        i == n - 1 ==> spec_frac(i, n) == FX_SCALE,
{
    let d = (n - 1) * FX_SCALE;
    assert(0 < (n - 1) * FX_SCALE && i * FX_SCALE <= (n - 1) * FX_SCALE && 0 <= i * FX_SCALE)
        by (nonlinear_arith)
        requires
            2 <= n,
            0 <= i <= n - 1,
    ;
    if i == 0 {
        lemma_fx_div_zero(d);
    } else {
        assert(0 <= i * FX_SCALE * FX_SCALE) by (nonlinear_arith)
            requires
                0 <= i * FX_SCALE,
        ;
        assert(i * FX_SCALE * FX_SCALE <= ((n - 1) * FX_SCALE) * FX_SCALE) by (nonlinear_arith)
            requires
                i * FX_SCALE <= (n - 1) * FX_SCALE,
        ;
        vstd::arithmetic::div_mod::lemma_div_pos_is_pos(i * FX_SCALE * FX_SCALE, d);
        vstd::arithmetic::div_mod::lemma_div_is_ordered(
            i * FX_SCALE * FX_SCALE,
            d * FX_SCALE,
            d,
        );
        vstd::arithmetic::div_mod::lemma_div_multiples_vanish(FX_SCALE as int, d);
        assert(d * FX_SCALE == FX_SCALE as int * d) by (nonlinear_arith);
        if i == n - 1 {
            lemma_fx_div_self(d);
        }
    }
}

/// One edge contribution and its matching corner contribution cancel
/// exactly: the same product appears once positively (through a
/// direction-corrected sample) and once negatively (through the corner
/// sample scaled by a unit weight).
proof fn lemma_point_products_cancel(p: (int, int), w: int, s: int)
    requires
        0 <= w <= FX_SCALE,
        sample_in_range(p),
        s == FX_SCALE,
    ensures
        point_mul(point_mul(point_neg(p), s), w) == point_neg(point_mul(p, w)),
        fx_abs(point_mul(p, w).0) <= SAMPLE_BOUND,
        fx_abs(point_mul(p, w).1) <= SAMPLE_BOUND,
{
    lemma_fx_mul_one(fx_neg(p.0));
    lemma_fx_mul_one(fx_neg(p.1));
    lemma_fx_mul_neg(p.0, w);
    lemma_fx_mul_neg(p.1, w);
    lemma_fx_mul_unit_bound(p.0, w);
    lemma_fx_mul_unit_bound(p.1, w);
}

/// Transfinite interpolation reproduces the eta-direction boundaries
/// exactly: the grid row at i = 0 is curve 3's direction-corrected
/// sample row, and the row at i = n - 1 is curve 1's sample row,
/// whatever the four curves are, as long as the involved samples stay
/// inside `SAMPLE_BOUND`.
pub proof fn lemma_coons_reproduces_eta_boundaries(
    bnd: Seq<Curves>,
    dirs: Seq<bool>,
    n: int,
    m: int,
    j: int,
)
    requires
        2 <= n,
        2 <= m,
        0 <= j < m,
        sample_in_range(spec_gamma3(bnd, dirs, m, j)),
        sample_in_range(spec_gamma1(bnd, m, j)),
        sample_in_range(spec_gamma0(bnd, n, 0)),
        sample_in_range(spec_gamma2(bnd, dirs, n, 0)),
        sample_in_range(spec_gamma0(bnd, n, n - 1)),
        sample_in_range(spec_gamma2(bnd, dirs, n, n - 1)),
    ensures
        spec_grid_point(bnd, dirs, n, m, 0, j) == spec_gamma3(bnd, dirs, m, j),
        spec_grid_point(bnd, dirs, n, m, n - 1, j) == spec_gamma1(bnd, m, j),
{
    let eta = spec_frac(j, m);
    lemma_spec_frac_range(j, m);
    let w0 = spec_psi0(eta);
    let w1 = spec_psi1(eta);
    assert(0 <= w0 <= FX_SCALE && 0 <= w1 <= FX_SCALE);
    let g3 = spec_gamma3(bnd, dirs, m, j);
    let g1 = spec_gamma1(bnd, m, j);
    let g0a = spec_gamma0(bnd, n, 0);
    let g2a = spec_gamma2(bnd, dirs, n, 0);
    let g0b = spec_gamma0(bnd, n, n - 1);
    let g2b = spec_gamma2(bnd, dirs, n, n - 1);

    // Row i = 0: the xi weights are exactly (1, 0).
    lemma_spec_frac_range(0, n);
    assert(spec_frac(0, n) == 0);
    lemma_fx_mul_one(g3.0);
    lemma_fx_mul_one(g3.1);
    lemma_fx_mul_zero(g1.0);
    lemma_fx_mul_zero(g1.1);
    lemma_point_products_cancel(g0a, w0, FX_SCALE as int);
    lemma_point_products_cancel(g2a, w1, FX_SCALE as int);
    lemma_fx_mul_zero(g0b.0);
    lemma_fx_mul_zero(g0b.1);
    lemma_fx_mul_zero(g2b.0);
    lemma_fx_mul_zero(g2b.1);
    lemma_fx_mul_zero(w0);
    lemma_fx_mul_zero(w1);
    lemma_fx_mul_one(g2a.0);
    lemma_fx_mul_one(g2a.1);
    assert(spec_grid_point(bnd, dirs, n, m, 0, j) == g3);

    // Row i = n - 1: the xi weights are exactly (0, 1).
    lemma_spec_frac_range(n - 1, n);
    assert(spec_frac(n - 1, n) == FX_SCALE);
    lemma_fx_mul_zero(g3.0);
    lemma_fx_mul_zero(g3.1);
    lemma_fx_mul_one(g1.0);
    lemma_fx_mul_one(g1.1);
    lemma_fx_mul_zero(fx_neg(g0a.0));
    lemma_fx_mul_zero(fx_neg(g0a.1));
    lemma_fx_mul_zero(g2a.0);
    lemma_fx_mul_zero(g2a.1);
    lemma_point_products_cancel(g0b, w0, FX_SCALE as int);
    lemma_point_products_cancel(g2b, w1, FX_SCALE as int);
    lemma_fx_mul_one(g0b.0);
    lemma_fx_mul_one(g0b.1);
    lemma_fx_mul_one(g2b.0);
    lemma_fx_mul_one(g2b.1);
    assert(spec_grid_point(bnd, dirs, n, m, n - 1, j) == g1);
}


/// Transfinite interpolation reproduces the xi-direction boundaries:
/// the grid column at j = 0 is curve 0's sample column and the column
/// at j = m - 1 is curve 2's direction-corrected sample column,
/// provided the loop's corner samples coincide exactly (they coincide
/// within tolerance for any consistent loop; where they differ the
/// column is off by the blended corner defect) and the involved samples
/// stay inside `SAMPLE_BOUND`.
pub proof fn lemma_coons_reproduces_xi_boundaries(
    bnd: Seq<Curves>,
    dirs: Seq<bool>,
    n: int,
    m: int,
    i: int,
)
    requires
        2 <= n,
        2 <= m,
        0 <= i < n,
        spec_gamma3(bnd, dirs, m, 0) == spec_gamma0(bnd, n, 0),
        spec_gamma1(bnd, m, 0) == spec_gamma0(bnd, n, n - 1),
        spec_gamma3(bnd, dirs, m, m - 1) == spec_gamma2(bnd, dirs, n, 0),
        spec_gamma1(bnd, m, m - 1) == spec_gamma2(bnd, dirs, n, n - 1),
        sample_in_range(spec_gamma0(bnd, n, i)),
        sample_in_range(spec_gamma2(bnd, dirs, n, i)),
        sample_in_range(spec_gamma0(bnd, n, 0)),
        sample_in_range(spec_gamma0(bnd, n, n - 1)),
        sample_in_range(spec_gamma2(bnd, dirs, n, 0)),
        sample_in_range(spec_gamma2(bnd, dirs, n, n - 1)),
    ensures
        spec_grid_point(bnd, dirs, n, m, i, 0) == spec_gamma0(bnd, n, i),
        spec_grid_point(bnd, dirs, n, m, i, m - 1) == spec_gamma2(bnd, dirs, n, i),
{
    let xi = spec_frac(i, n);
    lemma_spec_frac_range(i, n);
    let p0 = spec_psi0(xi);
    let p1 = spec_psi1(xi);
    assert(0 <= p0 <= FX_SCALE && 0 <= p1 <= FX_SCALE);
    let g0i = spec_gamma0(bnd, n, i);
    let g2i = spec_gamma2(bnd, dirs, n, i);
    let g0a = spec_gamma0(bnd, n, 0);
    let g0b = spec_gamma0(bnd, n, n - 1);
    let g2a = spec_gamma2(bnd, dirs, n, 0);
    let g2b = spec_gamma2(bnd, dirs, n, n - 1);

    lemma_fx_mul_unit_bound(fx_neg(g0a.0), p0);
    lemma_fx_mul_unit_bound(fx_neg(g0a.1), p0);
    lemma_fx_mul_unit_bound(g0a.0, p0);
    lemma_fx_mul_unit_bound(g0a.1, p0);
    lemma_fx_mul_unit_bound(g0b.0, p1);
    lemma_fx_mul_unit_bound(g0b.1, p1);
    lemma_fx_mul_unit_bound(g2a.0, p0);
    lemma_fx_mul_unit_bound(g2a.1, p0);
    lemma_fx_mul_unit_bound(g2b.0, p1);
    lemma_fx_mul_unit_bound(g2b.1, p1);
    lemma_fx_mul_neg(g0a.0, p0);
    lemma_fx_mul_neg(g0a.1, p0);

    // Column j = 0: the eta weights are exactly (1, 0).
    lemma_spec_frac_range(0, m);
    assert(spec_frac(0, m) == 0);
    lemma_fx_mul_one(g0i.0);
    lemma_fx_mul_one(g0i.1);
    lemma_fx_mul_zero(g2i.0);
    lemma_fx_mul_zero(g2i.1);
    lemma_fx_mul_one(fx_mul(fx_neg(g0a.0), p0));
    lemma_fx_mul_one(fx_mul(fx_neg(g0a.1), p0));
    lemma_fx_mul_one(fx_mul(g0b.0, p1));
    lemma_fx_mul_one(fx_mul(g0b.1, p1));
    lemma_fx_mul_zero(fx_mul(g2a.0, p0));
    lemma_fx_mul_zero(fx_mul(g2a.1, p0));
    lemma_fx_mul_zero(fx_mul(g2b.0, p1));
    lemma_fx_mul_zero(fx_mul(g2b.1, p1));
    assert(spec_grid_point(bnd, dirs, n, m, i, 0) == g0i);

    // Column j = m - 1: the eta weights are exactly (0, 1).
    lemma_spec_frac_range(m - 1, m);
    assert(spec_frac(m - 1, m) == FX_SCALE);
    lemma_fx_mul_zero(g0i.0);
    lemma_fx_mul_zero(g0i.1);
    lemma_fx_mul_one(g2i.0);
    lemma_fx_mul_one(g2i.1);
    lemma_fx_mul_one(fx_mul(g2a.0, p0));
    lemma_fx_mul_one(fx_mul(g2a.1, p0));
    lemma_fx_mul_one(fx_mul(g2b.0, p1));
    lemma_fx_mul_one(fx_mul(g2b.1, p1));
    assert(spec_grid_point(bnd, dirs, n, m, i, m - 1) == g2i);
}

/// A structured grid bounded by four curves: the curves, their inferred
/// traversal directions, the resolution, and the dense coordinate arrays.
pub struct Domain {
    boundary: Vec<Curves>,
    boundary_directions: Vec<bool>,
    n: u8,
    m: u8,
    x: Vec<Fixed>,
    y: Vec<Fixed>,
}

impl Domain {
    /// The arrays always match the resolution, and there are always
    /// exactly four curves with their four directions.
    #[verifier::type_invariant]
    pub closed spec fn wf(self) -> bool {
        &&& self.boundary@.len() == 4
        &&& self.boundary_directions@.len() == 4
        &&& 2 <= self.n
        &&& 2 <= self.m
        &&& self.x@.len() == self.n as int * self.m as int
        &&& self.y@.len() == self.n as int * self.m as int
    }

    /// Amount of points in the x-direction.
    pub closed spec fn spec_n(&self) -> int {
        self.n as int
    }

    /// Amount of points in the y-direction.
    pub closed spec fn spec_m(&self) -> int {
        self.m as int
    }

    /// The boundary curve of the given index.
    pub closed spec fn curve(&self, i: int) -> Curves {
        self.boundary@[i]
    }

    /// The inferred traversal direction of the given curve.
    pub closed spec fn direction(&self, i: int) -> bool {
        self.boundary_directions@[i]
    }

    /// The stored x coordinate at grid index (i, j).
    pub closed spec fn grid_x(&self, i: int, j: int) -> int {
        self.x@[i * self.spec_m() + j]@
    }

    /// The stored y coordinate at grid index (i, j).
    pub closed spec fn grid_y(&self, i: int, j: int) -> int {
        self.y@[i * self.spec_m() + j]@
    }

    /// Checks whether the curves making up the boundary end where the
    /// following curve starts, and infers each curve's traversal
    /// direction from which endpoints meet.
    fn consistency_check(boundary: &Vec<Curves>) -> (r: (bool, Vec<bool>))
        requires
            boundary@.len() == 4,
        ensures
            r.1@.len() == 4,
            r.0 == spec_consistent(boundary@),
            r.0 ==> r.1@ =~= spec_directions(boundary@),
    {
        let mut boundary_directions: Vec<bool> = Vec::new();
        boundary_directions.push(true);
        boundary_directions.push(true);
        boundary_directions.push(true);
        boundary_directions.push(true);
        let zero = Fixed::zero();
        let one = Fixed::one();
        let mut i: usize = 0;
        while i < 4
            invariant
                boundary@.len() == 4,
                boundary_directions@.len() == 4,
                zero@ == 0,
                one@ == FX_SCALE,
                0 <= i <= 4,
                forall|k: int| 0 <= k < i ==> #[trigger] spec_matched_at(boundary@, k),
                forall|k: int|
                    0 <= k < i ==> boundary_directions@[k] == spec_dir_at(boundary@, k),
                forall|k: int| i <= k < 4 ==> boundary_directions@[k] == true,
            decreases 4 - i,
        {
            let a = &boundary[i];
            let b = &boundary[(i + 1) % 4];
            let a0 = a.xy(zero);
            let a1 = a.xy(one);
            let b0 = b.xy(zero);
            let b1 = b.xy(one);
            let c00 = a0.equal(&b0);
            let c01 = a0.equal(&b1);
            let c10 = a1.equal(&b0);
            let c11 = a1.equal(&b1);
            proof {
                assert(c00 == spec_touches(*a, *b, 0, 0));
                assert(c01 == spec_touches(*a, *b, 0, FX_SCALE as int));
                assert(c10 == spec_touches(*a, *b, FX_SCALE as int, 0));
                assert(c11 == spec_touches(*a, *b, FX_SCALE as int, FX_SCALE as int));
            }
            if c00 || c01 {
                boundary_directions.set(i, false);
            } else if c10 || c11 {
                boundary_directions.set(i, true);
            } else {
                proof {
                    assert(!spec_matched_at(boundary@, i as int));
                }
                return (false, boundary_directions);
            }
            i = i + 1;
        }
        (true, boundary_directions)
    }

    /// Generates a domain bounded by four curves at resolution (n, m),
    /// or reports the geometry as inconsistent.
    #[verifier::rlimit(60)]
    pub fn new(boundary: Vec<Curves>, n: u8, m: u8) -> (r: Result<Domain, GridError>)
        requires
            boundary@.len() == 4,
            2 <= n,
            2 <= m,
        ensures
            match r {
                Ok(d) => {
                    &&& spec_consistent(boundary@)
                    &&& d.spec_n() == n
                    &&& d.spec_m() == m
                    &&& forall|k: int| 0 <= k < 4 ==> #[trigger] d.curve(k) == boundary@[k]
                    &&& forall|k: int|
                        0 <= k < 4 ==> #[trigger] d.direction(k) == spec_dir_at(boundary@, k)
                    &&& forall|i: int, j: int|
                        0 <= i < n && 0 <= j < m ==> #[trigger] d.grid_x(i, j)
                            == spec_grid_point(
                            boundary@,
                            spec_directions(boundary@),
                            n as int,
                            m as int,
                            i,
                            j,
                        ).0
                    &&& forall|i: int, j: int|
                        0 <= i < n && 0 <= j < m ==> #[trigger] d.grid_y(i, j)
                            == spec_grid_point(
                            boundary@,
                            spec_directions(boundary@),
                            n as int,
                            m as int,
                            i,
                            j,
                        ).1
                },
                Err(e) => {
                    &&& e == GridError::GeometryInconsistency
                    &&& !spec_consistent(boundary@)
                },
            },
    {
        let (consistent, boundary_directions) = Self::consistency_check(&boundary);
        if !consistent {
            return Err(GridError::GeometryInconsistency);
        }
        let ghost bnd = boundary@;
        let ghost dirs = spec_directions(boundary@);
        let one = Fixed::one();
        let nf = Fixed::from_int(n as i64 - 1);
        let mf = Fixed::from_int(m as i64 - 1);

        // Boundary samples at uniform arc-length fractions, with the
        // direction correction applied to the opposite boundaries.
        let mut g0: Vec<Point> = Vec::new();
        let mut g2: Vec<Point> = Vec::new();
        let mut i: usize = 0;
        while i < n as usize
            invariant
                boundary@ == bnd,
                bnd.len() == 4,
                dirs == spec_directions(bnd),
                boundary_directions@ =~= dirs,
                one@ == FX_SCALE,
                2 <= n,
                nf@ == (n - 1) * FX_SCALE,
                g0@.len() == i,
                g2@.len() == i,
                0 <= i <= n,
                forall|k: int| 0 <= k < i ==> (#[trigger] g0@[k])@ == spec_gamma0(bnd, n as int, k),
                forall|k: int|
                    0 <= k < i ==> (#[trigger] g2@[k])@ == spec_gamma2(bnd, dirs, n as int, k),
            decreases n as int - i,
        {
            let xi = Fixed::from_int(i as i64).div(nf);
            g0.push(boundary[0].xy(xi));
            let xi2 = if boundary_directions[2] == boundary_directions[0] {
                one.sub(xi)
            } else {
                xi
            };
            g2.push(boundary[2].xy(xi2));
            i = i + 1;
        }
        let mut g1: Vec<Point> = Vec::new();
        let mut g3: Vec<Point> = Vec::new();
        let mut j: usize = 0;
        while j < m as usize
            invariant
                boundary@ == bnd,
                bnd.len() == 4,
                dirs == spec_directions(bnd),
                boundary_directions@ =~= dirs,
                one@ == FX_SCALE,
                2 <= m,
                mf@ == (m - 1) * FX_SCALE,
                g1@.len() == j,
                g3@.len() == j,
                0 <= j <= m,
                forall|k: int| 0 <= k < j ==> (#[trigger] g1@[k])@ == spec_gamma1(bnd, m as int, k),
                forall|k: int|
                    0 <= k < j ==> (#[trigger] g3@[k])@ == spec_gamma3(bnd, dirs, m as int, k),
            decreases m as int - j,
        {
            let eta = Fixed::from_int(j as i64).div(mf);
            g1.push(boundary[1].xy(eta));
            let eta2 = if boundary_directions[1] == boundary_directions[3] {
                one.sub(eta)
            } else {
                eta
            };
            g3.push(boundary[3].xy(eta2));
            j = j + 1;
        }

        // The Coons-patch blend at every grid index.
        let mut x: Vec<Fixed> = Vec::new();
        let mut y: Vec<Fixed> = Vec::new();
        let mut i: usize = 0;
        while i < n as usize
            invariant
                bnd.len() == 4,
                dirs == spec_directions(bnd),
                one@ == FX_SCALE,
                2 <= n,
                2 <= m,
                nf@ == (n - 1) * FX_SCALE,
                mf@ == (m - 1) * FX_SCALE,
                g0@.len() == n as int,
                g2@.len() == n as int,
                g1@.len() == m as int,
                g3@.len() == m as int,
                forall|k: int|
                    0 <= k < n as int ==> (#[trigger] g0@[k])@ == spec_gamma0(bnd, n as int, k),
                forall|k: int|
                    0 <= k < n as int ==> (#[trigger] g2@[k])@ == spec_gamma2(
                        bnd,
                        dirs,
                        n as int,
                        k,
                    ),
                forall|k: int|
                    0 <= k < m as int ==> (#[trigger] g1@[k])@ == spec_gamma1(bnd, m as int, k),
                forall|k: int|
                    0 <= k < m as int ==> (#[trigger] g3@[k])@ == spec_gamma3(
                        bnd,
                        dirs,
                        m as int,
                        k,
                    ),
                0 <= i <= n,
                x@.len() == i * m as int,
                y@.len() == i * m as int,
                forall|i2: int, j2: int|
                    0 <= i2 < i && 0 <= j2 < m as int ==> x@[i2 * (m as int) + j2]@
                        == #[trigger] spec_grid_point(bnd, dirs, n as int, m as int, i2, j2).0,
                forall|i2: int, j2: int|
                    0 <= i2 < i && 0 <= j2 < m as int ==> y@[i2 * (m as int) + j2]@
                        == #[trigger] spec_grid_point(bnd, dirs, n as int, m as int, i2, j2).1,
            decreases n as int - i,
        {
            let xi = Fixed::from_int(i as i64).div(nf);
            let psi0_xi = one.sub(xi);
            let mut j: usize = 0;
            while j < m as usize
                invariant
                    bnd.len() == 4,
                    dirs == spec_directions(bnd),
                    one@ == FX_SCALE,
                    2 <= n,
                    2 <= m,
                    nf@ == (n - 1) * FX_SCALE,
                    mf@ == (m - 1) * FX_SCALE,
                    g0@.len() == n as int,
                    g2@.len() == n as int,
                    g1@.len() == m as int,
                    g3@.len() == m as int,
                    forall|k: int|
                        0 <= k < n as int ==> (#[trigger] g0@[k])@ == spec_gamma0(bnd, n as int, k),
                    forall|k: int|
                        0 <= k < n as int ==> (#[trigger] g2@[k])@ == spec_gamma2(
                            bnd,
                            dirs,
                            n as int,
                            k,
                        ),
                    forall|k: int|
                        0 <= k < m as int ==> (#[trigger] g1@[k])@ == spec_gamma1(bnd, m as int, k),
                    forall|k: int|
                        0 <= k < m as int ==> (#[trigger] g3@[k])@ == spec_gamma3(
                            bnd,
                            dirs,
                            m as int,
                            k,
                        ),
                    0 <= i < n,
                    0 <= j <= m,
                    xi@ == spec_frac(i as int, n as int),
                    psi0_xi@ == spec_psi0(spec_frac(i as int, n as int)),
                    x@.len() == i * (m as int) + j,
                    y@.len() == i * (m as int) + j,
                    forall|i2: int, j2: int|
                        0 <= i2 < i && 0 <= j2 < m as int ==> x@[i2 * (m as int) + j2]@
                            == #[trigger] spec_grid_point(bnd, dirs, n as int, m as int, i2, j2).0,
                    forall|i2: int, j2: int|
                        0 <= i2 < i && 0 <= j2 < m as int ==> y@[i2 * (m as int) + j2]@
                            == #[trigger] spec_grid_point(bnd, dirs, n as int, m as int, i2, j2).1,
                    forall|j2: int|
                        0 <= j2 < j ==> x@[i as int * (m as int) + j2]@ == #[trigger]
                            spec_grid_point(bnd, dirs, n as int, m as int, i as int, j2).0,
                    forall|j2: int|
                        0 <= j2 < j ==> y@[i as int * (m as int) + j2]@ == #[trigger]
                            spec_grid_point(bnd, dirs, n as int, m as int, i as int, j2).1,
                decreases m as int - j,
            {
                let eta = Fixed::from_int(j as i64).div(mf);
                let psi0_eta = one.sub(eta);
                let edge_contr = g3[j].mul(psi0_xi).add(g1[j].mul(xi)).add(
                    g0[i].mul(psi0_eta),
                ).add(g2[i].mul(eta));
                let corner_contr = g0[0].neg().mul(psi0_xi).mul(psi0_eta).sub(
                    g2[0].mul(psi0_xi).mul(eta),
                ).sub(g0[n as usize - 1].mul(xi).mul(psi0_eta)).sub(
                    g2[n as usize - 1].mul(xi).mul(eta),
                );
                let xy_value = edge_contr.add(corner_contr);
                x.push(xy_value.get_x());
                y.push(xy_value.get_y());
                proof {
                    assert(x@.len() == i * (m as int) + j + 1);
                    assert(xy_value@ == spec_grid_point(
                        bnd,
                        dirs,
                        n as int,
                        m as int,
                        i as int,
                        j as int,
                    ));
                    assert forall|i2: int, j2: int|
                        0 <= i2 < i as int && 0 <= j2 < m as int implies x@[i2 * (m as int) + j2]@
                        == #[trigger] spec_grid_point(bnd, dirs, n as int, m as int, i2, j2).0
                        && y@[i2 * (m as int) + j2]@ == spec_grid_point(
                        bnd,
                        dirs,
                        n as int,
                        m as int,
                        i2,
                        j2,
                    ).1 by {
                        assert(i2 * (m as int) + j2 < i as int * (m as int)) by (nonlinear_arith)
                            requires
                                0 <= i2 < i as int,
                                0 <= j2 < m as int,
                        ;
                    }
                    assert forall|i2: int, j2: int|
                        0 <= i2 < i as int && 0 <= j2 < m as int implies y@[i2 * (m as int) + j2]@
                        == #[trigger] spec_grid_point(bnd, dirs, n as int, m as int, i2, j2).1 by {
                        assert(i2 * (m as int) + j2 < i as int * (m as int)) by (nonlinear_arith)
                            requires
                                0 <= i2 < i as int,
                                0 <= j2 < m as int,
                        ;
                    }
                }
                j = j + 1;
            }
            i = i + 1;
            proof {
                assert(x@.len() == (i - 1) * (m as int) + m == i * (m as int)) by (nonlinear_arith)
                    requires
                        x@.len() == (i - 1) * (m as int) + (m as int),
                ;
                assert(y@.len() == i * (m as int)) by (nonlinear_arith)
                    requires
                        y@.len() == (i - 1) * (m as int) + (m as int),
                ;
            }
        }
        let d = Domain { boundary, boundary_directions, n, m, x, y };
        Ok(d)
    }

    /// Amount of points in the x-direction of the domain (always at
    /// least 2).
    pub fn get_n(&self) -> (r: u8)
        ensures
            r == self.spec_n(),
            2 <= r,
    {
        proof {
            use_type_invariant(self);
        }
        self.n
    }

    /// Amount of points in the y-direction of the domain (always at
    /// least 2).
    pub fn get_m(&self) -> (r: u8)
        ensures
            r == self.spec_m(),
            2 <= r,
    {
        proof {
            use_type_invariant(self);
        }
        self.m
    }

    /// The boundary curve of the given index.
    pub fn get_curve(&self, i: usize) -> (r: &Curves)
        requires
            i < 4,
        ensures
            *r == self.curve(i as int),
    {
        proof {
            use_type_invariant(self);
        }
        &self.boundary[i]
    }

    /// The inferred traversal direction of the given boundary curve.
    pub fn get_direction(&self, i: usize) -> (r: bool)
        requires
            i < 4,
        ensures
            r == self.direction(i as int),
    {
        proof {
            use_type_invariant(self);
        }
        self.boundary_directions[i]
    }

    /// The physical point of the grid at index (i, j).
    pub fn get_xy(&self, i: usize, j: usize) -> (r: Point)
        requires
            i < self.spec_n(),
            j < self.spec_m(),
        ensures
            r@ == (self.grid_x(i as int, j as int), self.grid_y(i as int, j as int)),
    {
        proof {
            use_type_invariant(self);
            assert(i * (self.m as int) + j < self.n as int * self.m as int
                && self.n as int * self.m as int <= 65025) by (nonlinear_arith)
                requires
                    0 <= i < self.n as int,
                    0 <= j < self.m as int,
                    self.n as int <= 255,
                    self.m as int <= 255,
            ;
        }
        Point::from(self.x[i * self.m as usize + j], self.y[i * self.m as usize + j])
    }
}

} // verus!
