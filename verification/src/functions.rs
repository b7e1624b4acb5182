//! Scalar fields sampled on a domain's grid nodes, and their physical
//! derivatives by curvilinear finite differences.

use vstd::prelude::*;
use std::rc::Rc;
use crate::fixed::{Fixed, fx_add, fx_sub, fx_mul, fx_div, FX_SCALE};
use crate::errors::GridError;
use crate::geometry::domain::Domain;
use crate::matrix::{ValueMatrix, mat_entries, mat_nrows, mat_ncols, mat_from_row_vec, mat_get};

verus! {

/// The mathematical content of a grid function: its domain, its values
/// in row-major order, its resolution, and its reference-space spacings.
#[verifier::ext_equal]
pub struct GridView {
    pub dom: Domain,
    pub vals: Seq<int>,
    pub n: int,
    pub m: int,
    pub h_xi: int,
    pub h_eta: int,
}

/// A scalar field with one value at every grid node of a domain.
pub struct GridFunction {
    domain: Rc<Domain>,
    values: ValueMatrix,
    n: u8,
    m: u8,
    h_xi: Fixed,
    h_eta: Fixed,
}

impl View for GridFunction {
    type V = GridView;

    closed spec fn view(&self) -> GridView {
        GridView {
            dom: *self.domain,
            vals: mat_entries(self.values).map_values(|e: i64| e as int),
            n: self.n as int,
            m: self.m as int,
            h_xi: self.h_xi@,
            h_eta: self.h_eta@,
        }
    }
}

/// The value of a grid function at node (i, j).
pub open spec fn value_at(g: GridView, i: int, j: int) -> int {
    g.vals[i * g.m + j]
}

/// Relies on `Rc::clone`: the returned handle shares the same
/// allocation, hence holds the same value.
#[verifier::external_body]
fn share_domain(d: &Rc<Domain>) -> (r: Rc<Domain>)
    ensures
        r == *d,
{
    Rc::clone(d)
}

/// Relies on `Rc::ptr_eq`: it returns true only when both handles share
/// one allocation, and one allocation holds one value.
#[verifier::external_body]
fn same_domain(a: &Rc<Domain>, b: &Rc<Domain>) -> (r: bool)
    ensures
        r ==> **a == **b,
{
    Rc::ptr_eq(a, b)
}

impl GridFunction {
    /// The resolution always matches the domain's, the value storage
    /// always matches the resolution, every stored value is in range,
    /// and the spacings are 1/(n-1) and 1/(m-1).
    #[verifier::type_invariant]
    pub closed spec fn wf(self) -> bool {
        &&& 2 <= self.n
        &&& 2 <= self.m
        &&& self.n as int == (*self.domain).spec_n()
        &&& self.m as int == (*self.domain).spec_m()
        &&& mat_nrows(self.values) == self.n as nat
        &&& mat_ncols(self.values) == self.m as nat
        &&& mat_entries(self.values).len() == self.n as int * self.m as int
        &&& forall|k: int|
            0 <= k < mat_entries(self.values).len() ==> -crate::fixed::FX_BOUND <= #[trigger]
                mat_entries(self.values)[k] <= crate::fixed::FX_BOUND
        &&& self.h_xi@ == fx_div(FX_SCALE as int, (self.n - 1) * FX_SCALE)
        &&& self.h_eta@ == fx_div(FX_SCALE as int, (self.m - 1) * FX_SCALE)
    }

    /// Creates a function on `domain` from one value per grid node, in
    /// row-major order.
    pub fn from(domain: &Rc<Domain>, values: Vec<Fixed>) -> (r: GridFunction)
        requires
            values@.len() == (**domain).spec_n() * (**domain).spec_m(),
        ensures
            r@.dom == **domain,
            r@.n == (**domain).spec_n(),
            r@.m == (**domain).spec_m(),
            r@.h_xi == fx_div(FX_SCALE as int, (r@.n - 1) * FX_SCALE),
            r@.h_eta == fx_div(FX_SCALE as int, (r@.m - 1) * FX_SCALE),
            r@.vals.len() == r@.n * r@.m,
            forall|k: int| 0 <= k < r@.vals.len() ==> #[trigger] r@.vals[k] == values@[k]@,
    {
        let n = domain.get_n();
        let m = domain.get_m();
        let mut raws: Vec<i64> = Vec::new();
        let mut k: usize = 0;
        while k < values.len()
            invariant
                raws@.len() == k,
                0 <= k <= values@.len(),
                forall|k2: int|
                    0 <= k2 < k ==> #[trigger] raws@[k2] == values@[k2]@ && -crate::fixed::FX_BOUND
                        <= raws@[k2] <= crate::fixed::FX_BOUND,
            decreases values@.len() - k,
        {
            let v = values[k];
            proof {
                use_type_invariant(v);
            }
            raws.push(v.raw());
            k = k + 1;
        }
        let mat = mat_from_row_vec(n as usize, m as usize, &raws);
        let one = Fixed::one();
        let h_xi = one.div(Fixed::from_int(n as i64 - 1));
        let h_eta = one.div(Fixed::from_int(m as i64 - 1));
        GridFunction { domain: share_domain(domain), values: mat, n, m, h_xi, h_eta }
    }

    /// Amount of grid points in the x-direction.
    pub fn get_n(&self) -> (r: u8)
        ensures
            r == self@.n,
    {
        self.n
    }

    /// Amount of grid points in the y-direction.
    pub fn get_m(&self) -> (r: u8)
        ensures
            r == self@.m,
    {
        self.m
    }

    /// The value of the function at grid node (i, j).
    pub fn get_value(&self, i: usize, j: usize) -> (r: Fixed)
        requires
            i < self@.n,
            j < self@.m,
        ensures
            r@ == value_at(self@, i as int, j as int),
    {
        proof {
            use_type_invariant(self);
            assert(i * (self.m as int) + j < self.n as int * self.m as int) by (nonlinear_arith)
                requires
                    0 <= i < self.n as int,
                    0 <= j < self.m as int,
            ;
        }
        let raw = mat_get(&self.values, i, j);
        Fixed::from_raw(raw)
    }
}


/// The value `val` is an admissible sample of `f` at node (i, j) of
/// `dom`: some result `f` may return on that node's physical
/// coordinates.
pub open spec fn spec_sample_ok<F: Fn(Fixed, Fixed) -> Fixed>(
    dom: Domain,
    f: F,
    val: int,
    i: int,
    j: int,
) -> bool {
    exists|px: Fixed, py: Fixed, v: Fixed|
        px@ == dom.grid_x(i, j) && py@ == dom.grid_y(i, j) && #[trigger] call_ensures(
            f,
            (px, py),
            v,
        ) && val == v@
}

/// The denoted value stored at node (i, j) of a row-major scalar vector.
pub open spec fn val_at_fx(vs: Seq<Fixed>, m: int, i: int, j: int) -> int {
    vs[i * m + j]@
}

/// Which grid the finite-difference stencils read: the domain's x
/// coordinates, its y coordinates, or the function's own values.
pub enum GridField {
    FieldX,
    FieldY,
    FieldValue,
}

/// Direction in which a reference-space derivative is taken.
pub enum DiffDirection {
    Xi,
    Eta,
}

/// The selected grid of a function, as a mapping from indices to values.
pub open spec fn spec_field(g: GridView, fld: GridField) -> spec_fn(int, int) -> int {
    match fld {
        GridField::FieldX => |i: int, j: int| g.dom.grid_x(i, j),
        GridField::FieldY => |i: int, j: int| g.dom.grid_y(i, j),
        GridField::FieldValue => |i: int, j: int| value_at(g, i, j),
    }
}

/// Second-order one-sided difference: side * (3 s0 - 4 s1 + s2) / (2 h).
pub open spec fn spec_one_sided(side: int, s0: int, s1: int, s2: int, h: int) -> int {
    fx_div(
        fx_mul(
            side * FX_SCALE,
            fx_add(fx_sub(fx_mul(3 * FX_SCALE, s0), fx_mul(4 * FX_SCALE, s1)), s2),
        ),
        fx_mul(2 * FX_SCALE, h),
    )
}

/// Central difference: (s_{+1} - s_{-1}) / (2 h).
pub open spec fn spec_central(sp1: int, sm1: int, h: int) -> int {
    fx_div(fx_sub(sp1, sm1), fx_mul(2 * FX_SCALE, h))
}

/// The reference-space partial derivative of the selected grid at node
/// (i, j): one-sided at the boundary nodes, central in the interior.
pub open spec fn spec_pd(g: GridView, fld: GridField, dir: DiffDirection, i: int, j: int) -> int {
    let f = spec_field(g, fld);
    match dir {
        DiffDirection::Xi => {
            if i == 0 {
                spec_one_sided(-1, f(i, j), f(i + 1, j), f(i + 2, j), g.h_xi)
            } else if i == g.n - 1 {
                spec_one_sided(1, f(i, j), f(i - 1, j), f(i - 2, j), g.h_xi)
            } else {
                spec_central(f(i + 1, j), f(i - 1, j), g.h_xi)
            }
        },
        DiffDirection::Eta => {
            if j == 0 {
                spec_one_sided(-1, f(i, j), f(i, j + 1), f(i, j + 2), g.h_eta)
            } else if j == g.m - 1 {
                spec_one_sided(1, f(i, j), f(i, j - 1), f(i, j - 2), g.h_eta)
            } else {
                spec_central(f(i, j + 1), f(i, j - 1), g.h_eta)
            }
        },
    }
}

/// The geometry Jacobian determinant at node (i, j).
pub open spec fn spec_det(g: GridView, i: int, j: int) -> int {
    fx_sub(
        fx_mul(
            spec_pd(g, GridField::FieldX, DiffDirection::Xi, i, j),
            spec_pd(g, GridField::FieldY, DiffDirection::Eta, i, j),
        ),
        fx_mul(
            spec_pd(g, GridField::FieldX, DiffDirection::Eta, i, j),
            spec_pd(g, GridField::FieldY, DiffDirection::Xi, i, j),
        ),
    )
}

/// The physical x-derivative at node (i, j), by Cramer's rule:
/// (u_xi y_eta - u_eta y_xi) / det J.
pub open spec fn spec_ux(g: GridView, i: int, j: int) -> int {
    fx_div(
        fx_sub(
            fx_mul(
                spec_pd(g, GridField::FieldValue, DiffDirection::Xi, i, j),
                spec_pd(g, GridField::FieldY, DiffDirection::Eta, i, j),
            ),
            fx_mul(
                spec_pd(g, GridField::FieldValue, DiffDirection::Eta, i, j),
                spec_pd(g, GridField::FieldY, DiffDirection::Xi, i, j),
            ),
        ),
        spec_det(g, i, j),
    )
}

/// The physical y-derivative at node (i, j), by Cramer's rule:
/// (u_eta x_xi - u_xi x_eta) / det J.
pub open spec fn spec_uy(g: GridView, i: int, j: int) -> int {
    fx_div(
        fx_sub(
            fx_mul(
                spec_pd(g, GridField::FieldValue, DiffDirection::Eta, i, j),
                spec_pd(g, GridField::FieldX, DiffDirection::Xi, i, j),
            ),
            fx_mul(
                spec_pd(g, GridField::FieldValue, DiffDirection::Xi, i, j),
                spec_pd(g, GridField::FieldX, DiffDirection::Eta, i, j),
            ),
        ),
        spec_det(g, i, j),
    )
}

/// The Jacobian determinant is nonzero at every node, so physical
/// derivatives exist everywhere.
pub open spec fn spec_regular(g: GridView) -> bool {
    forall|i: int, j: int| 0 <= i < g.n && 0 <= j < g.m ==> #[trigger] spec_det(g, i, j) != 0
}

/// The grid function holding the physical x-derivative at every node.
pub open spec fn spec_grad_x(g: GridView) -> GridView {
    GridView {
        dom: g.dom,
        vals: Seq::new((g.n * g.m) as nat, |k: int| spec_ux(g, k / g.m, k % g.m)),
        n: g.n,
        m: g.m,
        h_xi: g.h_xi,
        h_eta: g.h_eta,
    }
}

/// The grid function holding the physical y-derivative at every node.
pub open spec fn spec_grad_y(g: GridView) -> GridView {
    GridView {
        dom: g.dom,
        vals: Seq::new((g.n * g.m) as nat, |k: int| spec_uy(g, k / g.m, k % g.m)),
        n: g.n,
        m: g.m,
        h_xi: g.h_xi,
        h_eta: g.h_eta,
    }
}

/// The spacing 1/(n-1) is strictly positive for any resolution, and
/// doubling it stays exact.
proof fn lemma_h_positive(n: int)
    requires
        2 <= n <= 255,
    ensures
        0 < fx_div(FX_SCALE as int, (n - 1) * FX_SCALE) <= FX_SCALE,
        fx_mul(2 * FX_SCALE, fx_div(FX_SCALE as int, (n - 1) * FX_SCALE)) == 2 * fx_div(
            FX_SCALE as int,
            (n - 1) * FX_SCALE,
        ),
{
    let d = (n - 1) * FX_SCALE;
    let num = FX_SCALE as int * FX_SCALE;
    assert(FX_SCALE as int <= (n - 1) * FX_SCALE <= 254 * FX_SCALE && 254 * FX_SCALE
        < FX_SCALE as int * FX_SCALE) by (nonlinear_arith)
        requires
            2 <= n <= 255,
    ;
    vstd::arithmetic::div_mod::lemma_div_non_zero(num, d);
    vstd::arithmetic::div_mod::lemma_div_is_ordered_by_denominator(num, FX_SCALE as int, d);
    vstd::arithmetic::div_mod::lemma_div_multiples_vanish(FX_SCALE as int, FX_SCALE as int);
    let h = fx_div(FX_SCALE as int, d);
    assert(h == num / d);
    let two_h = fx_mul(2 * FX_SCALE, h);
    assert(2 * FX_SCALE * h == FX_SCALE as int * (2 * h)) by (nonlinear_arith);
    vstd::arithmetic::div_mod::lemma_div_multiples_vanish(2 * h, FX_SCALE as int);
}

/// Second-order one-sided finite difference toward `side`.
fn one_sided_diff(side: i8, s0: Fixed, s1: Fixed, s2: Fixed, h: Fixed) -> (r: Fixed)
    requires
        side == 1 || side == -1,
        0 < h@ <= FX_SCALE,
        fx_mul(2 * FX_SCALE, h@) != 0,
    ensures
        r@ == spec_one_sided(side as int, s0@, s1@, s2@, h@),
{
    let three = Fixed::from_int(3);
    let four = Fixed::from_int(4);
    let two = Fixed::from_int(2);
    let num = three.mul(s0).sub(four.mul(s1)).add(s2);
    Fixed::from_int(side as i64).mul(num).div(two.mul(h))
}

/// Central finite difference.
fn central_diff(sp1: Fixed, sm1: Fixed, h: Fixed) -> (r: Fixed)
    requires
        0 < h@ <= FX_SCALE,
        fx_mul(2 * FX_SCALE, h@) != 0,
    ensures
        r@ == spec_central(sp1@, sm1@, h@),
{
    let two = Fixed::from_int(2);
    sp1.sub(sm1).div(two.mul(h))
}

/// The four neighbor indices a stencil at `i0` reads along the changing
/// axis ([i0+1, i0-1, i0+2, i0-2], clamped at the low boundary where the
/// one-sided stencils never read the clamped slots), or `i0` four times
/// along the fixed axis.
pub fn set_indices(i0: usize, change: bool) -> (r: [usize; 4])
    requires
        i0 + 2 <= usize::MAX,
    ensures
        r@.len() == 4,
        !change ==> r@[0] == i0 && r@[1] == i0 && r@[2] == i0 && r@[3] == i0,
        change ==> r@[0] == i0 + 1 && r@[2] == i0 + 2,
        change && i0 == 0 ==> r@[1] == i0 && r@[3] == i0,
        change && i0 == 1 ==> r@[1] == i0 - 1 && r@[3] == i0,
        change && i0 >= 2 ==> r@[1] == i0 - 1 && r@[3] == i0 - 2,
{
    if change {
        if i0 == 0 {
            [i0 + 1, i0, i0 + 2, i0]
        } else if i0 == 1 {
            [i0 + 1, i0 - 1, i0 + 2, i0]
        } else {
            [i0 + 1, i0 - 1, i0 + 2, i0 - 2]
        }
    } else {
        [i0, i0, i0, i0]
    }
}

impl GridFunction {
    /// Creates the zero function on `domain`.
    pub fn new(domain: &Rc<Domain>) -> (r: GridFunction)
        ensures
            r@.dom == **domain,
            r@.n == (**domain).spec_n(),
            r@.m == (**domain).spec_m(),
            r@.h_xi == fx_div(FX_SCALE as int, (r@.n - 1) * FX_SCALE),
            r@.h_eta == fx_div(FX_SCALE as int, (r@.m - 1) * FX_SCALE),
            r@.vals.len() == r@.n * r@.m,
            forall|k: int| 0 <= k < r@.vals.len() ==> #[trigger] r@.vals[k] == 0,
    {
        let n = domain.get_n();
        let m = domain.get_m();
        proof {
            assert(n as int * m as int <= 65025) by (nonlinear_arith)
                requires
                    n as int <= 255,
                    m as int <= 255,
            ;
        }
        let total: usize = n as usize * m as usize;
        let mut zeros: Vec<Fixed> = Vec::new();
        let mut k: usize = 0;
        while k < total
            invariant
                zeros@.len() == k,
                0 <= k <= total,
                forall|k2: int| 0 <= k2 < k ==> (#[trigger] zeros@[k2])@ == 0,
            decreases total - k,
        {
            zeros.push(Fixed::zero());
            k = k + 1;
        }
        GridFunction::from(domain, zeros)
    }

    /// Creates a function on `domain` by evaluating `fnc` at every grid
    /// node's physical coordinates.
    pub fn from_fnc<F: Fn(Fixed, Fixed) -> Fixed>(domain: &Rc<Domain>, fnc: &F) -> (r:
        GridFunction)
        requires
            forall|x: Fixed, y: Fixed| call_requires(*fnc, (x, y)),
        ensures
            r@.dom == **domain,
            r@.n == (**domain).spec_n(),
            r@.m == (**domain).spec_m(),
            r@.h_xi == fx_div(FX_SCALE as int, (r@.n - 1) * FX_SCALE),
            r@.h_eta == fx_div(FX_SCALE as int, (r@.m - 1) * FX_SCALE),
            r@.vals.len() == r@.n * r@.m,
            forall|i: int, j: int|
                0 <= i < r@.n && 0 <= j < r@.m ==> #[trigger] spec_sample_ok(
                    **domain,
                    *fnc,
                    value_at(r@, i, j),
                    i,
                    j,
                ),
    {
        let n = domain.get_n();
        let m = domain.get_m();
        let mut vals: Vec<Fixed> = Vec::new();
        let mut i: usize = 0;
        while i < n as usize
            invariant
                forall|x: Fixed, y: Fixed| call_requires(*fnc, (x, y)),
                2 <= n,
                2 <= m,
                n == (**domain).spec_n(),
                m == (**domain).spec_m(),
                0 <= i <= n,
                vals@.len() == i * m as int,
                forall|i2: int, j2: int|
                    0 <= i2 < i && 0 <= j2 < m as int ==> #[trigger] spec_sample_ok(
                        **domain,
                        *fnc,
                        val_at_fx(vals@, m as int, i2, j2),
                        i2,
                        j2,
                    ),
            decreases n as int - i,
        {
            let mut j: usize = 0;
            while j < m as usize
                invariant
                    forall|x: Fixed, y: Fixed| call_requires(*fnc, (x, y)),
                    2 <= n,
                    2 <= m,
                    n == (**domain).spec_n(),
                    m == (**domain).spec_m(),
                    0 <= i < n,
                    0 <= j <= m,
                    vals@.len() == i * m as int + j,
                    forall|i2: int, j2: int|
                        0 <= i2 < i && 0 <= j2 < m as int ==> #[trigger] spec_sample_ok(
                            **domain,
                            *fnc,
                            val_at_fx(vals@, m as int, i2, j2),
                            i2,
                            j2,
                        ),
                    forall|j2: int|
                        0 <= j2 < j ==> #[trigger] spec_sample_ok(
                            **domain,
                            *fnc,
                            val_at_fx(vals@, m as int, i as int, j2),
                            i as int,
                            j2,
                        ),
                decreases m as int - j,
            {
                let xy = domain.get_xy(i, j);
                let v = fnc(xy.get_x(), xy.get_y());
                let ghost pre = vals@;
                vals.push(v);
                proof {
                    assert(val_at_fx(vals@, m as int, i as int, j as int) == v@);
                    assert(spec_sample_ok(**domain, *fnc, v@, i as int, j as int));
                    assert forall|i2: int, j2: int|
                        0 <= i2 < i as int && 0 <= j2 < m as int implies #[trigger] spec_sample_ok(
                        **domain,
                        *fnc,
                        val_at_fx(vals@, m as int, i2, j2),
                        i2,
                        j2,
                    ) by {
                        assert(i2 * (m as int) + j2 < i as int * (m as int)) by (nonlinear_arith)
                            requires
                                0 <= i2 < i as int,
                                0 <= j2 < m as int,
                        ;
                        assert(val_at_fx(vals@, m as int, i2, j2) == val_at_fx(
                            pre,
                            m as int,
                            i2,
                            j2,
                        ));
                    }
                    assert forall|j2: int|
                        0 <= j2 < j + 1 implies #[trigger] spec_sample_ok(
                        **domain,
                        *fnc,
                        val_at_fx(vals@, m as int, i as int, j2),
                        i as int,
                        j2,
                    ) by {
                        if j2 < j {
                            assert(val_at_fx(vals@, m as int, i as int, j2) == val_at_fx(
                                pre,
                                m as int,
                                i as int,
                                j2,
                            ));
                        }
                    }
                }
                j = j + 1;
            }
            i = i + 1;
            proof {
                assert(vals@.len() == i * m as int) by (nonlinear_arith)
                    requires
                        vals@.len() == (i - 1) * m as int + m as int,
                ;
            }
        }
        let r = GridFunction::from(domain, vals);
        proof {
            assert forall|i2: int, j2: int|
                0 <= i2 < r@.n && 0 <= j2 < r@.m implies #[trigger] spec_sample_ok(
                **domain,
                *fnc,
                value_at(r@, i2, j2),
                i2,
                j2,
            ) by {
                assert(i2 * (m as int) + j2 < r@.n * r@.m) by (nonlinear_arith)
                    requires
                        0 <= i2 < r@.n,
                        0 <= j2 < r@.m,
                        r@.n == n as int,
                        r@.m == m as int,
                ;
                assert(value_at(r@, i2, j2) == val_at_fx(vals@, m as int, i2, j2));
            }
        }
        r
    }

    /// Replaces the values with `fnc` evaluated at every grid node.
    pub fn generate_function_values<F: Fn(Fixed, Fixed) -> Fixed>(&mut self, fnc: &F)
        requires
            forall|x: Fixed, y: Fixed| call_requires(*fnc, (x, y)),
        ensures
            final(self)@.dom == old(self)@.dom,
            final(self)@.n == old(self)@.n,
            final(self)@.m == old(self)@.m,
            final(self)@.h_xi == old(self)@.h_xi,
            final(self)@.h_eta == old(self)@.h_eta,
            final(self)@.vals.len() == final(self)@.n * final(self)@.m,
            forall|i: int, j: int|
                0 <= i < final(self)@.n && 0 <= j < final(self)@.m ==> #[trigger] spec_sample_ok(
                    final(self)@.dom,
                    *fnc,
                    value_at(final(self)@, i, j),
                    i,
                    j,
                ),
    {
        proof {
            use_type_invariant(&*self);
        }
        let d = share_domain(&self.domain);
        let g = GridFunction::from_fnc(&d, fnc);
        *self = g;
    }
}



impl GridFunction {
    /// One entry of the selected grid.
    fn get_field(&self, fld: &GridField, i: usize, j: usize) -> (r: Fixed)
        requires
            i < self@.n,
            j < self@.m,
        ensures
            r@ == spec_field(self@, *fld)(i as int, j as int),
    {
        proof {
            use_type_invariant(self);
        }
        match fld {
            GridField::FieldX => self.domain.get_xy(i, j).get_x(),
            GridField::FieldY => self.domain.get_xy(i, j).get_y(),
            GridField::FieldValue => self.get_value(i, j),
        }
    }

    /// The reference-space partial derivative of the selected grid at
    /// node (i, j): one-sided second-order differences at boundary
    /// nodes, central differences in the interior.
    fn partial_derivative_of_fnc(
        &self,
        fld: &GridField,
        dir: &DiffDirection,
        i: usize,
        j: usize,
    ) -> (r: Fixed)
        requires
            3 <= self@.n,
            3 <= self@.m,
            i < self@.n,
            j < self@.m,
        ensures
            r@ == spec_pd(self@, *fld, *dir, i as int, j as int),
    {
        proof {
            use_type_invariant(self);
            lemma_h_positive(self.n as int);
            lemma_h_positive(self.m as int);
        }
        let last_index: usize;
        let current_index: usize;
        let h: Fixed;
        let is: [usize; 4];
        let js: [usize; 4];
        match dir {
            DiffDirection::Xi => {
                current_index = i;
                last_index = self.n as usize - 1;
                h = self.h_xi;
                is = set_indices(i, true);
                js = set_indices(j, false);
            },
            DiffDirection::Eta => {
                current_index = j;
                last_index = self.m as usize - 1;
                h = self.h_eta;
                is = set_indices(i, false);
                js = set_indices(j, true);
            },
        }
        if current_index == 0 {
            one_sided_diff(
                -1,
                self.get_field(fld, i, j),
                self.get_field(fld, is[0], js[0]),
                self.get_field(fld, is[2], js[2]),
                h,
            )
        } else if current_index == last_index {
            one_sided_diff(
                1,
                self.get_field(fld, i, j),
                self.get_field(fld, is[1], js[1]),
                self.get_field(fld, is[3], js[3]),
                h,
            )
        } else {
            central_diff(self.get_field(fld, is[0], js[0]), self.get_field(fld, is[1], js[1]), h)
        }
    }

    /// The physical derivatives (u_x, u_y) at node (i, j), by inverting
    /// the 2x2 geometry Jacobian with Cramer's rule; a vanishing
    /// determinant is reported.
    fn partial_derivative(&self, i: usize, j: usize) -> (r: Result<(Fixed, Fixed), GridError>)
        requires
            3 <= self@.n,
            3 <= self@.m,
            i < self@.n,
            j < self@.m,
        ensures
            (r matches Ok(_)) == (spec_det(self@, i as int, j as int) != 0),
            r matches Ok(p) ==> p.0@ == spec_ux(self@, i as int, j as int) && p.1@ == spec_uy(
                self@,
                i as int,
                j as int,
            ),
            r matches Err(e) ==> e == GridError::SingularJacobian,
    {
        let x_xi = self.partial_derivative_of_fnc(&GridField::FieldX, &DiffDirection::Xi, i, j);
        let x_eta = self.partial_derivative_of_fnc(&GridField::FieldX, &DiffDirection::Eta, i, j);
        let y_xi = self.partial_derivative_of_fnc(&GridField::FieldY, &DiffDirection::Xi, i, j);
        let y_eta = self.partial_derivative_of_fnc(&GridField::FieldY, &DiffDirection::Eta, i, j);
        let u_xi = self.partial_derivative_of_fnc(
            &GridField::FieldValue,
            &DiffDirection::Xi,
            i,
            j,
        );
        let u_eta = self.partial_derivative_of_fnc(
            &GridField::FieldValue,
            &DiffDirection::Eta,
            i,
            j,
        );
        let det_j = x_xi.mul(y_eta).sub(x_eta.mul(y_xi));
        if det_j.raw() == 0 {
            Err(GridError::SingularJacobian)
        } else {
            let u_x = u_xi.mul(y_eta).sub(u_eta.mul(y_xi)).div(det_j);
            let u_y = u_eta.mul(x_xi).sub(u_xi.mul(x_eta)).div(det_j);
            Ok((u_x, u_y))
        }
    }

    /// The grid function of physical x-derivatives, or the report that
    /// the Jacobian is singular at some node.
    pub fn pdx(&self) -> (r: Result<GridFunction, GridError>)
        requires
            3 <= self@.n,
            3 <= self@.m,
        ensures
            (r matches Ok(_)) == spec_regular(self@),
            r matches Ok(g) ==> g@ == spec_grad_x(self@),
            r matches Err(e) ==> e == GridError::SingularJacobian,
    {
        proof {
            use_type_invariant(self);
        }
        let n = self.n;
        let m = self.m;
        let mut vals: Vec<Fixed> = Vec::new();
        let mut i: usize = 0;
        while i < n as usize
            invariant
                self@.n == n as int,
                self@.m == m as int,
                3 <= n,
                3 <= m,
                0 <= i <= n,
                vals@.len() == i * m as int,
                forall|i2: int, j2: int|
                    0 <= i2 < i && 0 <= j2 < m as int ==> #[trigger] spec_det(self@, i2, j2) != 0,
                forall|i2: int, j2: int|
                    0 <= i2 < i && 0 <= j2 < m as int ==> val_at_fx(vals@, m as int, i2, j2)
                        == #[trigger] spec_ux(self@, i2, j2),
            decreases n as int - i,
        {
            let mut j: usize = 0;
            while j < m as usize
                invariant
                    self@.n == n as int,
                    self@.m == m as int,
                    3 <= n,
                    3 <= m,
                    0 <= i < n,
                    0 <= j <= m,
                    vals@.len() == i * m as int + j,
                    forall|i2: int, j2: int|
                        0 <= i2 < i && 0 <= j2 < m as int ==> #[trigger] spec_det(self@, i2, j2)
                            != 0,
                    forall|i2: int, j2: int|
                        0 <= i2 < i && 0 <= j2 < m as int ==> val_at_fx(vals@, m as int, i2, j2)
                            == #[trigger] spec_ux(self@, i2, j2),
                    forall|j2: int|
                        0 <= j2 < j ==> #[trigger] spec_det(self@, i as int, j2) != 0,
                    forall|j2: int|
                        0 <= j2 < j ==> val_at_fx(vals@, m as int, i as int, j2) == #[trigger]
                            spec_ux(self@, i as int, j2),
                decreases m as int - j,
            {
                let ghost pre = vals@;
                match self.partial_derivative(i, j) {
                    Ok(p) => {
                        vals.push(p.0);
                    },
                    Err(e) => {
                        proof {
                            assert(spec_det(self@, i as int, j as int) == 0);
                        }
                        return Err(e);
                    },
                }
                proof {
                    assert forall|i2: int, j2: int|
                        0 <= i2 < i as int && 0 <= j2 < m as int implies val_at_fx(
                        vals@,
                        m as int,
                        i2,
                        j2,
                    ) == #[trigger] spec_ux(self@, i2, j2) by {
                        assert(i2 * (m as int) + j2 < i as int * (m as int)) by (nonlinear_arith)
                            requires
                                0 <= i2 < i as int,
                                0 <= j2 < m as int,
                        ;
                        assert(val_at_fx(vals@, m as int, i2, j2) == val_at_fx(
                            pre,
                            m as int,
                            i2,
                            j2,
                        ));
                    }
                }
                j = j + 1;
            }
            i = i + 1;
            proof {
                assert(vals@.len() == i * m as int) by (nonlinear_arith)
                    requires
                        vals@.len() == (i - 1) * m as int + m as int,
                ;
            }
        }
        let g = GridFunction::from(&self.domain, vals);
        proof {
            assert forall|k: int| 0 <= k < g@.vals.len() implies g@.vals[k] == #[trigger]
                spec_grad_x(self@).vals[k] by {
                let i2 = k / (m as int);
                let j2 = k % (m as int);
                vstd::arithmetic::div_mod::lemma_fundamental_div_mod(k, m as int);
                assert(k < (m as int) * (n as int)) by (nonlinear_arith)
                    requires
                        k < n as int * m as int,
                ;
                vstd::arithmetic::div_mod::lemma_multiply_divide_lt(k, m as int, n as int);
                vstd::arithmetic::div_mod::lemma_div_pos_is_pos(k, m as int);
                assert(i2 * (m as int) == (m as int) * i2) by (nonlinear_arith);
                assert(i2 * (m as int) + j2 == k);
                assert(val_at_fx(vals@, m as int, i2, j2) == spec_ux(self@, i2, j2));
                assert(g@.vals[k] == vals@[k]@);
            }
            lemma_grid_views_equal(g@, spec_grad_x(self@));
        }
        Ok(g)
    }

    /// The grid function of physical y-derivatives, or the report that
    /// the Jacobian is singular at some node.
    pub fn pdy(&self) -> (r: Result<GridFunction, GridError>)
        requires
            3 <= self@.n,
            3 <= self@.m,
        ensures
            (r matches Ok(_)) == spec_regular(self@),
            r matches Ok(g) ==> g@ == spec_grad_y(self@),
            r matches Err(e) ==> e == GridError::SingularJacobian,
    {
        proof {
            use_type_invariant(self);
        }
        let n = self.n;
        let m = self.m;
        let mut vals: Vec<Fixed> = Vec::new();
        let mut i: usize = 0;
        while i < n as usize
            invariant
                self@.n == n as int,
                self@.m == m as int,
                3 <= n,
                3 <= m,
                0 <= i <= n,
                vals@.len() == i * m as int,
                forall|i2: int, j2: int|
                    0 <= i2 < i && 0 <= j2 < m as int ==> #[trigger] spec_det(self@, i2, j2) != 0,
                forall|i2: int, j2: int|
                    0 <= i2 < i && 0 <= j2 < m as int ==> val_at_fx(vals@, m as int, i2, j2)
                        == #[trigger] spec_uy(self@, i2, j2),
            decreases n as int - i,
        {
            let mut j: usize = 0;
            while j < m as usize
                invariant
                    self@.n == n as int,
                    self@.m == m as int,
                    3 <= n,
                    3 <= m,
                    0 <= i < n,
                    0 <= j <= m,
                    vals@.len() == i * m as int + j,
                    forall|i2: int, j2: int|
                        0 <= i2 < i && 0 <= j2 < m as int ==> #[trigger] spec_det(self@, i2, j2)
                            != 0,
                    forall|i2: int, j2: int|
                        0 <= i2 < i && 0 <= j2 < m as int ==> val_at_fx(vals@, m as int, i2, j2)
                            == #[trigger] spec_uy(self@, i2, j2),
                    forall|j2: int|
                        0 <= j2 < j ==> #[trigger] spec_det(self@, i as int, j2) != 0,
                    forall|j2: int|
                        0 <= j2 < j ==> val_at_fx(vals@, m as int, i as int, j2) == #[trigger]
                            spec_uy(self@, i as int, j2),
                decreases m as int - j,
            {
                let ghost pre = vals@;
                match self.partial_derivative(i, j) {
                    Ok(p) => {
                        vals.push(p.1);
                    },
                    Err(e) => {
                        proof {
                            assert(spec_det(self@, i as int, j as int) == 0);
                        }
                        return Err(e);
                    },
                }
                proof {
                    assert forall|i2: int, j2: int|
                        0 <= i2 < i as int && 0 <= j2 < m as int implies val_at_fx(
                        vals@,
                        m as int,
                        i2,
                        j2,
                    ) == #[trigger] spec_uy(self@, i2, j2) by {
                        assert(i2 * (m as int) + j2 < i as int * (m as int)) by (nonlinear_arith)
                            requires
                                0 <= i2 < i as int,
                                0 <= j2 < m as int,
                        ;
                        assert(val_at_fx(vals@, m as int, i2, j2) == val_at_fx(
                            pre,
                            m as int,
                            i2,
                            j2,
                        ));
                    }
                }
                j = j + 1;
            }
            i = i + 1;
            proof {
                assert(vals@.len() == i * m as int) by (nonlinear_arith)
                    requires
                        vals@.len() == (i - 1) * m as int + m as int,
                ;
            }
        }
        let g = GridFunction::from(&self.domain, vals);
        proof {
            assert forall|k: int| 0 <= k < g@.vals.len() implies g@.vals[k] == #[trigger]
                spec_grad_y(self@).vals[k] by {
                let i2 = k / (m as int);
                let j2 = k % (m as int);
                vstd::arithmetic::div_mod::lemma_fundamental_div_mod(k, m as int);
                assert(k < (m as int) * (n as int)) by (nonlinear_arith)
                    requires
                        k < n as int * m as int,
                ;
                vstd::arithmetic::div_mod::lemma_multiply_divide_lt(k, m as int, n as int);
                vstd::arithmetic::div_mod::lemma_div_pos_is_pos(k, m as int);
                assert(i2 * (m as int) == (m as int) * i2) by (nonlinear_arith);
                assert(i2 * (m as int) + j2 == k);
                assert(val_at_fx(vals@, m as int, i2, j2) == spec_uy(self@, i2, j2));
                assert(g@.vals[k] == vals@[k]@);
            }
            lemma_grid_views_equal(g@, spec_grad_y(self@));
        }
        Ok(g)
    }

    /// Both physical gradient components, or the report that the
    /// Jacobian is singular at some node.
    pub fn pd_xy(&self) -> (r: Result<(GridFunction, GridFunction), GridError>)
        requires
            3 <= self@.n,
            3 <= self@.m,
        ensures
            (r matches Ok(_)) == spec_regular(self@),
            r matches Ok(p) ==> p.0@ == spec_grad_x(self@) && p.1@ == spec_grad_y(self@),
            r matches Err(e) ==> e == GridError::SingularJacobian,
    {
        match self.pdx() {
            Err(e) => Err(e),
            Ok(gx) => match self.pdy() {
                Err(e) => Err(e),
                Ok(gy) => Ok((gx, gy)),
            },
        }
    }
}

/// Two grid views are equal when their scalar fields agree and the
/// flattened values match entry by entry.
proof fn lemma_grid_views_equal(a: GridView, b: GridView)
    requires
        a.dom == b.dom,
        a.n == b.n,
        a.m == b.m,
        a.h_xi == b.h_xi,
        a.h_eta == b.h_eta,
        a.vals.len() == b.vals.len(),
        forall|k: int| 0 <= k < a.vals.len() ==> #[trigger] a.vals[k] == b.vals[k],
    ensures
        a == b,
{
    assert(a.vals =~= b.vals);
    assert(a =~= b);
}



impl GridFunction {
    /// The Laplacian: the physical derivative operator applied twice and
    /// summed, d/dx(du/dx) + d/dy(du/dy).  Fails with the singularity
    /// report when the Jacobian vanishes at any node of the function or
    /// of either gradient component.
    pub fn laplace(&self) -> (r: Result<GridFunction, GridError>)
        requires
            3 <= self@.n,
            3 <= self@.m,
        ensures
            (r matches Ok(_)) == (spec_regular(self@) && spec_regular(spec_grad_x(self@))
                && spec_regular(spec_grad_y(self@))),
            r matches Ok(l) ==> l@.dom == self@.dom && l@.n == self@.n && l@.m == self@.m && forall|
                i: int,
                j: int,
            |
                0 <= i < l@.n && 0 <= j < l@.m ==> #[trigger] value_at(l@, i, j) == fx_add(
                    value_at(spec_grad_x(spec_grad_x(self@)), i, j),
                    value_at(spec_grad_y(spec_grad_y(self@)), i, j),
                ),
            r matches Err(e) ==> e == GridError::SingularJacobian,
    {
        proof {
            use_type_invariant(self);
        }
        let n = self.n;
        let m = self.m;
        match self.pd_xy() {
            Err(e) => Err(e),
            Ok(pd) => {
                let (dx, dy) = pd;
                match dx.pdx() {
                    Err(e) => Err(e),
                    Ok(dxx) => match dy.pdy() {
                        Err(e) => Err(e),
                        Ok(dyy) => {
                            let mut vals: Vec<Fixed> = Vec::new();
                            let mut i: usize = 0;
                            while i < n as usize
                                invariant
                                    self@.n == n as int,
                                    self@.m == m as int,
                                    3 <= n,
                                    3 <= m,
                                    dxx@.n == n as int,
                                    dxx@.m == m as int,
                                    dyy@.n == n as int,
                                    dyy@.m == m as int,
                                    0 <= i <= n,
                                    vals@.len() == i * m as int,
                                    forall|i2: int, j2: int|
                                        0 <= i2 < i && 0 <= j2 < m as int ==> #[trigger]
                                            val_at_fx(vals@, m as int, i2, j2) == fx_add(
                                            value_at(dxx@, i2, j2),
                                            value_at(dyy@, i2, j2),
                                        ),
                                decreases n as int - i,
                            {
                                let mut j: usize = 0;
                                while j < m as usize
                                    invariant
                                        self@.n == n as int,
                                        self@.m == m as int,
                                        3 <= n,
                                        3 <= m,
                                        dxx@.n == n as int,
                                        dxx@.m == m as int,
                                        dyy@.n == n as int,
                                        dyy@.m == m as int,
                                        0 <= i < n,
                                        0 <= j <= m,
                                        vals@.len() == i * m as int + j,
                                        forall|i2: int, j2: int|
                                            0 <= i2 < i && 0 <= j2 < m as int ==> #[trigger]
                                                val_at_fx(vals@, m as int, i2, j2) == fx_add(
                                                value_at(dxx@, i2, j2),
                                                value_at(dyy@, i2, j2),
                                            ),
                                        forall|j2: int|
                                            0 <= j2 < j ==> #[trigger] val_at_fx(
                                                vals@,
                                                m as int,
                                                i as int,
                                                j2,
                                            ) == fx_add(
                                                value_at(dxx@, i as int, j2),
                                                value_at(dyy@, i as int, j2),
                                            ),
                                    decreases m as int - j,
                                {
                                    let ghost pre = vals@;
                                    let v = dxx.get_value(i, j).add(dyy.get_value(i, j));
                                    vals.push(v);
                                    proof {
                                        assert forall|i2: int, j2: int|
                                            0 <= i2 < i as int && 0 <= j2 < m as int implies
                                            #[trigger] val_at_fx(vals@, m as int, i2, j2)
                                            == fx_add(
                                            value_at(dxx@, i2, j2),
                                            value_at(dyy@, i2, j2),
                                        ) by {
                                            assert(i2 * (m as int) + j2 < i as int * (m as int))
                                                by (nonlinear_arith)
                                                requires
                                                    0 <= i2 < i as int,
                                                    0 <= j2 < m as int,
                                            ;
                                            assert(val_at_fx(vals@, m as int, i2, j2)
                                                == val_at_fx(pre, m as int, i2, j2));
                                        }
                                        assert forall|j2: int|
                                            0 <= j2 < j + 1 implies #[trigger] val_at_fx(
                                            vals@,
                                            m as int,
                                            i as int,
                                            j2,
                                        ) == fx_add(
                                            value_at(dxx@, i as int, j2),
                                            value_at(dyy@, i as int, j2),
                                        ) by {
                                            if j2 < j {
                                                assert(val_at_fx(vals@, m as int, i as int, j2)
                                                    == val_at_fx(pre, m as int, i as int, j2));
                                            }
                                        }
                                    }
                                    j = j + 1;
                                }
                                i = i + 1;
                                proof {
                                    assert(vals@.len() == i * m as int) by (nonlinear_arith)
                                        requires
                                            vals@.len() == (i - 1) * m as int + m as int,
                                    ;
                                }
                            }
                            let l = GridFunction::from(&self.domain, vals);
                            proof {
                                assert forall|i2: int, j2: int|
                                    0 <= i2 < l@.n && 0 <= j2 < l@.m implies #[trigger] value_at(
                                    l@,
                                    i2,
                                    j2,
                                ) == fx_add(
                                    value_at(spec_grad_x(spec_grad_x(self@)), i2, j2),
                                    value_at(spec_grad_y(spec_grad_y(self@)), i2, j2),
                                ) by {
                                    assert(i2 * (m as int) + j2 < l@.n * l@.m) by (nonlinear_arith)
                                        requires
                                            0 <= i2 < l@.n,
                                            0 <= j2 < l@.m,
                                            l@.n == n as int,
                                            l@.m == m as int,
                                    ;
                                    assert(value_at(l@, i2, j2) == val_at_fx(
                                        vals@,
                                        m as int,
                                        i2,
                                        j2,
                                    ));
                                }
                            }
                            Ok(l)
                        },
                    },
                }
            },
        }
    }

    /// The elementwise sum of two grid functions.  Valid only for
    /// functions on the identical domain instance; combining functions
    /// of two separately built domains is reported as a mismatch, so
    /// functions on domains that differ even as values can never
    /// combine.
    pub fn add(&self, other: &GridFunction) -> (r: Result<GridFunction, GridError>)
        ensures
            r matches Ok(g) ==> self@.dom == other@.dom && g@.dom == self@.dom && g@.n == self@.n
                && g@.m == self@.m && forall|i: int, j: int|
                0 <= i < g@.n && 0 <= j < g@.m ==> #[trigger] value_at(g@, i, j) == fx_add(
                    value_at(self@, i, j),
                    value_at(other@, i, j),
                ),
            r matches Err(e) ==> e == GridError::DomainMismatch,
            self@.dom != other@.dom ==> (r matches Err(_)),
    {
        if !same_domain(&self.domain, &other.domain) {
            return Err(GridError::DomainMismatch);
        }
        proof {
            use_type_invariant(self);
            use_type_invariant(other);
        }
        let n = self.n;
        let m = self.m;
        let mut vals: Vec<Fixed> = Vec::new();
        let mut i: usize = 0;
        while i < n as usize
            invariant
                self@.n == n as int,
                self@.m == m as int,
                other@.n == n as int,
                other@.m == m as int,
                0 <= i <= n,
                vals@.len() == i * m as int,
                forall|i2: int, j2: int|
                    0 <= i2 < i && 0 <= j2 < m as int ==> #[trigger] val_at_fx(
                        vals@,
                        m as int,
                        i2,
                        j2,
                    ) == fx_add(value_at(self@, i2, j2), value_at(other@, i2, j2)),
            decreases n as int - i,
        {
            let mut j: usize = 0;
            while j < m as usize
                invariant
                    self@.n == n as int,
                    self@.m == m as int,
                    other@.n == n as int,
                    other@.m == m as int,
                    0 <= i < n,
                    0 <= j <= m,
                    vals@.len() == i * m as int + j,
                    forall|i2: int, j2: int|
                        0 <= i2 < i && 0 <= j2 < m as int ==> #[trigger] val_at_fx(
                            vals@,
                            m as int,
                            i2,
                            j2,
                        ) == fx_add(value_at(self@, i2, j2), value_at(other@, i2, j2)),
                    forall|j2: int|
                        0 <= j2 < j ==> #[trigger] val_at_fx(vals@, m as int, i as int, j2)
                            == fx_add(
                            value_at(self@, i as int, j2),
                            value_at(other@, i as int, j2),
                        ),
                decreases m as int - j,
            {
                let ghost pre = vals@;
                let v = self.get_value(i, j).add(other.get_value(i, j));
                vals.push(v);
                proof {
                    assert forall|i2: int, j2: int|
                        0 <= i2 < i as int && 0 <= j2 < m as int implies #[trigger] val_at_fx(
                        vals@,
                        m as int,
                        i2,
                        j2,
                    ) == fx_add(value_at(self@, i2, j2), value_at(other@, i2, j2)) by {
                        assert(i2 * (m as int) + j2 < i as int * (m as int)) by (nonlinear_arith)
                            requires
                                0 <= i2 < i as int,
                                0 <= j2 < m as int,
                        ;
                        assert(val_at_fx(vals@, m as int, i2, j2) == val_at_fx(
                            pre,
                            m as int,
                            i2,
                            j2,
                        ));
                    }
                    assert forall|j2: int|
                        0 <= j2 < j + 1 implies #[trigger] val_at_fx(vals@, m as int, i as int, j2)
                        == fx_add(
                        value_at(self@, i as int, j2),
                        value_at(other@, i as int, j2),
                    ) by {
                        if j2 < j {
                            assert(val_at_fx(vals@, m as int, i as int, j2) == val_at_fx(
                                pre,
                                m as int,
                                i as int,
                                j2,
                            ));
                        }
                    }
                }
                j = j + 1;
            }
            i = i + 1;
            proof {
                assert(vals@.len() == i * m as int) by (nonlinear_arith)
                    requires
                        vals@.len() == (i - 1) * m as int + m as int,
                ;
            }
        }
        let g = GridFunction::from(&self.domain, vals);
        proof {
            assert forall|i2: int, j2: int|
                0 <= i2 < g@.n && 0 <= j2 < g@.m implies #[trigger] value_at(g@, i2, j2)
                == fx_add(value_at(self@, i2, j2), value_at(other@, i2, j2)) by {
                assert(i2 * (m as int) + j2 < g@.n * g@.m) by (nonlinear_arith)
                    requires
                        0 <= i2 < g@.n,
                        0 <= j2 < g@.m,
                        g@.n == n as int,
                        g@.m == m as int,
                ;
                assert(value_at(g@, i2, j2) == val_at_fx(vals@, m as int, i2, j2));
            }
        }
        Ok(g)
    }

    /// The elementwise product of two grid functions.  Valid only for
    /// functions on the identical domain instance; combining functions
    /// of two separately built domains is reported as a mismatch, so
    /// functions on domains that differ even as values can never
    /// combine.
    pub fn mul(&self, other: &GridFunction) -> (r: Result<GridFunction, GridError>)
        ensures
            r matches Ok(g) ==> self@.dom == other@.dom && g@.dom == self@.dom && g@.n == self@.n
                && g@.m == self@.m && forall|i: int, j: int|
                0 <= i < g@.n && 0 <= j < g@.m ==> #[trigger] value_at(g@, i, j) == fx_mul(
                    value_at(self@, i, j),
                    value_at(other@, i, j),
                ),
            r matches Err(e) ==> e == GridError::DomainMismatch,
            self@.dom != other@.dom ==> (r matches Err(_)),
    {
        if !same_domain(&self.domain, &other.domain) {
            return Err(GridError::DomainMismatch);
        }
        proof {
            use_type_invariant(self);
            use_type_invariant(other);
        }
        let n = self.n;
        let m = self.m;
        let mut vals: Vec<Fixed> = Vec::new();
        let mut i: usize = 0;
        while i < n as usize
            invariant
                self@.n == n as int,
                self@.m == m as int,
                other@.n == n as int,
                other@.m == m as int,
                0 <= i <= n,
                vals@.len() == i * m as int,
                forall|i2: int, j2: int|
                    0 <= i2 < i && 0 <= j2 < m as int ==> #[trigger] val_at_fx(
                        vals@,
                        m as int,
                        i2,
                        j2,
                    ) == fx_mul(value_at(self@, i2, j2), value_at(other@, i2, j2)),
            decreases n as int - i,
        {
            let mut j: usize = 0;
            while j < m as usize
                invariant
                    self@.n == n as int,
                    self@.m == m as int,
                    other@.n == n as int,
                    other@.m == m as int,
                    0 <= i < n,
                    0 <= j <= m,
                    vals@.len() == i * m as int + j,
                    forall|i2: int, j2: int|
                        0 <= i2 < i && 0 <= j2 < m as int ==> #[trigger] val_at_fx(
                            vals@,
                            m as int,
                            i2,
                            j2,
                        ) == fx_mul(value_at(self@, i2, j2), value_at(other@, i2, j2)),
                    forall|j2: int|
                        0 <= j2 < j ==> #[trigger] val_at_fx(vals@, m as int, i as int, j2)
                            == fx_mul(
                            value_at(self@, i as int, j2),
                            value_at(other@, i as int, j2),
                        ),
                decreases m as int - j,
            {
                let ghost pre = vals@;
                let v = self.get_value(i, j).mul(other.get_value(i, j));
                vals.push(v);
                proof {
                    assert forall|i2: int, j2: int|
                        0 <= i2 < i as int && 0 <= j2 < m as int implies #[trigger] val_at_fx(
                        vals@,
                        m as int,
                        i2,
                        j2,
                    ) == fx_mul(value_at(self@, i2, j2), value_at(other@, i2, j2)) by {
                        assert(i2 * (m as int) + j2 < i as int * (m as int)) by (nonlinear_arith)
                            requires
                                0 <= i2 < i as int,
                                0 <= j2 < m as int,
                        ;
                        assert(val_at_fx(vals@, m as int, i2, j2) == val_at_fx(
                            pre,
                            m as int,
                            i2,
                            j2,
                        ));
                    }
                    assert forall|j2: int|
                        0 <= j2 < j + 1 implies #[trigger] val_at_fx(vals@, m as int, i as int, j2)
                        == fx_mul(
                        value_at(self@, i as int, j2),
                        value_at(other@, i as int, j2),
                    ) by {
                        if j2 < j {
                            assert(val_at_fx(vals@, m as int, i as int, j2) == val_at_fx(
                                pre,
                                m as int,
                                i as int,
                                j2,
                            ));
                        }
                    }
                }
                j = j + 1;
            }
            i = i + 1;
            proof {
                assert(vals@.len() == i * m as int) by (nonlinear_arith)
                    requires
                        vals@.len() == (i - 1) * m as int + m as int,
                ;
            }
        }
        let g = GridFunction::from(&self.domain, vals);
        proof {
            assert forall|i2: int, j2: int|
                0 <= i2 < g@.n && 0 <= j2 < g@.m implies #[trigger] value_at(g@, i2, j2)
                == fx_mul(value_at(self@, i2, j2), value_at(other@, i2, j2)) by {
                assert(i2 * (m as int) + j2 < g@.n * g@.m) by (nonlinear_arith)
                    requires
                        0 <= i2 < g@.n,
                        0 <= j2 < g@.m,
                        g@.n == n as int,
                        g@.m == m as int,
                ;
                assert(value_at(g@, i2, j2) == val_at_fx(vals@, m as int, i2, j2));
            }
        }
        Ok(g)
    }
}


} // verus!
