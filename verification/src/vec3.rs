//! Three-component fixed-point vectors, used as points, directions and colors.

use vstd::prelude::*;
use crate::fixed::{
    abs_i, div_fx, fdiv, fmin, fmul, fsqrt, is_isqrt, lemma_mul_fx_bound, lemma_sqrt_fx_props,
    lemma_sqrt_fx_upper, min_i, mul_fx, sqrt_fx, tdiv, FDIV_ARG_MAX, FMUL_ARG_MAX, SCALE,
};

verus! {

/// Componentwise magnitude bound accepted by sums and differences.
pub const VEC_SUM_MAX: i128 = 1_000_000_000_000_000_000_000_000_000_000;

/// Componentwise magnitude bound accepted by products, lengths and normalization.
pub const VEC_DOT_MAX: i128 = 2_000_000_000_000_000;

/// Componentwise magnitude bound accepted by `reflect` and `refract` for the
/// incoming vector.
pub const VEC_REFLECT_MAX: i128 = 1_000_000_000_000;

/// Componentwise magnitude bound accepted by `reflect`, `refract` and
/// `rotate` for a surface normal or a rotation coefficient.
pub const VEC_UNIT_MAX: i128 = 4_000_000;

/// The mathematical value of a vector: its three fixed-point scalars as integers.
pub ghost struct V3 {
    pub x: int,
    pub y: int,
    pub z: int,
}

/// A point, direction or color; each component counts millionths of a unit.
#[derive(Clone, Copy, Debug, PartialEq, Eq, Structural)]
pub struct Vec3 {
    pub x: i128,
    pub y: i128,
    pub z: i128,
}

impl View for Vec3 {
    type V = V3;

    open spec fn view(&self) -> V3 {
        V3 { x: self.x as int, y: self.y as int, z: self.z as int }
    }
}

/// All three components have magnitude at most `b`.
pub open spec fn in_bound_v(v: V3, b: int) -> bool {
    abs_i(v.x) <= b && abs_i(v.y) <= b && abs_i(v.z) <= b
}

/// Componentwise sum.
pub open spec fn add_v(u: V3, v: V3) -> V3 {
    V3 { x: u.x + v.x, y: u.y + v.y, z: u.z + v.z }
}

/// Componentwise difference.
pub open spec fn sub_v(u: V3, v: V3) -> V3 {
    V3 { x: u.x - v.x, y: u.y - v.y, z: u.z - v.z }
}

/// Componentwise negation.
pub open spec fn neg_v(u: V3) -> V3 {
    V3 { x: -u.x, y: -u.y, z: -u.z }
}

/// Componentwise fixed-point product.
pub open spec fn cmul_v(u: V3, v: V3) -> V3 {
    V3 { x: mul_fx(u.x, v.x), y: mul_fx(u.y, v.y), z: mul_fx(u.z, v.z) }
}

/// Fixed-point product with a scalar.
pub open spec fn scale_v(u: V3, k: int) -> V3 {
    V3 { x: mul_fx(u.x, k), y: mul_fx(u.y, k), z: mul_fx(u.z, k) }
}

/// Fixed-point quotient by a scalar.
pub open spec fn divs_v(u: V3, k: int) -> V3 {
    V3 { x: div_fx(u.x, k), y: div_fx(u.y, k), z: div_fx(u.z, k) }
}

/// Fixed-point dot product.
pub open spec fn dot_v(u: V3, v: V3) -> int {
    mul_fx(u.x, v.x) + mul_fx(u.y, v.y) + mul_fx(u.z, v.z)
}

/// Fixed-point cross product.
pub open spec fn cross_v(u: V3, v: V3) -> V3 {
    V3 {
        x: mul_fx(u.y, v.z) - mul_fx(u.z, v.y),
        y: mul_fx(u.z, v.x) - mul_fx(u.x, v.z),
        z: mul_fx(u.x, v.y) - mul_fx(u.y, v.x),
    }
}

/// Fixed-point squared length.
pub open spec fn lensq_v(u: V3) -> int {
    dot_v(u, u)
}

/// Fixed-point length.
pub open spec fn len_v(u: V3) -> int {
    sqrt_fx(lensq_v(u))
}

/// The vector scaled to unit length (meaningful when `lensq_v(u) > 0`).
pub open spec fn unit_v(u: V3) -> V3 {
    divs_v(u, len_v(u))
}

/// True when the vector is below one quantum on every axis, hence
/// indistinguishable from zero at this resolution.
pub open spec fn near_zero_v(u: V3) -> bool {
    u.x == 0 && u.y == 0 && u.z == 0
}

/// Rotation about the x axis, given the sine and cosine of the angle.
pub open spec fn rotate_x_v(u: V3, sin_phi: int, cos_phi: int) -> V3 {
    V3 {
        x: u.x,
        y: mul_fx(u.y, cos_phi) - mul_fx(u.z, sin_phi),
        z: mul_fx(u.y, sin_phi) + mul_fx(u.z, cos_phi),
    }
}

/// Rotation about the y axis, given the sine and cosine of the angle.
pub open spec fn rotate_y_v(u: V3, sin_theta: int, cos_theta: int) -> V3 {
    V3 {
        x: mul_fx(u.x, cos_theta) + mul_fx(u.z, sin_theta),
        y: u.y,
        z: -mul_fx(u.x, sin_theta) + mul_fx(u.z, cos_theta),
    }
}

/// Rotation about the x axis followed by rotation about the y axis.
pub open spec fn rotate_v(u: V3, sin_theta: int, cos_theta: int, sin_phi: int, cos_phi: int) -> V3 {
    rotate_y_v(rotate_x_v(u, sin_theta, cos_theta), sin_phi, cos_phi)
}

/// Mirror reflection of `v` about the normal `n`: `v - 2 (v . n) n`.
pub open spec fn reflect_v(v: V3, n: V3) -> V3 {
    sub_v(v, scale_v(n, 2 * dot_v(v, n)))
}

/// Snell refraction of `v` through a surface with normal `n` and
/// refraction ratio `ratio`, as the scattering model computes it.
pub open spec fn refract_v(v: V3, n: V3, ratio: int) -> V3 {
    let cos_theta = -min_i(dot_v(v, n), SCALE as int);
    let r_perp = scale_v(add_v(v, scale_v(n, cos_theta)), ratio);
    let r_par_len = sqrt_fx(abs_i((SCALE as int) - lensq_v(r_perp)));
    add_v(r_perp, scale_v(n, -r_par_len))
}

/// A squared scalar is never negative.
pub proof fn lemma_mul_fx_sq_nonneg(a: int)
    by (nonlinear_arith)
    ensures
        mul_fx(a, a) >= 0,
{
}

/// Bounds on a dot product, from componentwise bounds on its arguments.
pub proof fn lemma_dot_bound(u: V3, v: V3, bu: int, bv: int)
    requires
        0 <= bu,
        0 <= bv,
        in_bound_v(u, bu),
        in_bound_v(v, bv),
    ensures
        abs_i(dot_v(u, v)) * (SCALE as int) <= 3 * bu * bv,
{
    lemma_mul_fx_bound(u.x, v.x, bu, bv);
    lemma_mul_fx_bound(u.y, v.y, bu, bv);
    lemma_mul_fx_bound(u.z, v.z, bu, bv);
    assert(abs_i(dot_v(u, v)) * (SCALE as int) <= 3 * bu * bv) by (nonlinear_arith)
        requires
            abs_i(mul_fx(u.x, v.x)) * (SCALE as int) <= bu * bv,
            abs_i(mul_fx(u.y, v.y)) * (SCALE as int) <= bu * bv,
            abs_i(mul_fx(u.z, v.z)) * (SCALE as int) <= bu * bv,
            dot_v(u, v) == mul_fx(u.x, v.x) + mul_fx(u.y, v.y) + mul_fx(u.z, v.z),
    ;
}

/// A squared length is nonnegative and bounded by the componentwise bound.
pub proof fn lemma_lensq_bounds(u: V3, b: int)
    requires
        0 <= b,
        in_bound_v(u, b),
    ensures
        0 <= lensq_v(u),
        lensq_v(u) * (SCALE as int) <= 3 * b * b,
{
    lemma_mul_fx_sq_nonneg(u.x);
    lemma_mul_fx_sq_nonneg(u.y);
    lemma_mul_fx_sq_nonneg(u.z);
    lemma_dot_bound(u, u, b, b);
}

/// The length of a vector of at least one quantum squared length lies
/// between one thousandth of a unit and `b`, provided the squared length
/// stays under `b*b/SCALE`.
pub proof fn lemma_len_bounds(u: V3, b: int)
    requires
        1000 <= b,
        1 <= lensq_v(u),
        lensq_v(u) * (SCALE as int) <= b * b,
    ensures
        1000 <= len_v(u) <= b,
{
    lemma_sqrt_fx_props(lensq_v(u));
    let n = lensq_v(u) * (SCALE as int);
    let r = sqrt_fx(lensq_v(u));
    assert(1000 <= r && r <= b) by (nonlinear_arith)
        requires
            is_isqrt(n, r),
            n >= 1_000_000,
            n <= b * b,
            b >= 1000,
    ;
}

/// One component of a normalized vector is at most a little over one unit:
/// the component magnitude is within a quantum-scale error of the length
/// the division removes.
proof fn lemma_unit_comp(c: int, q: int, l: int)
    requires
        0 <= q,
        mul_fx(c, c) <= q,
        is_isqrt(q * (SCALE as int), l),
        1000 <= l,
    ensures
        abs_i(div_fx(c, l)) <= 2_100_000,
{
    assert(c * c < (mul_fx(c, c) + 1) * (SCALE as int)) by (nonlinear_arith);
    assert(abs_i(c) <= l + 1000) by (nonlinear_arith)
        requires
            c * c < (mul_fx(c, c) + 1) * (SCALE as int),
            mul_fx(c, c) <= q,
            q * (SCALE as int) < (l + 1) * (l + 1),
            0 <= l,
    ;
    crate::fixed::lemma_tdiv_abs_le(c * (SCALE as int), l);
    assert(abs_i(tdiv(c * (SCALE as int), l)) <= 2_100_000) by (nonlinear_arith)
        requires
            l * abs_i(tdiv(c * (SCALE as int), l)) <= abs_i(c * (SCALE as int)),
            abs_i(c) <= l + 1000,
            1000 <= l,
    ;
}

/// Every component of a normalized vector is at most 2.1 units in
/// magnitude, whatever the vector's own scale.
pub proof fn lemma_unit_bound(v: V3)
    requires
        in_bound_v(v, VEC_DOT_MAX as int),
        1 <= lensq_v(v),
    ensures
        in_bound_v(unit_v(v), 2_100_000),
{
    lemma_lensq_bounds(v, VEC_DOT_MAX as int);
    lemma_len_bounds(v, 4_000_000_000_000_000_000);
    lemma_sqrt_fx_props(lensq_v(v));
    lemma_mul_fx_sq_nonneg(v.x);
    lemma_mul_fx_sq_nonneg(v.y);
    lemma_mul_fx_sq_nonneg(v.z);
    lemma_unit_comp(v.x, lensq_v(v), len_v(v));
    lemma_unit_comp(v.y, lensq_v(v), len_v(v));
    lemma_unit_comp(v.z, lensq_v(v), len_v(v));
}

/// Componentwise bound on a scaled vector, from bounds on vector and scalar.
pub proof fn lemma_scale_bound(u: V3, k: int, bu: int, bk: int, b: int)
    requires
        0 <= bu,
        0 <= bk,
        0 <= b,
        in_bound_v(u, bu),
        abs_i(k) <= bk,
        bu * bk <= b * (SCALE as int),
    ensures
        in_bound_v(scale_v(u, k), b),
{
    lemma_mul_fx_bound(u.x, k, bu, bk);
    lemma_mul_fx_bound(u.y, k, bu, bk);
    lemma_mul_fx_bound(u.z, k, bu, bk);
}

/// Componentwise bound on a cross product, from bounds on its arguments.
pub proof fn lemma_cross_bound(u: V3, v: V3, bu: int, bv: int, b: int)
    requires
        0 <= bu,
        0 <= bv,
        0 <= b,
        in_bound_v(u, bu),
        in_bound_v(v, bv),
        2 * bu * bv <= b * (SCALE as int),
    ensures
        in_bound_v(cross_v(u, v), b),
{
    lemma_mul_fx_bound(u.y, v.z, bu, bv);
    lemma_mul_fx_bound(u.z, v.y, bu, bv);
    lemma_mul_fx_bound(u.z, v.x, bu, bv);
    lemma_mul_fx_bound(u.x, v.z, bu, bv);
    lemma_mul_fx_bound(u.x, v.y, bu, bv);
    lemma_mul_fx_bound(u.y, v.x, bu, bv);
    assert(in_bound_v(cross_v(u, v), b)) by (nonlinear_arith)
        requires
            abs_i(mul_fx(u.y, v.z)) * (SCALE as int) <= bu * bv,
            abs_i(mul_fx(u.z, v.y)) * (SCALE as int) <= bu * bv,
            abs_i(mul_fx(u.z, v.x)) * (SCALE as int) <= bu * bv,
            abs_i(mul_fx(u.x, v.z)) * (SCALE as int) <= bu * bv,
            abs_i(mul_fx(u.x, v.y)) * (SCALE as int) <= bu * bv,
            abs_i(mul_fx(u.y, v.x)) * (SCALE as int) <= bu * bv,
            2 * bu * bv <= b * (SCALE as int),
            cross_v(u, v) == (V3 {
                x: mul_fx(u.y, v.z) - mul_fx(u.z, v.y),
                y: mul_fx(u.z, v.x) - mul_fx(u.x, v.z),
                z: mul_fx(u.x, v.y) - mul_fx(u.y, v.x),
            }),
    ;
}

/// A reflection of a unit-scale vector about a unit-scale normal stays
/// within a tenth of the ray-direction range.
pub proof fn lemma_reflect_bound(v: V3, n: V3)
    requires
        in_bound_v(v, 2_100_000),
        in_bound_v(n, 2_100_000),
    ensures
        in_bound_v(reflect_v(v, n), 100_000_000),
{
    lemma_dot_bound(v, n, 2_100_000, 2_100_000);
    lemma_scale_bound(n, 2 * dot_v(v, n), 2_100_000, 26_460_000, 55_566_000);
}

/// A refraction of a unit-scale vector through a unit-scale normal stays
/// well within the ray-direction range.
pub proof fn lemma_refract_bound(v: V3, n: V3, ratio: int)
    requires
        in_bound_v(v, 2_100_000),
        in_bound_v(n, 2_100_000),
        0 < ratio <= 4_000_000,
    ensures
        in_bound_v(refract_v(v, n, ratio), 600_000_000),
{
    let cos_theta = -min_i(dot_v(v, n), SCALE as int);
    lemma_dot_bound(v, n, 2_100_000, 2_100_000);
    lemma_scale_bound(n, cos_theta, 2_100_000, 13_230_000, 27_783_000);
    let inner = add_v(v, scale_v(n, cos_theta));
    let r_perp = scale_v(inner, ratio);
    lemma_scale_bound(inner, ratio, 29_883_000, 4_000_000, 119_532_000);
    lemma_lensq_bounds(r_perp, 119_532_000);
    let k = lensq_v(r_perp);
    let r_par_len = sqrt_fx(abs_i((SCALE as int) - k));
    lemma_sqrt_fx_upper(abs_i((SCALE as int) - k), 210_000_000);
    lemma_scale_bound(n, -r_par_len, 2_100_000, 210_000_000, 441_000_000);
}

/// Refraction at exact normal incidence passes the ray straight through,
/// whatever the refraction ratio: for an exactly unit normal `n` and the
/// incoming direction `-n`, the refracted direction is `-n` itself, with
/// no rounding error at all. Entering and immediately leaving a parallel
/// interface therefore returns the original direction exactly.
pub proof fn lemma_refract_normal_incidence(n: V3, ratio: int)
    requires
        in_bound_v(n, 2_100_000),
        dot_v(n, n) == SCALE,
        0 < ratio <= 4_000_000,
    ensures
        refract_v(neg_v(n), n, ratio) == neg_v(n),
{
    crate::fixed::lemma_mul_fx_neg(n.x, n.x);
    crate::fixed::lemma_mul_fx_neg(n.y, n.y);
    crate::fixed::lemma_mul_fx_neg(n.z, n.z);
    assert(dot_v(neg_v(n), n) == -(SCALE as int));
    crate::fixed::lemma_mul_fx_one(n.x);
    crate::fixed::lemma_mul_fx_one(n.y);
    crate::fixed::lemma_mul_fx_one(n.z);
    assert(scale_v(n, (SCALE as int)) == n);
    let zero = V3 { x: 0, y: 0, z: 0 };
    assert(add_v(neg_v(n), scale_v(n, (SCALE as int))) == zero);
    assert(mul_fx(0, ratio) == 0) by (nonlinear_arith);
    assert(scale_v(zero, ratio) == zero);
    assert(mul_fx(0, 0) == 0) by (nonlinear_arith);
    assert(lensq_v(zero) == 0);
    crate::fixed::lemma_sqrt_fx_props(SCALE as int);
    assert(is_isqrt((SCALE as int) * (SCALE as int), SCALE as int)) by (nonlinear_arith);
    crate::fixed::lemma_isqrt_unique(
        (SCALE as int) * (SCALE as int),
        SCALE as int,
        sqrt_fx(SCALE as int),
    );
    crate::fixed::lemma_mul_fx_neg(SCALE as int, n.x);
    crate::fixed::lemma_mul_fx_neg(SCALE as int, n.y);
    crate::fixed::lemma_mul_fx_neg(SCALE as int, n.z);
    crate::fixed::lemma_mul_fx_one(-n.x);
    crate::fixed::lemma_mul_fx_one(-n.y);
    crate::fixed::lemma_mul_fx_one(-n.z);
    assert(scale_v(n, -(SCALE as int)) == neg_v(n));
    assert(refract_v(neg_v(n), n, ratio) == add_v(zero, neg_v(n)));
}

impl Vec3 {
    /// The vector with the given fixed-point components.
    pub fn new(x: i128, y: i128, z: i128) -> (r: Vec3)
        ensures
            r@ == (V3 { x: x as int, y: y as int, z: z as int }),
    {
        Vec3 { x, y, z }
    }

    /// Componentwise sum.
    pub fn add(&self, rhs: &Vec3) -> (r: Vec3)
        requires
            in_bound_v(self@, VEC_SUM_MAX as int),
            in_bound_v(rhs@, VEC_SUM_MAX as int),
        ensures
            r@ == add_v(self@, rhs@),
    {
        Vec3 { x: self.x + rhs.x, y: self.y + rhs.y, z: self.z + rhs.z }
    }

    /// Componentwise difference.
    pub fn sub(&self, rhs: &Vec3) -> (r: Vec3)
        requires
            in_bound_v(self@, VEC_SUM_MAX as int),
            in_bound_v(rhs@, VEC_SUM_MAX as int),
        ensures
            r@ == sub_v(self@, rhs@),
    {
        Vec3 { x: self.x - rhs.x, y: self.y - rhs.y, z: self.z - rhs.z }
    }

    /// Componentwise negation.
    pub fn neg(&self) -> (r: Vec3)
        requires
            in_bound_v(self@, VEC_SUM_MAX as int),
        ensures
            r@ == neg_v(self@),
    {
        Vec3 { x: -self.x, y: -self.y, z: -self.z }
    }

    /// Componentwise fixed-point product, used to attenuate colors.
    pub fn mul(&self, rhs: &Vec3) -> (r: Vec3)
        requires
            in_bound_v(self@, FMUL_ARG_MAX as int),
            in_bound_v(rhs@, FMUL_ARG_MAX as int),
        ensures
            r@ == cmul_v(self@, rhs@),
    {
        Vec3 { x: fmul(self.x, rhs.x), y: fmul(self.y, rhs.y), z: fmul(self.z, rhs.z) }
    }

    /// Fixed-point product with a scalar.
    pub fn scale(&self, k: i128) -> (r: Vec3)
        requires
            in_bound_v(self@, FMUL_ARG_MAX as int),
            -FMUL_ARG_MAX <= k <= FMUL_ARG_MAX,
        ensures
            r@ == scale_v(self@, k as int),
    {
        Vec3 { x: fmul(self.x, k), y: fmul(self.y, k), z: fmul(self.z, k) }
    }

    /// Fixed-point quotient by a scalar.
    pub fn div(&self, k: i128) -> (r: Vec3)
        requires
            in_bound_v(self@, FDIV_ARG_MAX as int),
            -FDIV_ARG_MAX <= k <= FDIV_ARG_MAX,
            k != 0,
        ensures
            r@ == divs_v(self@, k as int),
    {
        Vec3 { x: fdiv(self.x, k), y: fdiv(self.y, k), z: fdiv(self.z, k) }
    }

    /// Fixed-point dot product.
    pub fn dot(&self, other: &Vec3) -> (r: i128)
        requires
            in_bound_v(self@, VEC_DOT_MAX as int),
            in_bound_v(other@, VEC_DOT_MAX as int),
        ensures
            r == dot_v(self@, other@),
    {
        proof {
            lemma_mul_fx_bound(self.x as int, other.x as int, VEC_DOT_MAX as int, VEC_DOT_MAX as int);
            lemma_mul_fx_bound(self.y as int, other.y as int, VEC_DOT_MAX as int, VEC_DOT_MAX as int);
            lemma_mul_fx_bound(self.z as int, other.z as int, VEC_DOT_MAX as int, VEC_DOT_MAX as int);
        }
        fmul(self.x, other.x) + fmul(self.y, other.y) + fmul(self.z, other.z)
    }

    /// Fixed-point cross product.
    pub fn cross(&self, other: &Vec3) -> (r: Vec3)
        requires
            in_bound_v(self@, VEC_DOT_MAX as int),
            in_bound_v(other@, VEC_DOT_MAX as int),
        ensures
            r@ == cross_v(self@, other@),
    {
        proof {
            lemma_mul_fx_bound(self.y as int, other.z as int, VEC_DOT_MAX as int, VEC_DOT_MAX as int);
            lemma_mul_fx_bound(self.z as int, other.y as int, VEC_DOT_MAX as int, VEC_DOT_MAX as int);
            lemma_mul_fx_bound(self.z as int, other.x as int, VEC_DOT_MAX as int, VEC_DOT_MAX as int);
            lemma_mul_fx_bound(self.x as int, other.z as int, VEC_DOT_MAX as int, VEC_DOT_MAX as int);
            lemma_mul_fx_bound(self.x as int, other.y as int, VEC_DOT_MAX as int, VEC_DOT_MAX as int);
            lemma_mul_fx_bound(self.y as int, other.x as int, VEC_DOT_MAX as int, VEC_DOT_MAX as int);
        }
        Vec3 {
            x: fmul(self.y, other.z) - fmul(self.z, other.y),
            y: fmul(self.z, other.x) - fmul(self.x, other.z),
            z: fmul(self.x, other.y) - fmul(self.y, other.x),
        }
    }

    /// Fixed-point squared length.
    pub fn length_squared(&self) -> (r: i128)
        requires
            in_bound_v(self@, VEC_DOT_MAX as int),
        ensures
            r == lensq_v(self@),
    {
        self.dot(self)
    }

    /// Fixed-point length.
    pub fn length(&self) -> (r: i128)
        requires
            in_bound_v(self@, VEC_DOT_MAX as int),
        ensures
            r == len_v(self@),
            r >= 0,
    {
        proof {
            lemma_lensq_bounds(self@, VEC_DOT_MAX as int);
        }
        let sq = self.length_squared();
        fsqrt(sq)
    }

    /// The vector scaled to unit length. Callers must rule out the zero
    /// vector, whose direction is undefined.
    pub fn normalize(&self) -> (r: Vec3)
        requires
            in_bound_v(self@, VEC_DOT_MAX as int),
            lensq_v(self@) >= 1,
        ensures
            r@ == unit_v(self@),
    {
        proof {
            lemma_lensq_bounds(self@, VEC_DOT_MAX as int);
            lemma_len_bounds(self@, 4_000_000_000_000_000_000);
        }
        let l = self.length();
        self.div(l)
    }

    /// True when every component is below one quantum in magnitude, the
    /// fixed-point analogue of an epsilon test against a degenerate vector.
    pub fn near_zero(&self) -> (r: bool)
        ensures
            r == near_zero_v(self@),
    {
        self.x == 0 && self.y == 0 && self.z == 0
    }

    /// Mirror reflection about the normal `n`.
    pub fn reflect(&self, normal: &Vec3) -> (r: Vec3)
        requires
            in_bound_v(self@, VEC_REFLECT_MAX as int),
            in_bound_v(normal@, VEC_UNIT_MAX as int),
        ensures
            r@ == reflect_v(self@, normal@),
    {
        proof {
            lemma_dot_bound(self@, normal@, VEC_REFLECT_MAX as int, VEC_UNIT_MAX as int);
        }
        let d = self.dot(normal);
        let scaled = normal.scale(2 * d);
        proof {
            lemma_mul_fx_bound(normal@.x, 2 * d, VEC_UNIT_MAX as int, abs_i(2 * d));
            lemma_mul_fx_bound(normal@.y, 2 * d, VEC_UNIT_MAX as int, abs_i(2 * d));
            lemma_mul_fx_bound(normal@.z, 2 * d, VEC_UNIT_MAX as int, abs_i(2 * d));
        }
        self.sub(&scaled)
    }

    /// Snell refraction through a surface with normal `n`; callers detect
    /// total internal reflection beforehand.
    pub fn refract(&self, n: &Vec3, etai_over_etat: i128) -> (r: Vec3)
        requires
            in_bound_v(self@, VEC_REFLECT_MAX as int),
            in_bound_v(n@, VEC_UNIT_MAX as int),
            0 < etai_over_etat <= VEC_UNIT_MAX,
        ensures
            r@ == refract_v(self@, n@, etai_over_etat as int),
    {
        proof {
            lemma_dot_bound(self@, n@, VEC_REFLECT_MAX as int, VEC_UNIT_MAX as int);
        }
        let d = self.dot(n);
        let cos_theta = -fmin(d, SCALE);
        let scaled_n = n.scale(cos_theta);
        proof {
            lemma_scale_bound(
                n@,
                cos_theta as int,
                VEC_UNIT_MAX as int,
                13_000_000_000_000,
                52_000_000_000_000,
            );
        }
        let summed = self.add(&scaled_n);
        let r_perp = summed.scale(etai_over_etat);
        proof {
            lemma_scale_bound(
                summed@,
                etai_over_etat as int,
                53_000_000_000_000,
                VEC_UNIT_MAX as int,
                212_000_000_000_000,
            );
            lemma_lensq_bounds(r_perp@, 212_000_000_000_000);
        }
        let k = r_perp.length_squared();
        let m = SCALE - k;
        let am = if m < 0 {
            -m
        } else {
            m
        };
        proof {
            lemma_sqrt_fx_upper(am as int, 400_000_000_000_000);
        }
        let r_par_len = fsqrt(am);
        let par = n.scale(-r_par_len);
        proof {
            lemma_scale_bound(
                n@,
                -r_par_len as int,
                VEC_UNIT_MAX as int,
                400_000_000_000_000,
                1_600_000_000_000_000,
            );
        }
        r_perp.add(&par)
    }

    /// Rotation about the x axis, given the sine and cosine of the angle.
    pub fn rotate_x(&self, sin_phi: i128, cos_phi: i128) -> (r: Vec3)
        requires
            in_bound_v(self@, 100_000_000_000_000),
            -VEC_UNIT_MAX <= sin_phi <= VEC_UNIT_MAX,
            -VEC_UNIT_MAX <= cos_phi <= VEC_UNIT_MAX,
        ensures
            r@ == rotate_x_v(self@, sin_phi as int, cos_phi as int),
    {
        proof {
            lemma_mul_fx_bound(self@.y, cos_phi as int, 100_000_000_000_000, VEC_UNIT_MAX as int);
            lemma_mul_fx_bound(self@.z, sin_phi as int, 100_000_000_000_000, VEC_UNIT_MAX as int);
            lemma_mul_fx_bound(self@.y, sin_phi as int, 100_000_000_000_000, VEC_UNIT_MAX as int);
            lemma_mul_fx_bound(self@.z, cos_phi as int, 100_000_000_000_000, VEC_UNIT_MAX as int);
        }
        Vec3 {
            x: self.x,
            y: fmul(self.y, cos_phi) - fmul(self.z, sin_phi),
            z: fmul(self.y, sin_phi) + fmul(self.z, cos_phi),
        }
    }

    /// Rotation about the y axis, given the sine and cosine of the angle.
    pub fn rotate_y(&self, sin_theta: i128, cos_theta: i128) -> (r: Vec3)
        requires
            in_bound_v(self@, 100_000_000_000_000),
            -VEC_UNIT_MAX <= sin_theta <= VEC_UNIT_MAX,
            -VEC_UNIT_MAX <= cos_theta <= VEC_UNIT_MAX,
        ensures
            r@ == rotate_y_v(self@, sin_theta as int, cos_theta as int),
    {
        proof {
            lemma_mul_fx_bound(self@.x, cos_theta as int, 100_000_000_000_000, VEC_UNIT_MAX as int);
            lemma_mul_fx_bound(self@.z, sin_theta as int, 100_000_000_000_000, VEC_UNIT_MAX as int);
            lemma_mul_fx_bound(self@.x, sin_theta as int, 100_000_000_000_000, VEC_UNIT_MAX as int);
            lemma_mul_fx_bound(self@.z, cos_theta as int, 100_000_000_000_000, VEC_UNIT_MAX as int);
        }
        Vec3 {
            x: fmul(self.x, cos_theta) + fmul(self.z, sin_theta),
            y: self.y,
            z: -fmul(self.x, sin_theta) + fmul(self.z, cos_theta),
        }
    }

    /// Rotation about the x axis followed by rotation about the y axis,
    /// each angle given by its sine and cosine.
    pub fn rotate(&self, sin_theta: i128, cos_theta: i128, sin_phi: i128, cos_phi: i128) -> (r:
        Vec3)
        requires
            in_bound_v(self@, VEC_REFLECT_MAX as int),
            -VEC_UNIT_MAX <= sin_theta <= VEC_UNIT_MAX,
            -VEC_UNIT_MAX <= cos_theta <= VEC_UNIT_MAX,
            -VEC_UNIT_MAX <= sin_phi <= VEC_UNIT_MAX,
            -VEC_UNIT_MAX <= cos_phi <= VEC_UNIT_MAX,
        ensures
            r@ == rotate_v(self@, sin_theta as int, cos_theta as int, sin_phi as int, cos_phi as int),
    {
        let turned = self.rotate_x(sin_theta, cos_theta);
        proof {
            lemma_mul_fx_bound(self@.y, cos_theta as int, VEC_REFLECT_MAX as int, VEC_UNIT_MAX as int);
            lemma_mul_fx_bound(self@.z, sin_theta as int, VEC_REFLECT_MAX as int, VEC_UNIT_MAX as int);
            lemma_mul_fx_bound(self@.y, sin_theta as int, VEC_REFLECT_MAX as int, VEC_UNIT_MAX as int);
            lemma_mul_fx_bound(self@.z, cos_theta as int, VEC_REFLECT_MAX as int, VEC_UNIT_MAX as int);
        }
        turned.rotate_y(sin_phi, cos_phi)
    }
}

} // verus!
