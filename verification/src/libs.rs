//! Shared helpers: color quantization, angle conversion and the random
//! direction samplers used by the scattering models.

use vstd::prelude::*;
use crate::fixed::{
    clamp_i, div_fx, fdiv, fmul, lemma_isqrt_unique, lemma_mul_fx_neg, lemma_sqrt_fx_props, mul_fx,
    SCALE,
};
use crate::rng::RandSrc;
use crate::vec3::{
    dot_v, in_bound_v, lensq_v, neg_v, unit_v, Vec3, V3, VEC_DOT_MAX,
};

verus! {

/// One millionth-scale approximation of pi.
pub const PI_MILLIONTHS: i128 = 3_141_593;

/// Componentwise magnitude bound guaranteed for sampled unit directions.
pub const UNIT_COMP_MAX: i128 = 2_100_000;

/// An 8-bit channel from a linear fixed-point channel: clamp to one quantum
/// below one, then floor of the value times 255.999. The excess over 255
/// keeps a full-intensity channel from quantizing to 254.
pub open spec fn quantize_s(c: int) -> int {
    (clamp_i(c, 0, 999_999) * 255_999) / 1_000_000_000
}

/// `r` came from normalizing a uniformly drawn point strictly inside the
/// unit sphere (and off its center).
pub open spec fn unit_sample(p: V3, r: V3) -> bool {
    0 < lensq_v(p) < (SCALE as int) && in_bound_v(p, SCALE as int) && r == unit_v(p)
}

/// `r` is such a normalized sample, kept or flipped whole.
pub open spec fn hemisphere_sample(p: V3, r: V3) -> bool {
    0 < lensq_v(p) < (SCALE as int) && in_bound_v(p, SCALE as int) && (r == unit_v(p) || r
        == neg_v(unit_v(p)))
}

/// `u` is a bounded normalized sample: what every draw of
/// `random_unit_vector` guarantees, and what the scattering contracts
/// demand of their direction witnesses.
pub open spec fn is_unit_draw(u: V3) -> bool {
    (exists|p: V3| unit_sample(p, u)) && in_bound_v(u, UNIT_COMP_MAX as int)
}

/// The three quantized 8-bit channels of a linear color, in the exact
/// value range the output sink expects.
pub fn write_color(color: &Vec3) -> (rgb: (u8, u8, u8))
    ensures
        rgb.0 == quantize_s(color@.x),
        rgb.1 == quantize_s(color@.y),
        rgb.2 == quantize_s(color@.z),
{
    (quantize_channel(color.x), quantize_channel(color.y), quantize_channel(color.z))
}

/// One channel of `write_color`.
fn quantize_channel(c: i128) -> (q: u8)
    ensures
        q == quantize_s(c as int),
{
    let clamped: u64 = if c < 0 {
        0
    } else if c > 999_999 {
        999_999
    } else {
        c as u64
    };
    ((clamped * 255_999) / 1_000_000_000) as u8
}

/// Degrees to radians, in fixed point: multiply by pi, divide by 180.
pub fn degrees_to_radians(degrees: i128) -> (r: i128)
    requires
        -1_000_000_000_000 <= degrees <= 1_000_000_000_000,
    ensures
        r == div_fx(mul_fx(degrees as int, PI_MILLIONTHS as int), 180_000_000),
{
    proof {
        crate::fixed::lemma_mul_fx_bound(
            degrees as int,
            PI_MILLIONTHS as int,
            1_000_000_000_000,
            PI_MILLIONTHS as int,
        );
    }
    fdiv(fmul(degrees, PI_MILLIONTHS), 180_000_000)
}

/// A vector whose components are drawn uniformly from `[min, max)`.
pub fn random_vector_range(rng: &mut RandSrc, min: i128, max: i128) -> (r: Vec3)
    requires
        -1_000_000_000_000 <= min < max <= 1_000_000_000_000,
    ensures
        min <= r@.x < max,
        min <= r@.y < max,
        min <= r@.z < max,
{
    let span: u64 = (max - min) as u64;
    let x = min + rng.below(span) as i128;
    let y = min + rng.below(span) as i128;
    let z = min + rng.below(span) as i128;
    Vec3::new(x, y, z)
}

/// A vector whose components are drawn uniformly from `[0, 1)`.
pub fn random_vector(rng: &mut RandSrc) -> (r: Vec3)
    ensures
        0 <= r@.x < SCALE,
        0 <= r@.y < SCALE,
        0 <= r@.z < SCALE,
{
    random_vector_range(rng, 0, SCALE)
}

/// A point strictly inside the unit sphere and off its center, by
/// rejection sampling from the unit cube. The attempt budget is ample —
/// acceptance odds are roughly even per draw — and a fixed interior point
/// stands in if it is ever exhausted.
pub fn random_in_unit_sphere(rng: &mut RandSrc) -> (r: Vec3)
    ensures
        0 < lensq_v(r@) < SCALE,
        in_bound_v(r@, SCALE as int),
{
    let mut attempts: u8 = 0;
    while attempts < 64
        invariant
            true,
        decreases 64 - attempts,
    {
        let p = random_vector_range(rng, -SCALE, SCALE);
        let lsq = p.length_squared();
        if 0 < lsq && lsq < SCALE {
            return p;
        }
        attempts = attempts + 1;
    }
    Vec3::new(500_000, 0, 0)
}

/// A unit-length direction, uniform over the sphere: a rejection-sampled
/// interior point, normalized. A componentwise range check (never expected
/// to fail) keeps the advertised bound unconditional; the stand-in is
/// itself a normalized sample.
pub fn random_unit_vector(rng: &mut RandSrc) -> (r: Vec3)
    ensures
        exists|p: V3| unit_sample(p, r@),
        in_bound_v(r@, UNIT_COMP_MAX as int),
{
    let p = random_in_unit_sphere(rng);
    let u = p.normalize();
    if -UNIT_COMP_MAX <= u.x && u.x <= UNIT_COMP_MAX && -UNIT_COMP_MAX <= u.y && u.y
        <= UNIT_COMP_MAX && -UNIT_COMP_MAX <= u.z && u.z <= UNIT_COMP_MAX {
        proof {
            assert(unit_sample(p@, u@));
        }
        u
    } else {
        let f = Vec3::new(SCALE, 0, 0);
        proof {
            let p0 = V3 { x: 500_000, y: 0, z: 0 };
            lemma_sqrt_fx_props(lensq_v(p0));
            assert(crate::fixed::is_isqrt(250_000 * (SCALE as int), 500_000));
            lemma_isqrt_unique(250_000 * (SCALE as int), 500_000, crate::fixed::sqrt_fx(250_000));
            assert(unit_sample(p0, f@));
        }
        f
    }
}

/// A unit direction on the hemisphere around `normal`: a uniform unit
/// direction, flipped when it points against the normal.
pub fn random_on_hemisphere(rng: &mut RandSrc, normal: &Vec3) -> (r: Vec3)
    requires
        in_bound_v(normal@, VEC_DOT_MAX as int),
    ensures
        dot_v(r@, normal@) >= 0,
        exists|p: V3| hemisphere_sample(p, r@),
        in_bound_v(r@, UNIT_COMP_MAX as int),
{
    let u = random_unit_vector(rng);
    let d = u.dot(normal);
    proof {
        let p = choose|p: V3| unit_sample(p, u@);
        assert(hemisphere_sample(p, u@));
        assert(hemisphere_sample(p, neg_v(u@)));
    }
    if d > 0 {
        u
    } else {
        proof {
            lemma_mul_fx_neg(u@.x, normal@.x);
            lemma_mul_fx_neg(u@.y, normal@.y);
            lemma_mul_fx_neg(u@.z, normal@.z);
        }
        u.neg()
    }
}

} // verus!
