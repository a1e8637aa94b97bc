//! Surface materials: diffuse, reflective and refractive scattering.

use vstd::prelude::*;
use crate::fixed::{clamp_i, div_fx, fclamp, fdiv, fmul, fsqrt, mul_fx, sqrt_fx, SCALE};
use crate::hittable::{wf_ray_v, HitRecV, HitRecord, COORD_MAX, DIR_MAX, NORMAL_MAX};
use crate::libs::{is_unit_draw, random_unit_vector, UNIT_COMP_MAX};
use crate::ray::Ray;
use crate::rng::RandSrc;
use crate::vec3::{
    add_v, dot_v, in_bound_v, lemma_dot_bound, lemma_lensq_bounds, lemma_mul_fx_sq_nonneg,
    lemma_reflect_bound, lemma_refract_bound, lemma_scale_bound, lemma_unit_bound, lensq_v,
    near_zero_v, reflect_v, refract_v, scale_v, unit_v, Vec3, V3,
};

verus! {

/// Smallest refraction index a dielectric may carry (a quarter).
pub const REFRACTION_MIN: i128 = 250_000;

/// Largest refraction index a dielectric may carry (four).
pub const REFRACTION_MAX: i128 = 4_000_000;

/// How a surface scatters an incoming ray. The same value may be attached
/// to any number of primitives; it is plain copyable data.
#[derive(Clone, Copy, Debug, PartialEq, Eq, Structural)]
pub enum Material {
    /// Diffuse: scatters around the surface normal, tinted by `albedo`.
    Lambertian { albedo: Vec3 },
    /// Reflective: mirrors the incoming ray, roughened by `fuzziness`.
    Metal { albedo: Vec3, fuzziness: i128 },
    /// Refractive: bends or mirrors the ray by Snell's law and Schlick's
    /// reflectance approximation.
    Dielectric { albedo: Vec3, refraction_index: i128 },
}

/// An albedo is a per-channel fraction of retained light, in `[0, 1]`.
pub open spec fn wf_albedo(albedo: Vec3) -> bool {
    0 <= albedo@.x <= SCALE && 0 <= albedo@.y <= SCALE && 0 <= albedo@.z <= SCALE
}

/// Parameter ranges the scattering algorithms rely on: fractional albedo
/// and fuzz, and a refraction index within physical glass-like bounds.
pub open spec fn wf_material(m: Material) -> bool {
    match m {
        Material::Lambertian { albedo } => wf_albedo(albedo),
        Material::Metal { albedo, fuzziness } => wf_albedo(albedo) && 0 <= fuzziness <= SCALE,
        Material::Dielectric { albedo, refraction_index } => wf_albedo(albedo) && REFRACTION_MIN
            <= refraction_index <= REFRACTION_MAX,
    }
}

/// Schlick's reflectance approximation in fixed point:
/// `r0 + (1 - r0) (1 - cos)^5` with `r0 = ((1 - ri) / (1 + ri))^2`,
/// the fifth power evaluated as `((t^2)^2) * t`.
pub open spec fn reflectance_s(cosine: int, ri: int) -> int {
    let r0 = div_fx((SCALE as int) - ri, (SCALE as int) + ri);
    let r0sq = mul_fx(r0, r0);
    let t = (SCALE as int) - cosine;
    let t2 = mul_fx(t, t);
    let t4 = mul_fx(t2, t2);
    let t5 = mul_fx(t4, t);
    r0sq + mul_fx((SCALE as int) - r0sq, t5)
}

/// The diffuse scatter direction for a drawn unit sample `u`: the normal
/// plus `u`, or the normal alone when the sum degenerates to zero.
pub open spec fn lambertian_dir(normal: V3, u: V3) -> V3 {
    if near_zero_v(add_v(normal, u)) {
        normal
    } else {
        add_v(normal, u)
    }
}

/// `d` is the diffuse scatter direction for some normalized sample `u`.
pub open spec fn lambertian_matches(normal: V3, u: V3, d: V3) -> bool {
    is_unit_draw(u) && d == lambertian_dir(normal, u)
}

/// The rough-mirror direction for a drawn unit sample `u`: the normalized
/// reflection, perturbed by `fuzziness` times `u`.
pub open spec fn metal_dir(din: V3, normal: V3, fuzziness: int, u: V3) -> V3 {
    add_v(unit_v(reflect_v(din, normal)), scale_v(u, fuzziness))
}

/// The full metal outcome for a drawn unit sample `u`: absorbed when the
/// reflection degenerates to zero or the perturbed direction points into
/// the surface, otherwise a scattered ray from the hit point.
pub open spec fn metal_outcome(
    albedo: Vec3,
    fuzziness: int,
    din: V3,
    rec: HitRecV,
    u: V3,
    res: Option<(Vec3, Ray)>,
) -> bool {
    &&& is_unit_draw(u)
    &&& if lensq_v(reflect_v(din, rec.normal)) == 0 {
        res is None
    } else {
        let d = metal_dir(din, rec.normal, fuzziness, u);
        if dot_v(d, rec.normal) > 0 {
            &&& res is Some
            &&& res->Some_0.0 == albedo
            &&& res->Some_0.1@.origin == rec.point
            &&& res->Some_0.1@.direction == d
        } else {
            res is None
        }
    }
}

/// The effective refraction ratio: inverted when entering from outside.
pub open spec fn dielectric_ratio(ri: int, front_face: bool) -> int {
    if front_face {
        div_fx(SCALE as int, ri)
    } else {
        ri
    }
}

/// Cosine of the incident angle, forced into `[-1, 1]`.
pub open spec fn dielectric_cos(din: V3, normal: V3) -> int {
    clamp_i(-dot_v(unit_v(din), normal), -(SCALE as int), SCALE as int)
}

/// Sine of the incident angle, from the cosine.
pub open spec fn dielectric_sin(din: V3, normal: V3) -> int {
    sqrt_fx((SCALE as int) - mul_fx(dielectric_cos(din, normal), dielectric_cos(din, normal)))
}

/// Total internal reflection: Snell's law has no refracted solution.
pub open spec fn dielectric_tir(din: V3, normal: V3, front_face: bool, ri: int) -> bool {
    mul_fx(dielectric_ratio(ri, front_face), dielectric_sin(din, normal)) > (SCALE as int)
}

/// The dielectric scatter direction for a drawn reflectance threshold `q`:
/// reflect on total internal reflection or when the Schlick probability
/// exceeds `q`, otherwise refract.
pub open spec fn dielectric_dir(din: V3, normal: V3, front_face: bool, ri: int, q: int) -> V3 {
    let ratio = dielectric_ratio(ri, front_face);
    if dielectric_tir(din, normal, front_face, ri) || reflectance_s(
        dielectric_cos(din, normal),
        ratio,
    ) > q {
        reflect_v(unit_v(din), normal)
    } else {
        refract_v(unit_v(din), normal, ratio)
    }
}

/// `res` is the dielectric outcome for some in-range threshold `q`.
pub open spec fn dielectric_matches(
    ri: int,
    din: V3,
    rec: HitRecV,
    q: int,
    res: Option<(Vec3, Ray)>,
) -> bool {
    &&& 0 <= q < SCALE
    &&& res matches Some(pair) && pair.1@.direction == dielectric_dir(
        din,
        rec.normal,
        rec.front_face,
        ri,
        q,
    )
}

/// The whole scatter outcome for one hit, per material, with the random
/// draw as an existential witness: a diffuse surface always scatters
/// around its normal, a metal mirrors (absorbing grazing self-occlusion),
/// a dielectric reflects or refracts by its threshold; every scattered
/// ray leaves from the hit point.
pub open spec fn scatter_matches(
    m: Material,
    din: V3,
    rec: HitRecV,
    res: Option<(Vec3, Ray)>,
) -> bool {
    &&& (res is Some ==> res->Some_0.1@.origin == rec.point)
    &&& match m {
        Material::Lambertian { albedo } => {
            &&& res is Some
            &&& res->Some_0.0 == albedo
            &&& exists|u: V3| lambertian_matches(rec.normal, u, res->Some_0.1@.direction)
        },
        Material::Metal { albedo, fuzziness } => exists|u: V3|
            metal_outcome(albedo, fuzziness as int, din, rec, u, res),
        Material::Dielectric { albedo, refraction_index } => {
            &&& res is Some
            &&& res->Some_0.0 == albedo
            &&& exists|q: int| dielectric_matches(refraction_index as int, din, rec, q, res)
        },
    }
}

impl Material {
    /// The probability that a dielectric reflects instead of refracting,
    /// by Schlick's approximation.
    pub fn reflectance(cosine: i128, ri: i128) -> (r: i128)
        requires
            -2_000_000 <= cosine <= SCALE,
            REFRACTION_MIN <= ri <= REFRACTION_MAX,
        ensures
            r == reflectance_s(cosine as int, ri as int),
    {
        let r0 = fdiv(SCALE - ri, SCALE + ri);
        proof {
            crate::fixed::lemma_tdiv_abs_le(
                ((SCALE as int) - ri) * (SCALE as int),
                (SCALE as int) + ri,
            );
            assert(crate::fixed::abs_i(r0 as int) <= 2_400_000) by (nonlinear_arith)
                requires
                    ((SCALE as int) + ri) * crate::fixed::abs_i(r0 as int) <= crate::fixed::abs_i(
                        ((SCALE as int) - ri) * (SCALE as int),
                    ),
                    crate::fixed::abs_i(((SCALE as int) - ri) * (SCALE as int))
                        <= 3_000_000_000_000,
                    (SCALE as int) + ri >= 1_250_000,
            ;
            crate::fixed::lemma_mul_fx_bound(r0 as int, r0 as int, 2_400_000, 2_400_000);
        }
        let r0sq = fmul(r0, r0);
        let t = SCALE - cosine;
        let t2 = fmul(t, t);
        proof {
            crate::fixed::lemma_mul_fx_bound(t as int, t as int, 3_000_000, 3_000_000);
            crate::fixed::lemma_mul_fx_bound(t2 as int, t2 as int, 9_000_000, 9_000_000);
        }
        let t4 = fmul(t2, t2);
        proof {
            crate::fixed::lemma_mul_fx_bound(t4 as int, t as int, 81_000_000, 3_000_000);
            crate::fixed::lemma_mul_fx_bound(
                (SCALE as int) - mul_fx(r0 as int, r0 as int),
                mul_fx(t4 as int, t as int),
                7_000_000,
                243_000_000,
            );
        }
        let t5 = fmul(t4, t);
        r0sq + fmul(SCALE - r0sq, t5)
    }

    /// How this surface scatters `ray_in` at the hit described by
    /// `hit_record`: `None` means the ray is absorbed; otherwise the
    /// attenuation color and the outgoing ray, which always leaves from
    /// the hit point with a bounded direction.
    pub fn scatter(&self, ray_in: &Ray, hit_record: &HitRecord, rng: &mut RandSrc) -> (res: Option<
        (Vec3, Ray),
    >)
        requires
            wf_material(*self),
            wf_ray_v(ray_in@),
            lensq_v(ray_in@.direction) >= 1,
            in_bound_v(hit_record@.point, COORD_MAX as int),
            in_bound_v(hit_record@.normal, NORMAL_MAX as int),
            !near_zero_v(hit_record@.normal),
        ensures
            scatter_matches(*self, ray_in@.direction, hit_record@, res),
            res is Some ==> res->Some_0.1@.origin == hit_record@.point,
            res is Some ==> in_bound_v(res->Some_0.1@.direction, DIR_MAX as int),
            res is Some ==> wf_albedo(res->Some_0.0),
            *self matches Material::Lambertian { albedo } ==> {
                &&& res is Some
                &&& res->Some_0.0 == albedo
                &&& !near_zero_v(res->Some_0.1@.direction)
                &&& exists|u: V3|
                    lambertian_matches(hit_record@.normal, u, res->Some_0.1@.direction)
            },
            *self matches Material::Metal { albedo, fuzziness } ==> exists|u: V3|
                metal_outcome(
                    albedo,
                    fuzziness as int,
                    ray_in@.direction,
                    hit_record@,
                    u,
                    res,
                ),
            *self matches Material::Metal { albedo, fuzziness } && fuzziness == 0 && res is Some
                ==> res->Some_0.1@.direction == unit_v(
                reflect_v(ray_in@.direction, hit_record@.normal),
            ),
            *self matches Material::Dielectric { albedo, refraction_index } ==> {
                &&& res is Some
                &&& res->Some_0.0 == albedo
                &&& exists|q: int|
                    dielectric_matches(
                        refraction_index as int,
                        ray_in@.direction,
                        hit_record@,
                        q,
                        res,
                    )
                &&& dielectric_tir(
                    ray_in@.direction,
                    hit_record@.normal,
                    hit_record@.front_face,
                    refraction_index as int,
                ) ==> res->Some_0.1@.direction == reflect_v(
                    unit_v(ray_in@.direction),
                    hit_record@.normal,
                )
            },
    {
        match self {
            Material::Lambertian { albedo } => {
                let u = random_unit_vector(rng);
                let summed = hit_record.normal.add(&u);
                let direction = if summed.near_zero() {
                    hit_record.normal
                } else {
                    summed
                };
                let result = Some((*albedo, Ray::new(hit_record.point, direction)));
                proof {
                    assert(result->Some_0.1@.direction == direction@);
                    assert(lambertian_matches(hit_record@.normal, u@, result->Some_0.1@.direction));
                }
                result
            },
            Material::Metal { albedo, fuzziness } => {
                let u = random_unit_vector(rng);
                proof {
                    lemma_dot_bound(
                        ray_in@.direction,
                        hit_record@.normal,
                        DIR_MAX as int,
                        NORMAL_MAX as int,
                    );
                    lemma_scale_bound(
                        hit_record@.normal,
                        2 * dot_v(ray_in@.direction, hit_record@.normal),
                        NORMAL_MAX as int,
                        12_000_000_000,
                        24_000_000_000,
                    );
                }
                let reflected = ray_in.direction.reflect(&hit_record.normal);
                proof {
                    lemma_lensq_bounds(reflect_v(ray_in@.direction, hit_record@.normal),
                        25_000_000_000);
                }
                let lsq = reflected.length_squared();
                if lsq == 0 {
                    proof {
                        assert(metal_outcome(
                            *albedo,
                            *fuzziness as int,
                            ray_in@.direction,
                            hit_record@,
                            u@,
                            None::<(Vec3, Ray)>,
                        ));
                    }
                    return None;
                }
                proof {
                    lemma_unit_bound(reflected@);
                    lemma_scale_bound(
                        u@,
                        *fuzziness as int,
                        UNIT_COMP_MAX as int,
                        SCALE as int,
                        UNIT_COMP_MAX as int,
                    );
                }
                let unit_reflected = reflected.normalize();
                let fuzzed = u.scale(*fuzziness);
                let direction = unit_reflected.add(&fuzzed);
                let alignment = direction.dot(&hit_record.normal);
                if alignment > 0 {
                    let result = Some((*albedo, Ray::new(hit_record.point, direction)));
                    proof {
                        if *fuzziness == 0 {
                            crate::fixed::lemma_mul_fx_bound(u@.x, 0, UNIT_COMP_MAX as int, 0);
                            crate::fixed::lemma_mul_fx_bound(u@.y, 0, UNIT_COMP_MAX as int, 0);
                            crate::fixed::lemma_mul_fx_bound(u@.z, 0, UNIT_COMP_MAX as int, 0);
                            assert(scale_v(u@, 0) == (V3 { x: 0, y: 0, z: 0 }));
                        }
                        assert(metal_outcome(
                            *albedo,
                            *fuzziness as int,
                            ray_in@.direction,
                            hit_record@,
                            u@,
                            result,
                        ));
                    }
                    result
                } else {
                    proof {
                        assert(metal_outcome(
                            *albedo,
                            *fuzziness as int,
                            ray_in@.direction,
                            hit_record@,
                            u@,
                            None::<(Vec3, Ray)>,
                        ));
                    }
                    None
                }
            },
            Material::Dielectric { albedo, refraction_index } => {
                let ri = *refraction_index;
                let ratio = if hit_record.front_face {
                    fdiv(SCALE, ri)
                } else {
                    ri
                };
                proof {
                    if hit_record@.front_face {
                        assert(250_000 <= 1_000_000_000_000int / (ri as int) <= 4_000_000)
                            by (nonlinear_arith)
                            requires
                                250_000 <= ri <= 4_000_000,
                        ;
                    }
                }
                let ud = ray_in.direction.normalize();
                proof {
                    lemma_unit_bound(ray_in@.direction);
                    lemma_dot_bound(unit_v(ray_in@.direction), hit_record@.normal, 2_100_000,
                        NORMAL_MAX as int);
                }
                let d = ud.dot(&hit_record.normal);
                let cos_theta = fclamp(-d, -SCALE, SCALE);
                proof {
                    lemma_mul_fx_sq_nonneg(cos_theta as int);
                    crate::fixed::lemma_mul_fx_bound(
                        cos_theta as int,
                        cos_theta as int,
                        SCALE as int,
                        SCALE as int,
                    );
                }
                let cos2 = fmul(cos_theta, cos_theta);
                proof {
                    crate::fixed::lemma_sqrt_fx_upper((SCALE - cos2) as int, SCALE as int);
                }
                let sin_theta = fsqrt(SCALE - cos2);
                let rs = fmul(ratio, sin_theta);
                let cannot_refract = rs > SCALE;
                let q = rng.below(1_000_000) as i128;
                let reflect_probability = Material::reflectance(cos_theta, ratio);
                proof {
                    lemma_reflect_bound(unit_v(ray_in@.direction), hit_record@.normal);
                    lemma_refract_bound(
                        unit_v(ray_in@.direction),
                        hit_record@.normal,
                        ratio as int,
                    );
                }
                let direction = if cannot_refract || reflect_probability > q {
                    ud.reflect(&hit_record.normal)
                } else {
                    ud.refract(&hit_record.normal, ratio)
                };
                let result = Some((*albedo, Ray::new(hit_record.point, direction)));
                proof {
                    assert(dielectric_matches(
                        ri as int,
                        ray_in@.direction,
                        hit_record@,
                        q as int,
                        result,
                    ));
                }
                result
            },
        }
    }
}

} // verus!
