//! The camera: viewport derivation, per-pixel ray generation, the
//! recursive radiance estimate and frame assembly.

use vstd::prelude::*;
use crate::fixed::{
    abs_i, div_fx, fdiv, fmul, lemma_mul_fx_bound, lemma_tdiv_abs_le, mul_fx, tdiv, SCALE,
};
use crate::hittable::{
    lemma_list_hit_wf, list_hit_s, wf_ray_v, wf_world_v, HittableList, DIR_MAX, T_LIMIT,
};
use crate::libs::random_vector_range;
use crate::material::scatter_matches;
use crate::ray::Ray;
use crate::rng::RandSrc;
use crate::vec3::{
    add_v, cmul_v, cross_v, divs_v, in_bound_v, lemma_cross_bound, lemma_lensq_bounds,
    lemma_scale_bound, lemma_unit_bound, lensq_v, scale_v, sub_v, unit_v, Vec3, V3,
};

verus! {

/// Shadow-acne epsilon: intersections closer than this along the ray are
/// ignored, so a scattered ray cannot re-hit its own origin.
pub const T_MIN: i128 = 1_000;

/// Upper bound on every color component `ray_color` returns: colors are
/// nonnegative and stay within thirty percent above one, the overshoot
/// coming from the background gradient of a normalized direction whose
/// vertical component rounds past one.
pub const COLOR_MAX: i128 = 1_300_000;

/// Largest image dimension the camera accepts.
pub const DIM_MAX: usize = 8192;

/// Componentwise bound that the derived viewport quantities must satisfy.
pub const VIEW_MAX: i128 = 250_000_000;

/// Componentwise magnitude bound on the camera position.
pub const POS_MAX: i128 = 200_000_000;

/// The mathematical value of a camera: its configuration and the derived
/// viewport quantities.
pub ghost struct CameraV {
    pub position: V3,
    pub forward: V3,
    pub world_up: V3,
    pub focal_length: int,
    pub tan_half_vfov: int,
    pub image_width: int,
    pub image_height: int,
    pub samples_per_pixel: int,
    pub max_bounces: int,
    pub camera_center: V3,
    pub pixel_delta_u: V3,
    pub pixel_delta_v: V3,
    pub pixel00_loc: V3,
    pub pixel_sample_scale: int,
}

/// The derived viewport quantities alone.
pub ghost struct CamDerived {
    pub camera_center: V3,
    pub pixel_delta_u: V3,
    pub pixel_delta_v: V3,
    pub pixel00_loc: V3,
    pub pixel_sample_scale: int,
}

/// A camera: position and orientation, virtual sensor geometry, and the
/// sampling parameters of the renderer.
#[derive(Clone, Copy, Debug)]
pub struct Camera {
    pub position: Vec3,
    pub forward: Vec3,
    pub world_up: Vec3,
    pub focal_length: i128,
    pub tan_half_vfov: i128,
    pub image_width: usize,
    pub image_height: usize,
    pub samples_per_pixel: u8,
    pub max_bounces: u8,
    pub camera_center: Vec3,
    pub pixel_delta_u: Vec3,
    pub pixel_delta_v: Vec3,
    pub pixel00_loc: Vec3,
    pub pixel_sample_scale: i128,
}

impl View for Camera {
    type V = CameraV;

    open spec fn view(&self) -> CameraV {
        CameraV {
            position: self.position@,
            forward: self.forward@,
            world_up: self.world_up@,
            focal_length: self.focal_length as int,
            tan_half_vfov: self.tan_half_vfov as int,
            image_width: self.image_width as int,
            image_height: self.image_height as int,
            samples_per_pixel: self.samples_per_pixel as int,
            max_bounces: self.max_bounces as int,
            camera_center: self.camera_center@,
            pixel_delta_u: self.pixel_delta_u@,
            pixel_delta_v: self.pixel_delta_v@,
            pixel00_loc: self.pixel00_loc@,
            pixel_sample_scale: self.pixel_sample_scale as int,
        }
    }
}

/// Configuration ranges the viewport derivation accepts: a bounded
/// position, a usable forward vector not parallel to the world up, and
/// positive bounded optics and sampling parameters.
pub open spec fn wf_config_v(c: CameraV) -> bool {
    &&& in_bound_v(c.position, POS_MAX as int)
    &&& in_bound_v(c.forward, 1_000_000_000)
    &&& lensq_v(c.forward) >= 1
    &&& in_bound_v(c.world_up, 1_000_000_000)
    &&& lensq_v(cross_v(c.world_up, unit_v(c.forward))) >= 1
    &&& 1 <= c.focal_length <= 1_000_000_000
    &&& 1 <= c.tan_half_vfov <= 100_000_000
    &&& 1 <= c.image_width <= DIM_MAX
    &&& 1 <= c.image_height <= DIM_MAX
    &&& 1 <= c.samples_per_pixel <= 255
    &&& 0 <= c.max_bounces <= 255
}

/// The viewport quantities a configuration derives, per the camera model:
/// viewport height `2 tan(vfov/2) focal`, width from the aspect ratio, an
/// orthonormal basis from the forward and world-up vectors, per-pixel
/// deltas, and the world location of the first pixel's center.
pub open spec fn camera_derived(c: CameraV) -> CamDerived {
    let f = unit_v(c.forward);
    let viewport_height = mul_fx(2 * c.tan_half_vfov, c.focal_length);
    let aspect = div_fx(c.image_width * (SCALE as int), c.image_height * (SCALE as int));
    let viewport_width = mul_fx(viewport_height, aspect);
    let right = unit_v(cross_v(c.world_up, f));
    let up = cross_v(f, right);
    let viewport_u = scale_v(right, viewport_width);
    let viewport_v = scale_v(up, -viewport_height);
    let du = divs_v(viewport_u, c.image_width * (SCALE as int));
    let dv = divs_v(viewport_v, c.image_height * (SCALE as int));
    let upper_left = sub_v(
        sub_v(
            sub_v(c.position, scale_v(f, c.focal_length)),
            divs_v(viewport_u, 2 * (SCALE as int)),
        ),
        divs_v(viewport_v, 2 * (SCALE as int)),
    );
    let pixel00 = add_v(upper_left, scale_v(add_v(du, dv), 500_000));
    CamDerived {
        camera_center: c.position,
        pixel_delta_u: du,
        pixel_delta_v: dv,
        pixel00_loc: pixel00,
        pixel_sample_scale: tdiv(SCALE as int, c.samples_per_pixel),
    }
}

/// The derived quantities keep every generated ray within the tracer's
/// ranges: the first pixel and the whole pixel grid stay within a quarter
/// unit-of-range of the center.
pub open spec fn camera_ok(d: CamDerived, w: int, h: int) -> bool {
    &&& in_bound_v(d.pixel00_loc, VIEW_MAX as int)
    &&& abs_i(d.pixel_delta_u.x) * w <= VIEW_MAX
    &&& abs_i(d.pixel_delta_u.y) * w <= VIEW_MAX
    &&& abs_i(d.pixel_delta_u.z) * w <= VIEW_MAX
    &&& abs_i(d.pixel_delta_v.x) * h <= VIEW_MAX
    &&& abs_i(d.pixel_delta_v.y) * h <= VIEW_MAX
    &&& abs_i(d.pixel_delta_v.z) * h <= VIEW_MAX
}

/// The camera a configuration builds, when its ranges check out.
pub open spec fn camera_build(c: CameraV) -> Option<CameraV> {
    let d = camera_derived(c);
    if wf_config_v(c) && camera_ok(d, c.image_width, c.image_height) {
        Some(
            CameraV {
                camera_center: d.camera_center,
                pixel_delta_u: d.pixel_delta_u,
                pixel_delta_v: d.pixel_delta_v,
                pixel00_loc: d.pixel00_loc,
                pixel_sample_scale: d.pixel_sample_scale,
                ..c
            },
        )
    } else {
        None
    }
}

/// A camera is well formed exactly when it is what its own configuration
/// builds.
pub open spec fn wf_camera(c: CameraV) -> bool {
    camera_build(c) == Some(c)
}

/// The configuration part of a camera view, with derived fields reset to
/// a fixed placeholder, so two cameras with one configuration compare
/// equal before building.
pub open spec fn config_of(c: CameraV) -> CameraV {
    CameraV {
        camera_center: V3 { x: 0, y: 0, z: 0 },
        pixel_delta_u: V3 { x: 0, y: 0, z: 0 },
        pixel_delta_v: V3 { x: 0, y: 0, z: 0 },
        pixel00_loc: V3 { x: 0, y: 0, z: 0 },
        pixel_sample_scale: 0,
        ..c
    }
}

/// Dividing a vector by a fixed-point scalar of at least one never grows
/// its components.
proof fn lemma_divs_bound(u: V3, k: int, bu: int)
    requires
        0 <= bu,
        1_000_000 <= k,
        in_bound_v(u, bu),
    ensures
        in_bound_v(divs_v(u, k), bu),
{
    assert forall|c: int| abs_i(c) <= bu implies abs_i(div_fx(c, k)) <= bu by {
        lemma_tdiv_abs_le(c * (SCALE as int), k);
        assert(abs_i(tdiv(c * (SCALE as int), k)) <= bu) by (nonlinear_arith)
            requires
                k * abs_i(tdiv(c * (SCALE as int), k)) <= abs_i(c * (SCALE as int)),
                abs_i(c) <= bu,
                1_000_000 <= k,
                0 <= bu,
        ;
    }
}

/// The world-space center of the sample for pixel `(i, j)` jittered by
/// `(ox, oy)` within the pixel footprint.
pub open spec fn pixel_sample_v(c: CameraV, i: int, j: int, ox: int, oy: int) -> V3 {
    add_v(
        add_v(c.pixel00_loc, scale_v(c.pixel_delta_u, i * (SCALE as int) + ox)),
        scale_v(c.pixel_delta_v, j * (SCALE as int) + oy),
    )
}

/// `r` is the camera ray for pixel `(i, j)` under some jitter `(ox, oy)`
/// drawn uniformly from the half-open unit pixel footprint.
pub open spec fn camera_ray_matches(c: CameraV, i: int, j: int, ox: int, oy: int, r: crate::ray::RayV) -> bool {
    &&& -500_000 <= ox < 500_000
    &&& -500_000 <= oy < 500_000
    &&& r.origin == c.camera_center
    &&& r.direction == sub_v(pixel_sample_v(c, i, j, ox, oy), c.camera_center)
}

/// The background gradient: blend white toward sky blue by the normalized
/// direction's vertical component, `a = (unit_y + 1) / 2`.
pub open spec fn background_v(dir: V3) -> V3 {
    let u = unit_v(dir);
    let a = mul_fx(u.y + (SCALE as int), 500_000);
    add_v(
        scale_v(V3 { x: SCALE as int, y: SCALE as int, z: SCALE as int }, (SCALE as int) - a),
        scale_v(V3 { x: 500_000, y: 700_000, z: SCALE as int }, a),
    )
}

/// The recursive radiance relation: `color` is a possible value of the
/// radiance estimate for `r` against `wld` under a bounce budget, for
/// some sequence of random draws. Black once the budget is spent or for a
/// degenerate direction; the background gradient on a miss; on a hit,
/// some witnessed scatter outcome — black when it absorbs, else the
/// attenuation times a radiance value of the scattered ray one bounce
/// down.
pub open spec fn rc_rel(
    wld: Seq<crate::hittable::SphereV>,
    r: crate::ray::RayV,
    bounces: int,
    color: V3,
) -> bool {
    exists|trace: Seq<(Option<(Vec3, Ray)>, V3)>| #[trigger] rc_steps(wld, r, bounces, trace, color)
}

/// One explained evaluation of the radiance estimate: the trace carries,
/// for each bounce taken, the witnessed scatter outcome and the radiance
/// value of the scattered ray, so every step is checked without any
/// hidden choice. Black once the budget is spent or for a degenerate
/// direction; the background gradient on a miss; on a hit, the head
/// outcome either absorbs (black) or attenuates the next value.
pub open spec fn rc_steps(
    wld: Seq<crate::hittable::SphereV>,
    r: crate::ray::RayV,
    bounces: int,
    trace: Seq<(Option<(Vec3, Ray)>, V3)>,
    color: V3,
) -> bool
    decreases trace.len(),
{
    if bounces <= 0 {
        color == (V3 { x: 0, y: 0, z: 0 })
    } else if lensq_v(r.direction) == 0 {
        color == (V3 { x: 0, y: 0, z: 0 })
    } else {
        match list_hit_s(wld, r, T_MIN as int, T_LIMIT as int) {
            None => color == background_v(r.direction),
            Some(rec) => {
                if trace.len() == 0 {
                    false
                } else {
                    let sres = trace[0].0;
                    let sub = trace[0].1;
                    &&& scatter_matches(rec.material, r.direction, rec, sres)
                    &&& if sres is None {
                        color == (V3 { x: 0, y: 0, z: 0 })
                    } else {
                        color == cmul_v(sub, sres->Some_0.0@) && rc_steps(
                            wld,
                            sres->Some_0.1@,
                            bounces - 1,
                            trace.drop_first(),
                            sub,
                        )
                    }
                }
            },
        }
    }
}

/// One per-pixel sample: a camera ray for pixel `(i, j)` under some
/// jitter, and a radiance value of that ray under the bounce budget.
pub open spec fn sample_color_ok(
    c: CameraV,
    wld: Seq<crate::hittable::SphereV>,
    i: int,
    j: int,
    col: V3,
) -> bool {
    exists|ox: int, oy: int, r: crate::ray::RayV|
        #[trigger] camera_ray_matches(c, i, j, ox, oy, r) && rc_rel(wld, r, c.max_bounces, col)
}

/// Componentwise sum of a sequence of colors.
pub open spec fn sum_colors(s: Seq<V3>) -> V3
    decreases s.len(),
{
    if s.len() == 0 {
        V3 { x: 0, y: 0, z: 0 }
    } else {
        add_v(sum_colors(s.drop_last()), s.last())
    }
}

/// `px` is a possible value of pixel `(i, j)`: the sum of
/// `samples_per_pixel` per-sample radiance values, scaled by the
/// per-sample weight.
pub open spec fn pixel_estimate(
    c: CameraV,
    wld: Seq<crate::hittable::SphereV>,
    i: int,
    j: int,
    px: V3,
) -> bool {
    exists|samples: Seq<V3>|
        {
            &&& samples.len() == c.samples_per_pixel
            &&& forall|k: int|
                0 <= k < samples.len() ==> sample_color_ok(c, wld, i, j, #[trigger] samples[k])
            &&& px == scale_v(#[trigger] sum_colors(samples), c.pixel_sample_scale)
        }
}

/// Every component of a returned color lies in `[0, COLOR_MAX]`.
pub open spec fn color_in_range(color: V3, cap: int) -> bool {
    &&& 0 <= color.x <= cap
    &&& 0 <= color.y <= cap
    &&& 0 <= color.z <= cap
}

/// Attenuating a ranged color by a fractional albedo keeps it ranged.
proof fn lemma_color_attenuate(b: V3, att: V3, cap: int)
    requires
        0 <= cap,
        color_in_range(b, cap),
        color_in_range(att, SCALE as int),
    ensures
        color_in_range(cmul_v(b, att), cap),
{
    assert(0 <= mul_fx(b.x, att.x) <= cap && 0 <= mul_fx(b.y, att.y) <= cap && 0 <= mul_fx(
        b.z,
        att.z,
    ) <= cap) by (nonlinear_arith)
        requires
            0 <= b.x <= cap,
            0 <= b.y <= cap,
            0 <= b.z <= cap,
            0 <= att.x <= (SCALE as int),
            0 <= att.y <= (SCALE as int),
            0 <= att.z <= (SCALE as int),
            (SCALE as int) == 1_000_000,
            0 <= cap,
    ;
}

/// Scaling a sum of `n` ranged colors by the per-sample weight `k`
/// (which satisfies `k * n <= 1`) yields a ranged color.
proof fn lemma_pixel_scale_bound(s: V3, k: int, n: int)
    requires
        1 <= n,
        0 <= k,
        k * n <= (SCALE as int),
        color_in_range(s, n * (COLOR_MAX as int)),
    ensures
        color_in_range(scale_v(s, k), COLOR_MAX as int),
{
    assert(0 <= mul_fx(s.x, k) <= COLOR_MAX && 0 <= mul_fx(s.y, k) <= COLOR_MAX && 0 <= mul_fx(
        s.z,
        k,
    ) <= COLOR_MAX) by (nonlinear_arith)
        requires
            0 <= s.x <= n * (COLOR_MAX as int),
            0 <= s.y <= n * (COLOR_MAX as int),
            0 <= s.z <= n * (COLOR_MAX as int),
            0 <= k,
            1 <= n,
            k * n <= (SCALE as int),
            (SCALE as int) == 1_000_000,
            COLOR_MAX == 1_300_000,
    ;
}

/// The background gradient stays within `[0, COLOR_MAX]` whenever the
/// normalized direction is within its guaranteed bound.
proof fn lemma_background_bounds(dir: V3)
    requires
        in_bound_v(unit_v(dir), 2_100_000),
    ensures
        color_in_range(background_v(dir), COLOR_MAX as int),
{
    let u = unit_v(dir);
    let a = mul_fx(u.y + (SCALE as int), 500_000);
    assert(-550_000 <= a <= 1_550_000) by (nonlinear_arith)
        requires
            a == mul_fx(u.y + (SCALE as int), 500_000),
            -2_100_000 <= u.y <= 2_100_000,
            (SCALE as int) == 1_000_000,
    ;
    crate::fixed::lemma_mul_fx_one((SCALE as int) - a);
    crate::fixed::lemma_mul_fx_one(a);
    assert(mul_fx((SCALE as int), (SCALE as int) - a) == (SCALE as int) - a);
    assert(mul_fx((SCALE as int), a) == a);
    assert(0 <= ((SCALE as int) - a) + mul_fx(500_000, a) <= COLOR_MAX) by (nonlinear_arith)
        requires
            -550_000 <= a <= 1_550_000,
            (SCALE as int) == 1_000_000,
            COLOR_MAX == 1_300_000,
    ;
    assert(0 <= ((SCALE as int) - a) + mul_fx(700_000, a) <= COLOR_MAX) by (nonlinear_arith)
        requires
            -550_000 <= a <= 1_550_000,
            (SCALE as int) == 1_000_000,
            COLOR_MAX == 1_300_000,
    ;
}

/// A pixel-grid step scaled by up to a full image width stays within the
/// viewport cap that `camera_ok` grants.
proof fn lemma_delta_scale_bound(c: int, k: int, n: int, cap: int)
    requires
        abs_i(c) * n <= cap,
        0 <= cap,
        1 <= n,
        abs_i(k) <= n * (SCALE as int),
    ensures
        abs_i(mul_fx(c, k)) <= cap,
        abs_i(c) <= cap,
{
    lemma_mul_fx_bound(c, k, abs_i(c), n * (SCALE as int));
    assert(abs_i(mul_fx(c, k)) <= cap && abs_i(c) <= cap) by (nonlinear_arith)
        requires
            abs_i(mul_fx(c, k)) * (SCALE as int) <= abs_i(c) * (n * (SCALE as int)),
            abs_i(c) * n <= cap,
            0 <= cap,
            1 <= n,
            0 <= abs_i(c),
            0 <= abs_i(mul_fx(c, k)),
    ;
}

/// `abs(c) * n <= cap`, computed on machine integers.
fn scaled_within(c: i128, n: i128, cap: i128) -> (r: bool)
    requires
        -100_000_000_000_000_000 <= c <= 100_000_000_000_000_000,
        0 <= n <= 10_000,
        0 <= cap <= 1_000_000_000,
    ensures
        r == (abs_i(c as int) * n <= cap),
{
    let a: i128 = if c < 0 {
        -c
    } else {
        c
    };
    proof {
        assert(a * n <= 100_000_000_000_000_000 * 10_000) by (nonlinear_arith)
            requires
                0 <= a <= 100_000_000_000_000_000,
                0 <= n <= 10_000,
        ;
    }
    a * n <= cap
}

impl Camera {
    /// Derive the viewport quantities from the configuration fields,
    /// rejecting configurations whose ranges the tracer cannot take.
    fn initialize(self) -> (r: Option<Camera>)
        ensures
            r is Some <==> camera_build(config_of(self@)) is Some,
            r is Some ==> r->Some_0@ == camera_build(config_of(self@))->Some_0,
            r is Some ==> wf_camera(r->Some_0@),
    {
        // Configuration checks, in an order that keeps each computation's
        // inputs bounded before it runs.
        if !(-POS_MAX <= self.position.x && self.position.x <= POS_MAX && -POS_MAX
            <= self.position.y && self.position.y <= POS_MAX && -POS_MAX <= self.position.z
            && self.position.z <= POS_MAX) {
            return None;
        }
        if !(-1_000_000_000 <= self.forward.x && self.forward.x <= 1_000_000_000 && -1_000_000_000
            <= self.forward.y && self.forward.y <= 1_000_000_000 && -1_000_000_000
            <= self.forward.z && self.forward.z <= 1_000_000_000) {
            return None;
        }
        if !(-1_000_000_000 <= self.world_up.x && self.world_up.x <= 1_000_000_000
            && -1_000_000_000 <= self.world_up.y && self.world_up.y <= 1_000_000_000
            && -1_000_000_000 <= self.world_up.z && self.world_up.z <= 1_000_000_000) {
            return None;
        }
        if self.forward.length_squared() < 1 {
            return None;
        }
        if !(1 <= self.focal_length && self.focal_length <= 1_000_000_000) {
            return None;
        }
        if !(1 <= self.tan_half_vfov && self.tan_half_vfov <= 100_000_000) {
            return None;
        }
        if !(1 <= self.image_width && self.image_width <= DIM_MAX) {
            return None;
        }
        if !(1 <= self.image_height && self.image_height <= DIM_MAX) {
            return None;
        }
        if self.samples_per_pixel < 1 {
            return None;
        }
        let f = self.forward.normalize();
        proof {
            lemma_unit_bound(self.forward@);
        }
        let crossed = self.world_up.cross(&f);
        proof {
            lemma_cross_bound(
                self.world_up@,
                unit_v(self.forward@),
                1_000_000_000,
                2_100_000,
                4_200_000_000,
            );
            lemma_lensq_bounds(cross_v(self.world_up@, unit_v(self.forward@)), 4_200_000_000);
        }
        if crossed.length_squared() < 1 {
            return None;
        }
        let viewport_height = fmul(2 * self.tan_half_vfov, self.focal_length);
        let wf: i128 = (self.image_width as i128) * SCALE;
        let hf: i128 = (self.image_height as i128) * SCALE;
        let aspect = fdiv(wf, hf);
        proof {
            lemma_mul_fx_bound(
                2 * self.tan_half_vfov as int,
                self.focal_length as int,
                200_000_000,
                1_000_000_000,
            );
            lemma_tdiv_abs_le(wf as int * (SCALE as int), hf as int);
            assert(abs_i(div_fx(wf as int, hf as int)) <= 8_200_000_000) by (nonlinear_arith)
                requires
                    div_fx(wf as int, hf as int) == tdiv(wf as int * (SCALE as int), hf as int),
                    hf as int * abs_i(tdiv(wf as int * (SCALE as int), hf as int)) <= abs_i(
                        wf as int * (SCALE as int),
                    ),
                    1_000_000 <= hf as int,
                    0 <= wf as int <= 8_200_000_000,
            ;
            lemma_mul_fx_bound(
                mul_fx(2 * self.tan_half_vfov as int, self.focal_length as int),
                div_fx(wf as int, hf as int),
                200_000_000_000,
                8_200_000_000,
            );
        }
        let viewport_width = fmul(viewport_height, aspect);
        let right = crossed.normalize();
        proof {
            lemma_unit_bound(cross_v(self.world_up@, unit_v(self.forward@)));
        }
        let up = f.cross(&right);
        proof {
            lemma_cross_bound(
                unit_v(self.forward@),
                unit_v(cross_v(self.world_up@, unit_v(self.forward@))),
                2_100_000,
                2_100_000,
                8_820_000,
            );
            lemma_scale_bound(
                unit_v(cross_v(self.world_up@, unit_v(self.forward@))),
                mul_fx(
                    mul_fx(2 * self.tan_half_vfov as int, self.focal_length as int),
                    div_fx(wf as int, hf as int),
                ),
                2_100_000,
                1_700_000_000_000_000,
                3_570_000_000_000_000,
            );
        }
        let viewport_u = right.scale(viewport_width);
        proof {
            lemma_scale_bound(
                cross_v(
                    unit_v(self.forward@),
                    unit_v(cross_v(self.world_up@, unit_v(self.forward@))),
                ),
                -mul_fx(2 * self.tan_half_vfov as int, self.focal_length as int),
                8_820_000,
                200_000_000_000,
                1_764_000_000_000,
            );
        }
        let viewport_v = up.scale(-viewport_height);
        let du = viewport_u.div(wf);
        let dv = viewport_v.div(hf);
        proof {
            lemma_divs_bound(viewport_u@, wf as int, 3_570_000_000_000_000);
            lemma_divs_bound(viewport_v@, hf as int, 1_764_000_000_000);
            lemma_divs_bound(viewport_u@, 2 * (SCALE as int), 3_570_000_000_000_000);
            lemma_divs_bound(viewport_v@, 2 * (SCALE as int), 1_764_000_000_000);
            lemma_scale_bound(
                unit_v(self.forward@),
                self.focal_length as int,
                2_100_000,
                1_000_000_000,
                2_100_000_000_000,
            );
        }
        let focal_step = f.scale(self.focal_length);
        let p0 = self.position.sub(&focal_step);
        let half_u = viewport_u.div(2 * SCALE);
        let half_v = viewport_v.div(2 * SCALE);
        let p1 = p0.sub(&half_u);
        let p2 = p1.sub(&half_v);
        let dsum = du.add(&dv);
        proof {
            lemma_scale_bound(
                add_v(du@, dv@),
                500_000,
                3_580_000_000_000_000,
                500_000,
                1_790_000_000_000_000,
            );
        }
        let half_step = dsum.scale(500_000);
        let pixel00 = p2.add(&half_step);
        // Range checks on the derived quantities.
        if !(-VIEW_MAX <= pixel00.x && pixel00.x <= VIEW_MAX && -VIEW_MAX <= pixel00.y && pixel00.y
            <= VIEW_MAX && -VIEW_MAX <= pixel00.z && pixel00.z <= VIEW_MAX) {
            return None;
        }
        let wi = self.image_width as i128;
        let hi = self.image_height as i128;
        if !(scaled_within(du.x, wi, VIEW_MAX) && scaled_within(du.y, wi, VIEW_MAX)
            && scaled_within(du.z, wi, VIEW_MAX)) {
            return None;
        }
        if !(scaled_within(dv.x, hi, VIEW_MAX) && scaled_within(dv.y, hi, VIEW_MAX)
            && scaled_within(dv.z, hi, VIEW_MAX)) {
            return None;
        }
        let sample_scale = (1_000_000u64 / (self.samples_per_pixel as u64)) as i128;
        Some(
            Camera {
                camera_center: self.position,
                pixel_delta_u: du,
                pixel_delta_v: dv,
                pixel00_loc: pixel00,
                pixel_sample_scale: sample_scale,
                ..self
            },
        )
    }

    /// A camera from its full configuration: position, forward and
    /// world-up vectors, focal length, the tangent of half the vertical
    /// field of view, the image size in pixels, and the sampling
    /// parameters. `None` when the configuration is out of range.
    pub fn new(
        position: Vec3,
        forward: Vec3,
        world_up: Vec3,
        focal_length: i128,
        tan_half_vfov: i128,
        image_width: usize,
        image_height: usize,
        samples_per_pixel: u8,
        max_bounces: u8,
    ) -> (r: Option<Camera>)
        ensures
            ({
                let cfg = config_of(
                    CameraV {
                        position: position@,
                        forward: forward@,
                        world_up: world_up@,
                        focal_length: focal_length as int,
                        tan_half_vfov: tan_half_vfov as int,
                        image_width: image_width as int,
                        image_height: image_height as int,
                        samples_per_pixel: samples_per_pixel as int,
                        max_bounces: max_bounces as int,
                        camera_center: V3 { x: 0, y: 0, z: 0 },
                        pixel_delta_u: V3 { x: 0, y: 0, z: 0 },
                        pixel_delta_v: V3 { x: 0, y: 0, z: 0 },
                        pixel00_loc: V3 { x: 0, y: 0, z: 0 },
                        pixel_sample_scale: 0,
                    },
                );
                &&& (r is Some <==> camera_build(cfg) is Some)
                &&& (r is Some ==> r->Some_0@ == camera_build(cfg)->Some_0)
                &&& (r is Some ==> wf_camera(r->Some_0@))
            }),
    {
        let camera = Camera {
            position,
            forward,
            world_up,
            focal_length,
            tan_half_vfov,
            image_width,
            image_height,
            samples_per_pixel,
            max_bounces,
            camera_center: Vec3::new(0, 0, 0),
            pixel_delta_u: Vec3::new(0, 0, 0),
            pixel_delta_v: Vec3::new(0, 0, 0),
            pixel00_loc: Vec3::new(0, 0, 0),
            pixel_sample_scale: 0,
        };
        camera.initialize()
    }

    /// A random offset within the unit pixel footprint, for anti-aliasing.
    fn sample_square(rng: &mut RandSrc) -> (r: Vec3)
        ensures
            -500_000 <= r@.x < 500_000,
            -500_000 <= r@.y < 500_000,
            r@.z == 0,
    {
        let v = random_vector_range(rng, -500_000, 500_000);
        Vec3::new(v.x, v.y, 0)
    }

    /// The camera ray for pixel `(i, j)`: aimed at a point jittered
    /// uniformly within the pixel's footprint on the sensor plane.
    fn construct_ray(&self, i: usize, j: usize, rng: &mut RandSrc) -> (r: Ray)
        requires
            wf_camera(self@),
            i < self@.image_width,
            j < self@.image_height,
        ensures
            exists|ox: int, oy: int| camera_ray_matches(self@, i as int, j as int, ox, oy, r@),
            wf_ray_v(r@),
    {
        let offset = Self::sample_square(rng);
        let ki = (i as i128) * SCALE + offset.x;
        let kj = (j as i128) * SCALE + offset.y;
        proof {
            lemma_delta_scale_bound(
                self@.pixel_delta_u.x,
                ki as int,
                self@.image_width,
                VIEW_MAX as int,
            );
            lemma_delta_scale_bound(
                self@.pixel_delta_u.y,
                ki as int,
                self@.image_width,
                VIEW_MAX as int,
            );
            lemma_delta_scale_bound(
                self@.pixel_delta_u.z,
                ki as int,
                self@.image_width,
                VIEW_MAX as int,
            );
            lemma_delta_scale_bound(
                self@.pixel_delta_v.x,
                kj as int,
                self@.image_height,
                VIEW_MAX as int,
            );
            lemma_delta_scale_bound(
                self@.pixel_delta_v.y,
                kj as int,
                self@.image_height,
                VIEW_MAX as int,
            );
            lemma_delta_scale_bound(
                self@.pixel_delta_v.z,
                kj as int,
                self@.image_height,
                VIEW_MAX as int,
            );
        }
        let su = self.pixel_delta_u.scale(ki);
        let sv = self.pixel_delta_v.scale(kj);
        let ps0 = self.pixel00_loc.add(&su);
        let pixel_center = ps0.add(&sv);
        let direction = pixel_center.sub(&self.camera_center);
        let r = Ray::new(self.camera_center, direction);
        proof {
            assert(camera_ray_matches(self@, i as int, j as int, offset@.x, offset@.y, r@));
        }
        r
    }

    /// The radiance along a ray, estimated recursively: black once the
    /// bounce budget is spent or for a degenerate direction; the material's
    /// attenuation times the scattered ray's radiance on a hit (black when
    /// the ray is absorbed); the background gradient on a miss. The whole
    /// outcome, hit case included, satisfies the radiance relation
    /// `rc_rel` for the draws actually taken, and stays within the color
    /// range.
    #[verifier::rlimit(60)]
    pub fn ray_color(ray: &Ray, world: &HittableList, bounces_left: u8, rng: &mut RandSrc) -> (color:
        Vec3)
        requires
            wf_world_v(world@),
            wf_ray_v(ray@),
        ensures
            rc_rel(world@, ray@, bounces_left as int, color@),
            color_in_range(color@, COLOR_MAX as int),
            bounces_left == 0 ==> color@ == (V3 { x: 0, y: 0, z: 0 }),
            bounces_left > 0 && lensq_v(ray@.direction) == 0 ==> color@ == (V3 {
                x: 0,
                y: 0,
                z: 0,
            }),
            bounces_left > 0 && lensq_v(ray@.direction) >= 1 && list_hit_s(
                world@,
                ray@,
                T_MIN as int,
                T_LIMIT as int,
            ) is None ==> color@ == background_v(ray@.direction),
        decreases bounces_left,
    {
        if bounces_left == 0 {
            let black = Vec3::new(0, 0, 0);
            proof {
                assert(rc_steps(
                    world@,
                    ray@,
                    bounces_left as int,
                    Seq::<(Option<(Vec3, Ray)>, V3)>::empty(),
                    black@,
                ));
            }
            return black;
        }
        proof {
            lemma_lensq_bounds(ray@.direction, DIR_MAX as int);
        }
        let lsq = ray.direction.length_squared();
        if lsq == 0 {
            let black = Vec3::new(0, 0, 0);
            proof {
                assert(rc_steps(
                    world@,
                    ray@,
                    bounces_left as int,
                    Seq::<(Option<(Vec3, Ray)>, V3)>::empty(),
                    black@,
                ));
            }
            return black;
        }
        match world.hit(ray, T_MIN, T_LIMIT) {
            Some(hit_record) => {
                proof {
                    lemma_list_hit_wf(world@, ray@, T_MIN as int, T_LIMIT as int);
                }
                let scatter_result = hit_record.material.scatter(ray, &hit_record, rng);
                match scatter_result {
                    Some((attenuation, scattered)) => {
                        let bounced = Self::ray_color(&scattered, world, bounces_left - 1, rng);
                        let shaded = bounced.mul(&attenuation);
                        proof {
                            lemma_color_attenuate(bounced@, attenuation@, COLOR_MAX as int);
                            assert(scatter_result->Some_0.1@ == scattered@);
                            assert(scatter_result->Some_0.0 == attenuation);
                            assert(rc_rel(
                                world@,
                                scatter_result->Some_0.1@,
                                bounces_left as int - 1,
                                bounced@,
                            ));
                            let tail = choose|t: Seq<(Option<(Vec3, Ray)>, V3)>|
                                #[trigger] rc_steps(
                                    world@,
                                    scatter_result->Some_0.1@,
                                    bounces_left as int - 1,
                                    t,
                                    bounced@,
                                );
                            assert(rc_steps(
                                world@,
                                scatter_result->Some_0.1@,
                                bounces_left as int - 1,
                                tail,
                                bounced@,
                            ));
                            let trace = seq![(scatter_result, bounced@)] + tail;
                            assert(trace[0] == (scatter_result, bounced@));
                            assert(trace.drop_first() =~= tail);
                            assert(scatter_matches(
                                hit_record@.material,
                                ray@.direction,
                                hit_record@,
                                scatter_result,
                            ));
                            assert(rc_steps(world@, ray@, bounces_left as int, trace, shaded@));
                            assert(rc_rel(world@, ray@, bounces_left as int, shaded@));
                        }
                        shaded
                    },
                    None => {
                        let black = Vec3::new(0, 0, 0);
                        proof {
                            assert(scatter_matches(
                                hit_record@.material,
                                ray@.direction,
                                hit_record@,
                                scatter_result,
                            ));
                            let trace = seq![(scatter_result, black@)];
                            assert(trace[0] == (scatter_result, black@));
                            assert(rc_steps(world@, ray@, bounces_left as int, trace, black@));
                            assert(rc_rel(world@, ray@, bounces_left as int, black@));
                        }
                        black
                    },
                }
            },
            None => {
                proof {
                    lemma_unit_bound(ray@.direction);
                    lemma_background_bounds(ray@.direction);
                    lemma_mul_fx_bound(
                        unit_v(ray@.direction).y + (SCALE as int),
                        500_000,
                        3_100_000,
                        500_000,
                    );
                }
                let u = ray.direction.normalize();
                let a = fmul(u.y + SCALE, 500_000);
                proof {
                    lemma_mul_fx_bound(SCALE as int, (SCALE as int) - a, SCALE as int, 2_600_000);
                    lemma_scale_bound(
                        V3 { x: 500_000, y: 700_000, z: SCALE as int },
                        a as int,
                        SCALE as int,
                        1_600_000,
                        1_600_000,
                    );
                }
                let white = Vec3::new(SCALE, SCALE, SCALE);
                let sky = Vec3::new(500_000, 700_000, SCALE);
                let base = white.scale(SCALE - a);
                let tint = sky.scale(a);
                let gradient = base.add(&tint);
                proof {
                    assert(rc_steps(
                        world@,
                        ray@,
                        bounces_left as int,
                        Seq::<(Option<(Vec3, Ray)>, V3)>::empty(),
                        gradient@,
                    ));
                }
                gradient
            },
        }
    }

    /// Render the scene: for every pixel, average `samples_per_pixel`
    /// jittered radiance estimates, and emit the linear colors in
    /// row-major order, top row first: pixel `(i, j)` lands at index
    /// `j * width + i` and satisfies `pixel_estimate`, the scaled sum of
    /// witnessed per-sample radiance values.
    pub fn render(&self, world: &HittableList, rng: &mut RandSrc) -> (pixels: Vec<Vec3>)
        requires
            wf_camera(self@),
            wf_world_v(world@),
        ensures
            pixels@.len() == self@.image_width * self@.image_height,
            forall|jj: int, ii: int|
                0 <= jj < self@.image_height && 0 <= ii < self@.image_width ==> pixel_estimate(
                    self@,
                    world@,
                    ii,
                    jj,
                    #[trigger] pixels@[jj * self@.image_width + ii]@,
                ),
            forall|k: int|
                0 <= k < pixels@.len() ==> color_in_range(#[trigger] pixels@[k]@, COLOR_MAX as int),
    {
        let w = self.image_width;
        let h = self.image_height;
        let mut pixels: Vec<Vec3> = Vec::new();
        let mut j: usize = 0;
        while j < h
            invariant
                wf_camera(self@),
                wf_world_v(world@),
                w == self@.image_width,
                h == self@.image_height,
                j <= h,
                pixels@.len() == j * w,
                forall|jj: int, ii: int|
                    0 <= jj < j && 0 <= ii < w ==> pixel_estimate(
                        self@,
                        world@,
                        ii,
                        jj,
                        #[trigger] pixels@[jj * w + ii]@,
                    ),
                forall|k: int|
                    0 <= k < pixels@.len() ==> color_in_range(
                        #[trigger] pixels@[k]@,
                        COLOR_MAX as int,
                    ),
            decreases h - j,
        {
            let mut i: usize = 0;
            while i < w
                invariant
                    wf_camera(self@),
                    wf_world_v(world@),
                    w == self@.image_width,
                    h == self@.image_height,
                    j < h,
                    i <= w,
                    pixels@.len() == j * w + i,
                    forall|jj: int, ii: int|
                        0 <= jj && 0 <= ii < w && (jj < j || (jj == j && ii < i))
                            ==> pixel_estimate(
                            self@,
                            world@,
                            ii,
                            jj,
                            #[trigger] pixels@[jj * w + ii]@,
                        ),
                    forall|k: int|
                        0 <= k < pixels@.len() ==> color_in_range(
                            #[trigger] pixels@[k]@,
                            COLOR_MAX as int,
                        ),
                decreases w - i,
            {
                let mut sample: u8 = 0;
                let mut acc = Vec3::new(0, 0, 0);
                let ghost mut samples: Seq<V3> = Seq::empty();
                while sample < self.samples_per_pixel
                    invariant
                        wf_camera(self@),
                        wf_world_v(world@),
                        w == self@.image_width,
                        h == self@.image_height,
                        j < h,
                        i < w,
                        sample <= self.samples_per_pixel,
                        samples.len() == sample as int,
                        forall|k: int|
                            0 <= k < samples.len() ==> sample_color_ok(
                                self@,
                                world@,
                                i as int,
                                j as int,
                                #[trigger] samples[k],
                            ),
                        acc@ == sum_colors(samples),
                        color_in_range(acc@, (sample as int) * (COLOR_MAX as int)),
                    decreases self.samples_per_pixel - sample,
                {
                    let r = self.construct_ray(i, j, rng);
                    let c = Self::ray_color(&r, world, self.max_bounces, rng);
                    proof {
                        let (ox, oy) = choose|ox: int, oy: int|
                            #[trigger] camera_ray_matches(self@, i as int, j as int, ox, oy, r@);
                        assert(camera_ray_matches(self@, i as int, j as int, ox, oy, r@));
                        assert(rc_rel(world@, r@, self@.max_bounces, c@));
                        assert(sample_color_ok(self@, world@, i as int, j as int, c@));
                    }
                    acc = acc.add(&c);
                    proof {
                        let prev = samples;
                        samples = samples.push(c@);
                        assert(samples.drop_last() =~= prev);
                        assert(samples.last() == c@);
                        assert(sum_colors(samples) == add_v(sum_colors(prev), c@));
                    }
                    sample = sample + 1;
                }
                proof {
                    assert(self@.pixel_sample_scale == tdiv(
                        SCALE as int,
                        self@.samples_per_pixel,
                    ));
                    assert(self@.samples_per_pixel * tdiv(SCALE as int, self@.samples_per_pixel)
                        <= (SCALE as int) && tdiv(SCALE as int, self@.samples_per_pixel) >= 0)
                        by (nonlinear_arith)
                        requires
                            1 <= self@.samples_per_pixel <= 255,
                            (SCALE as int) == 1_000_000,
                    ;
                    lemma_pixel_scale_bound(
                        sum_colors(samples),
                        self@.pixel_sample_scale,
                        self@.samples_per_pixel,
                    );
                }
                let color = acc.scale(self.pixel_sample_scale);
                proof {
                    assert(color@ == scale_v(sum_colors(samples), self@.pixel_sample_scale));
                    assert(pixel_estimate(self@, world@, i as int, j as int, color@));
                }
                pixels.push(color);
                proof {
                    assert forall|jj: int, ii: int|
                        0 <= jj && 0 <= ii < w && (jj < j || (jj == j && ii < i + 1))
                            implies pixel_estimate(
                        self@,
                        world@,
                        ii,
                        jj,
                        #[trigger] pixels@[jj * w + ii]@,
                    ) by {
                        if jj == j && ii == i {
                            assert(jj * w + ii == pixels@.len() - 1);
                        } else {
                            assert(jj * w + ii < j * w + i) by (nonlinear_arith)
                                requires
                                    0 <= jj,
                                    0 <= ii < w,
                                    0 <= i,
                                    (jj < j || (jj == j && ii < i)),
                            ;
                        }
                    }
                }
                i = i + 1;
            }
            proof {
                assert((j + 1) * w == j * w + w) by (nonlinear_arith);
            }
            j = j + 1;
        }
        proof {
            assert(h * w == w * h) by (nonlinear_arith);
        }
        pixels
    }

    /// Apply one interactive command — a position shift or an orientation
    /// turn given by the sines and cosines of its two angles — and rebuild
    /// the derived viewport, rejecting out-of-range results.
    pub fn apply_command(self, command: &CameraCommand) -> (r: Option<Camera>)
        requires
            wf_camera(self@),
            wf_command(*command),
        ensures
            r is Some ==> wf_camera(r->Some_0@),
            *command matches CameraCommand::Move { delta } ==> {
                let cfg = config_of(CameraV { position: add_v(self@.position, delta@), ..self@ });
                &&& (r is Some <==> camera_build(cfg) is Some)
                &&& (r is Some ==> r->Some_0@ == camera_build(cfg)->Some_0)
            },
            *command matches CameraCommand::Rotate { sin_theta, cos_theta, sin_phi, cos_phi } ==> {
                let cfg = config_of(
                    CameraV {
                        forward: crate::vec3::rotate_v(
                            self@.forward,
                            sin_theta as int,
                            cos_theta as int,
                            sin_phi as int,
                            cos_phi as int,
                        ),
                        ..self@
                    },
                );
                &&& (r is Some <==> camera_build(cfg) is Some)
                &&& (r is Some ==> r->Some_0@ == camera_build(cfg)->Some_0)
            },
    {
        match command {
            CameraCommand::Move { delta } => {
                let position = self.position.add(delta);
                let moved = Camera { position, ..self };
                moved.initialize()
            },
            CameraCommand::Rotate { sin_theta, cos_theta, sin_phi, cos_phi } => {
                let forward = self.forward.rotate(*sin_theta, *cos_theta, *sin_phi, *cos_phi);
                let turned = Camera { forward, ..self };
                turned.initialize()
            },
        }
    }
}

/// One interactive camera adjustment, as the live-preview host hands it
/// over between frames.
#[derive(Clone, Copy, Debug)]
pub enum CameraCommand {
    /// Shift the camera position by `delta`.
    Move { delta: Vec3 },
    /// Turn the forward vector: rotate about the x axis then the y axis,
    /// each angle given by its sine and cosine.
    Rotate { sin_theta: i128, cos_theta: i128, sin_phi: i128, cos_phi: i128 },
}

/// Command parameters the camera update accepts: a bounded shift, and
/// sines and cosines within one.
pub open spec fn wf_command(c: CameraCommand) -> bool {
    match c {
        CameraCommand::Move { delta } => in_bound_v(delta@, 100_000_000),
        CameraCommand::Rotate { sin_theta, cos_theta, sin_phi, cos_phi } => {
            &&& -SCALE <= sin_theta <= SCALE
            &&& -SCALE <= cos_theta <= SCALE
            &&& -SCALE <= sin_phi <= SCALE
            &&& -SCALE <= cos_phi <= SCALE
        },
    }
}

} // verus!
