//! Ray-primitive intersection: hit records, spheres and the scene list.

use vstd::prelude::*;
use crate::fixed::{
    div_fx, fdiv, fmul, fsqrt, lemma_mul_fx_bound, lemma_sqrt_fx_upper, mul_fx, sqrt_fx, SCALE,
};
use crate::material::{wf_material, Material};
use crate::ray::{at_v, Ray, RayV};
use crate::vec3::{
    divs_v, dot_v, in_bound_v, lemma_dot_bound, lemma_lensq_bounds, lensq_v, near_zero_v, neg_v,
    sub_v, Vec3, V3, VEC_DOT_MAX,
};

verus! {

/// Componentwise magnitude bound on points the tracer works with.
pub const COORD_MAX: i128 = 1_000_000_000_000;

/// Componentwise magnitude bound on ray directions.
pub const DIR_MAX: i128 = 1_000_000_000;

/// Componentwise magnitude bound on sphere centers, and upper bound on radii.
pub const SCENE_MAX: i128 = 1_000_000_000;

/// Componentwise magnitude bound on oriented surface normals.
pub const NORMAL_MAX: i128 = 2_000_000;

/// Upper bound on the far intersection parameter, standing in for infinity.
pub const T_LIMIT: i128 = 1_000_000_000_000;

/// A ray whose origin and direction the intersection arithmetic accepts.
pub open spec fn wf_ray_v(r: RayV) -> bool {
    in_bound_v(r.origin, COORD_MAX as int) && in_bound_v(r.direction, DIR_MAX as int)
}

/// The mathematical value of a hit record.
pub ghost struct HitRecV {
    pub point: V3,
    pub normal: V3,
    pub t: int,
    pub front_face: bool,
    pub material: Material,
}

/// The nearest qualifying intersection of a ray with a primitive: where it
/// hit, the unit-scale normal oriented against the ray, the ray parameter,
/// which side was struck, and the surface material.
#[derive(Clone, Copy, Debug)]
pub struct HitRecord {
    pub point: Vec3,
    pub normal: Vec3,
    pub t: i128,
    pub front_face: bool,
    pub material: Material,
}

impl View for HitRecord {
    type V = HitRecV;

    open spec fn view(&self) -> HitRecV {
        HitRecV {
            point: self.point@,
            normal: self.normal@,
            t: self.t as int,
            front_face: self.front_face,
            material: self.material,
        }
    }
}

impl HitRecord {
    /// A blank record: the origin, no orientation, and a black diffuse
    /// placeholder material.
    pub fn empty() -> (r: HitRecord)
        ensures
            r@.point == (V3 { x: 0, y: 0, z: 0 }),
            r@.normal == (V3 { x: 0, y: 0, z: 0 }),
            r@.t == 0,
            r@.front_face == false,
            r@.material == (Material::Lambertian { albedo: Vec3 { x: 0, y: 0, z: 0 } }),
    {
        HitRecord {
            point: Vec3::new(0, 0, 0),
            normal: Vec3::new(0, 0, 0),
            t: 0,
            front_face: false,
            material: Material::Lambertian { albedo: Vec3 { x: 0, y: 0, z: 0 } },
        }
    }

    /// Record which side of the surface the ray struck: the front face iff
    /// the ray direction and the geometric outward normal point against
    /// each other, and store the normal oriented against the ray.
    pub fn set_face_normal(&mut self, ray: &Ray, outward_normal: Vec3)
        requires
            in_bound_v(ray@.direction, VEC_DOT_MAX as int),
            in_bound_v(outward_normal@, VEC_DOT_MAX as int),
        ensures
            final(self)@.front_face == (dot_v(ray@.direction, outward_normal@) < 0),
            final(self)@.normal == (if dot_v(ray@.direction, outward_normal@) < 0 {
                outward_normal@
            } else {
                neg_v(outward_normal@)
            }),
            final(self)@.point == old(self)@.point,
            final(self)@.t == old(self)@.t,
            final(self)@.material == old(self)@.material,
    {
        self.front_face = ray.direction.dot(&outward_normal) < 0;
        self.normal = if self.front_face {
            outward_normal
        } else {
            outward_normal.neg()
        };
    }
}

/// The mathematical value of a sphere.
pub ghost struct SphereV {
    pub center: V3,
    pub radius: int,
    pub material: Material,
}

/// The one primitive in scope: a sphere with an attached material.
#[derive(Clone, Copy, Debug)]
pub struct Sphere {
    pub center: Vec3,
    pub radius: i128,
    pub material: Material,
}

impl View for Sphere {
    type V = SphereV;

    open spec fn view(&self) -> SphereV {
        SphereV { center: self.center@, radius: self.radius as int, material: self.material }
    }
}

/// Geometry the intersection arithmetic accepts: a bounded center, a
/// positive bounded radius, and material parameters in range.
pub open spec fn wf_sphere_v(s: SphereV) -> bool {
    in_bound_v(s.center, SCENE_MAX as int) && 1 <= s.radius <= SCENE_MAX && wf_material(s.material)
}

/// Quadratic coefficient `a = d . d` of the sphere intersection equation.
pub open spec fn hit_a(r: RayV) -> int {
    lensq_v(r.direction)
}

/// Half-form linear coefficient `h = d . (C - O)`.
pub open spec fn hit_h(s: SphereV, r: RayV) -> int {
    dot_v(r.direction, sub_v(s.center, r.origin))
}

/// Constant coefficient `c = |C - O|^2 - radius^2`.
pub open spec fn hit_c(s: SphereV, r: RayV) -> int {
    lensq_v(sub_v(s.center, r.origin)) - mul_fx(s.radius, s.radius)
}

/// Discriminant `h^2 - a c` of the half-form quadratic.
pub open spec fn hit_disc(s: SphereV, r: RayV) -> int {
    mul_fx(hit_h(s, r), hit_h(s, r)) - mul_fx(hit_a(r), hit_c(s, r))
}

/// The smaller intersection parameter, `(h - sqrt(disc)) / a`.
pub open spec fn hit_root1(s: SphereV, r: RayV) -> int {
    div_fx(hit_h(s, r) - sqrt_fx(hit_disc(s, r)), hit_a(r))
}

/// The larger intersection parameter, `(h + sqrt(disc)) / a`.
pub open spec fn hit_root2(s: SphereV, r: RayV) -> int {
    div_fx(hit_h(s, r) + sqrt_fx(hit_disc(s, r)), hit_a(r))
}

/// The root the intersection reports: the smaller if it lies strictly
/// inside `(tmin, tmax)`, else the larger.
pub open spec fn hit_chosen_root(s: SphereV, r: RayV, tmin: int, tmax: int) -> int {
    if tmin < hit_root1(s, r) < tmax {
        hit_root1(s, r)
    } else {
        hit_root2(s, r)
    }
}

/// The record a qualifying root produces: the point along the ray, and the
/// outward normal `(P - C) / radius` oriented against the ray.
pub open spec fn hit_record_at(s: SphereV, r: RayV, root: int) -> HitRecV {
    let point = at_v(r, root);
    let outward = divs_v(sub_v(point, s.center), s.radius);
    let front_face = dot_v(r.direction, outward) < 0;
    HitRecV {
        point,
        normal: if front_face {
            outward
        } else {
            neg_v(outward)
        },
        t: root,
        front_face,
        material: s.material,
    }
}

/// The computed hit point and normal are within the ranges the rest of the
/// pipeline accepts; geometrically sound scenes always satisfy this.
pub open spec fn hit_in_range(rec: HitRecV) -> bool {
    in_bound_v(rec.point, COORD_MAX as int) && in_bound_v(rec.normal, NORMAL_MAX as int)
        && !near_zero_v(rec.normal)
}

/// The full sphere intersection function: `None` for a degenerate
/// direction, a negative discriminant, no root inside `(tmin, tmax)`, or a
/// record outside the pipeline's ranges; otherwise the record of the
/// chosen root.
pub open spec fn sphere_hit_s(s: SphereV, r: RayV, tmin: int, tmax: int) -> Option<HitRecV> {
    if hit_a(r) == 0 {
        None
    } else if hit_disc(s, r) < 0 {
        None
    } else {
        let root = hit_chosen_root(s, r, tmin, tmax);
        if !(tmin < root < tmax) {
            None
        } else {
            let rec = hit_record_at(s, r, root);
            if !hit_in_range(rec) {
                None
            } else {
                Some(rec)
            }
        }
    }
}

impl Sphere {
    /// A sphere at `center` with the given radius and material.
    pub fn new(center: Vec3, radius: i128, material: Material) -> (s: Sphere)
        requires
            in_bound_v(center@, SCENE_MAX as int),
            1 <= radius <= SCENE_MAX,
            wf_material(material),
        ensures
            s@ == (SphereV { center: center@, radius: radius as int, material }),
            wf_sphere_v(s@),
    {
        Sphere { center, radius, material }
    }

    /// The nearest intersection of `ray` with this sphere whose parameter
    /// lies strictly inside `(ray_t_min, ray_t_max)`, as `sphere_hit_s`
    /// specifies: the smaller quadratic root when it qualifies, else the
    /// larger, else no hit.
    pub fn hit(&self, ray: &Ray, ray_t_min: i128, ray_t_max: i128) -> (res: Option<HitRecord>)
        requires
            wf_sphere_v(self@),
            wf_ray_v(ray@),
            0 < ray_t_min,
            ray_t_max <= T_LIMIT,
        ensures
            res is Some <==> sphere_hit_s(self@, ray@, ray_t_min as int, ray_t_max as int) is Some,
            res is Some ==> res->Some_0@ == sphere_hit_s(
                self@,
                ray@,
                ray_t_min as int,
                ray_t_max as int,
            )->Some_0,
            res is Some && ray_t_min < hit_root1(self@, ray@) < ray_t_max ==> res->Some_0@.t
                == hit_root1(self@, ray@),
            res is Some && !(ray_t_min < hit_root1(self@, ray@) < ray_t_max) ==> res->Some_0@.t
                == hit_root2(self@, ray@),
    {
        let oc = self.center.sub(&ray.origin);
        proof {
            lemma_lensq_bounds(ray@.direction, DIR_MAX as int);
            lemma_lensq_bounds(sub_v(self@.center, ray@.origin), 1_001_000_000_000);
            lemma_dot_bound(
                ray@.direction,
                sub_v(self@.center, ray@.origin),
                DIR_MAX as int,
                1_001_000_000_000,
            );
            lemma_mul_fx_bound(self@.radius, self@.radius, SCENE_MAX as int, SCENE_MAX as int);
        }
        let a = ray.direction.length_squared();
        if a == 0 {
            return None;
        }
        let h = ray.direction.dot(&oc);
        let csq = oc.length_squared();
        let rr = fmul(self.radius, self.radius);
        let c = csq - rr;
        proof {
            lemma_mul_fx_bound(
                hit_h(self@, ray@),
                hit_h(self@, ray@),
                3_003_001_000_000_000,
                3_003_001_000_000_000,
            );
            lemma_mul_fx_bound(
                hit_a(ray@),
                hit_c(self@, ray@),
                3_000_000_000_000,
                3_500_000_000_000_000_000,
            );
        }
        let hh = fmul(h, h);
        let ac = fmul(a, c);
        let discriminant = hh - ac;
        if discriminant < 0 {
            return None;
        }
        proof {
            lemma_sqrt_fx_upper(discriminant as int, 5_000_000_000_000_000_000);
        }
        let sqrt_d = fsqrt(discriminant);
        let root1 = fdiv(h - sqrt_d, a);
        let root2 = fdiv(h + sqrt_d, a);
        let root = if ray_t_min < root1 && root1 < ray_t_max {
            root1
        } else {
            root2
        };
        if !(ray_t_min < root && root < ray_t_max) {
            return None;
        }
        let point = ray.at(root);
        if !(-COORD_MAX <= point.x && point.x <= COORD_MAX && -COORD_MAX <= point.y && point.y
            <= COORD_MAX && -COORD_MAX <= point.z && point.z <= COORD_MAX) {
            return None;
        }
        let diff = point.sub(&self.center);
        let outward = diff.div(self.radius);
        if !(-NORMAL_MAX <= outward.x && outward.x <= NORMAL_MAX && -NORMAL_MAX <= outward.y
            && outward.y <= NORMAL_MAX && -NORMAL_MAX <= outward.z && outward.z <= NORMAL_MAX) {
            return None;
        }
        if outward.near_zero() {
            return None;
        }
        let mut rec = HitRecord {
            point,
            normal: outward,
            t: root,
            front_face: false,
            material: self.material,
        };
        rec.set_face_normal(ray, outward);
        Some(rec)
    }
}

/// The two intersection parameters of a ray with a sphere come in
/// ascending order: the reported roots `(h - sqrt(disc)) / a` and
/// `(h + sqrt(disc)) / a` satisfy `root1 <= root2` whenever the
/// discriminant admits them, so the hit selection tries the closer
/// surface first.
pub proof fn lemma_sphere_roots_ordered(s: SphereV, r: RayV)
    requires
        hit_a(r) >= 1,
        hit_disc(s, r) >= 0,
    ensures
        hit_root1(s, r) <= hit_root2(s, r),
{
    let h = hit_h(s, r);
    let sd = sqrt_fx(hit_disc(s, r));
    crate::fixed::lemma_sqrt_fx_props(hit_disc(s, r));
    crate::fixed::lemma_tdiv_mono(
        (h - sd) * (SCALE as int),
        (h + sd) * (SCALE as int),
        hit_a(r),
    );
}

/// A ray that starts strictly inside a sphere — strictly enough that the
/// scaled constant coefficient `a * c` is at least one quantum negative —
/// can only leave through the far surface: the smaller root is not
/// positive, so any reported hit uses the larger (exit) root.
pub proof fn lemma_inside_sphere_exit_root(s: SphereV, r: RayV, tmin: int, tmax: int)
    requires
        hit_a(r) >= 1,
        mul_fx(hit_a(r), hit_c(s, r)) <= -1,
        0 < tmin,
    ensures
        hit_root1(s, r) <= 0,
        sphere_hit_s(s, r, tmin, tmax) is Some ==> sphere_hit_s(s, r, tmin, tmax)->Some_0.t
            == hit_root2(s, r),
{
    let h = hit_h(s, r);
    let hh = mul_fx(h, h);
    let disc = hit_disc(s, r);
    crate::vec3::lemma_mul_fx_sq_nonneg(h);
    assert(h * h < (mul_fx(h, h) + 1) * (SCALE as int)) by (nonlinear_arith);
    crate::fixed::lemma_sqrt_fx_props(disc);
    let sd = sqrt_fx(disc);
    assert(sd >= h) by (nonlinear_arith)
        requires
            crate::fixed::is_isqrt(disc * (SCALE as int), sd),
            disc >= hh + 1,
            h * h < (hh + 1) * (SCALE as int),
            (SCALE as int) == 1_000_000,
    ;
    crate::fixed::lemma_tdiv_abs_le((h - sd) * (SCALE as int), hit_a(r));
}

/// Narrowing the far bound of a sphere query can only keep the same hit
/// or drop it: against a tighter bound `b` the sphere reports a hit no
/// farther than its full-range hit, or nothing when even that hit lies at
/// or beyond `b`.
pub proof fn lemma_sphere_hit_narrow(s: SphereV, r: RayV, tmin: int, b: int, tmax: int)
    requires
        b <= tmax,
        sphere_hit_s(s, r, tmin, tmax) is Some,
    ensures
        match sphere_hit_s(s, r, tmin, b) {
            Some(h) => h.t <= sphere_hit_s(s, r, tmin, tmax)->Some_0.t,
            None => b <= sphere_hit_s(s, r, tmin, tmax)->Some_0.t,
        },
{
    crate::vec3::lemma_mul_fx_sq_nonneg(r.direction.x);
    crate::vec3::lemma_mul_fx_sq_nonneg(r.direction.y);
    crate::vec3::lemma_mul_fx_sq_nonneg(r.direction.z);
    lemma_sphere_roots_ordered(s, r);
}

/// Depth-correct resolution: the scene scan reports a hit no farther
/// than any single primitive's own qualifying hit, whatever the order
/// the primitives were added in.
pub proof fn lemma_list_hit_closest(w: Seq<SphereV>, r: RayV, tmin: int, tmax: int, i: int)
    requires
        wf_world_v(w),
        0 <= i < w.len(),
        sphere_hit_s(w[i], r, tmin, tmax) is Some,
    ensures
        list_hit_s(w, r, tmin, tmax) is Some,
        list_hit_s(w, r, tmin, tmax)->Some_0.t <= sphere_hit_s(w[i], r, tmin, tmax)->Some_0.t,
    decreases w.len(),
{
    let rest = list_hit_s(w.drop_last(), r, tmin, tmax);
    assert forall|k: int| 0 <= k < w.drop_last().len() implies wf_sphere_v(
        #[trigger] w.drop_last()[k],
    ) by {
        assert(w.drop_last()[k] == w[k]);
    }
    if rest is Some {
        lemma_list_hit_wf(w.drop_last(), r, tmin, tmax);
    }
    let bound = match rest {
        Some(rec) => rec.t,
        None => tmax,
    };
    if i < w.len() - 1 {
        assert(w.drop_last()[i] == w[i]);
        lemma_list_hit_closest(w.drop_last(), r, tmin, tmax, i);
    } else {
        assert(w.last() == w[i]);
        lemma_sphere_hit_narrow(w[i], r, tmin, bound, tmax);
    }
}

/// The scene: an ordered collection of primitives, owning them and
/// scanned linearly per ray.
pub struct HittableList {
    pub vec: Vec<Sphere>,
}

impl View for HittableList {
    type V = Seq<SphereV>;

    open spec fn view(&self) -> Seq<SphereV> {
        self.vec@.map_values(|s: Sphere| s@)
    }
}

/// Every primitive in the scene is well formed.
pub open spec fn wf_world_v(w: Seq<SphereV>) -> bool {
    forall|i: int| 0 <= i < w.len() ==> wf_sphere_v(#[trigger] w[i])
}

/// The scene intersection: scan the primitives in order, narrowing the far
/// bound to the nearest hit found so far, so the nearest hit over the
/// whole list is reported regardless of insertion order.
pub open spec fn list_hit_s(w: Seq<SphereV>, r: RayV, tmin: int, tmax: int) -> Option<HitRecV>
    decreases w.len(),
{
    if w.len() == 0 {
        None
    } else {
        let rest = list_hit_s(w.drop_last(), r, tmin, tmax);
        let bound = match rest {
            Some(rec) => rec.t,
            None => tmax,
        };
        match sphere_hit_s(w.last(), r, tmin, bound) {
            Some(rec) => Some(rec),
            None => rest,
        }
    }
}

/// A record the scene intersection reports is fit for scattering: its
/// point and normal are in range, the normal is not degenerate, its
/// material is well formed, and its parameter lies inside the queried
/// interval.
pub proof fn lemma_list_hit_wf(w: Seq<SphereV>, r: RayV, tmin: int, tmax: int)
    requires
        wf_world_v(w),
        list_hit_s(w, r, tmin, tmax) is Some,
    ensures
        hit_in_range(list_hit_s(w, r, tmin, tmax)->Some_0),
        wf_material(list_hit_s(w, r, tmin, tmax)->Some_0.material),
        tmin < list_hit_s(w, r, tmin, tmax)->Some_0.t < tmax,
    decreases w.len(),
{
    let rest = list_hit_s(w.drop_last(), r, tmin, tmax);
    assert forall|i: int| 0 <= i < w.drop_last().len() implies wf_sphere_v(
        #[trigger] w.drop_last()[i],
    ) by {
        assert(w.drop_last()[i] == w[i]);
    }
    if rest is Some {
        lemma_list_hit_wf(w.drop_last(), r, tmin, tmax);
    }
    let bound = match rest {
        Some(rec) => rec.t,
        None => tmax,
    };
    match sphere_hit_s(w.last(), r, tmin, bound) {
        Some(h) => {
            assert(wf_sphere_v(w[w.len() - 1]));
        },
        None => {
        },
    }
}

impl HittableList {
    /// The nearest intersection of `ray` with any primitive in the scene
    /// whose parameter lies strictly inside `(ray_t_min, ray_t_max)`.
    pub fn hit(&self, ray: &Ray, ray_t_min: i128, ray_t_max: i128) -> (res: Option<HitRecord>)
        requires
            wf_world_v(self@),
            wf_ray_v(ray@),
            0 < ray_t_min,
            ray_t_max <= T_LIMIT,
        ensures
            res is Some <==> list_hit_s(self@, ray@, ray_t_min as int, ray_t_max as int) is Some,
            res is Some ==> res->Some_0@ == list_hit_s(
                self@,
                ray@,
                ray_t_min as int,
                ray_t_max as int,
            )->Some_0,
    {
        let ghost full = self@;
        let mut best: Option<HitRecord> = None;
        let mut closest_so_far: i128 = ray_t_max;
        let n = self.vec.len();
        let mut i: usize = 0;
        while i < n
            invariant
                n == self.vec.len(),
                0 <= i <= n,
                full == self@,
                wf_world_v(self@),
                wf_ray_v(ray@),
                0 < ray_t_min,
                ray_t_max <= T_LIMIT,
                best is Some <==> list_hit_s(full.take(i as int), ray@, ray_t_min as int,
                    ray_t_max as int) is Some,
                best is Some ==> best->Some_0@ == list_hit_s(
                    full.take(i as int),
                    ray@,
                    ray_t_min as int,
                    ray_t_max as int,
                )->Some_0,
                closest_so_far == match list_hit_s(
                    full.take(i as int),
                    ray@,
                    ray_t_min as int,
                    ray_t_max as int,
                ) {
                    Some(rec) => rec.t,
                    None => ray_t_max as int,
                },
                closest_so_far <= ray_t_max,
            decreases n - i,
        {
            proof {
                assert(full.take(i + 1).drop_last() =~= full.take(i as int));
                assert(full.take(i + 1).last() == full[i as int]);
                assert(wf_sphere_v(full[i as int]));
            }
            match self.vec[i].hit(ray, ray_t_min, closest_so_far) {
                Some(rec) => {
                    best = Some(rec);
                    closest_so_far = rec.t;
                },
                None => {
                },
            }
            i = i + 1;
        }
        proof {
            assert(full.take(n as int) =~= full);
        }
        best
    }
}

} // verus!
