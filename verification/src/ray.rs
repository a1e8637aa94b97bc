//! Rays: an origin with a direction, evaluated along a scalar parameter.

use vstd::prelude::*;
use crate::fixed::FMUL_ARG_MAX;
use crate::vec3::{add_v, in_bound_v, lemma_scale_bound, scale_v, Vec3, V3, VEC_REFLECT_MAX};

verus! {

/// The mathematical value of a ray.
pub ghost struct RayV {
    pub origin: V3,
    pub direction: V3,
}

/// A half line, fired from the camera or from a scattering surface.
/// The direction need not be unit length.
#[derive(Clone, Copy, Debug)]
pub struct Ray {
    pub origin: Vec3,
    pub direction: Vec3,
}

impl View for Ray {
    type V = RayV;

    open spec fn view(&self) -> RayV {
        RayV { origin: self.origin@, direction: self.direction@ }
    }
}

/// The point a ray reaches at parameter `t`.
pub open spec fn at_v(r: RayV, t: int) -> V3 {
    add_v(r.origin, scale_v(r.direction, t))
}

impl Ray {
    /// The ray from `origin` along `direction`.
    pub fn new(origin: Vec3, direction: Vec3) -> (r: Ray)
        ensures
            r@.origin == origin@,
            r@.direction == direction@,
    {
        Ray { origin, direction }
    }

    /// The point reached at parameter `t`: `origin + direction * t`.
    pub fn at(&self, t: i128) -> (p: Vec3)
        requires
            in_bound_v(self@.origin, 1_000_000_000_000_000_000),
            in_bound_v(self@.direction, VEC_REFLECT_MAX as int),
            -VEC_REFLECT_MAX <= t <= VEC_REFLECT_MAX,
        ensures
            p@ == at_v(self@, t as int),
    {
        proof {
            lemma_scale_bound(
                self@.direction,
                t as int,
                VEC_REFLECT_MAX as int,
                VEC_REFLECT_MAX as int,
                1_000_000_000_000_000_000,
            );
        }
        let step = self.direction.scale(t);
        self.origin.add(&step)
    }
}

} // verus!
