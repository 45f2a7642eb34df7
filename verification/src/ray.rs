//! Rays: parametric half-lines `origin + t * direction`.

use crate::fx::Fx;
use crate::vec3::{v3_wf, vadd, vscale, Vec3, V3};
use vstd::prelude::*;

verus! {

/// Model of a ray.
pub struct RayV {
    pub origin: V3,
    pub direction: V3,
}

/// A ray with fixed-point origin and direction.
#[derive(Clone, Copy, PartialEq, Eq, Structural, Debug)]
pub struct Ray {
    pub origin: Vec3,
    pub direction: Vec3,
}

impl View for Ray {
    type V = RayV;

    open spec fn view(&self) -> RayV {
        RayV { origin: self.origin@, direction: self.direction@ }
    }
}

/// The point reached after parameter `t`.
pub open spec fn ray_at(r: RayV, t: int) -> V3 {
    vadd(r.origin, vscale(r.direction, t))
}

impl Ray {
    /// Origin and direction within the representable band.
    pub open spec fn wf(self) -> bool {
        v3_wf(self@.origin) && v3_wf(self@.direction)
    }

    /// `origin + direction * v`.
    pub fn at(&self, v: Fx) -> (p: Vec3)
        requires
            self.wf(),
            v.wf(),
        ensures
            p@ == ray_at(self@, v@),
            p.wf(),
    {
        self.origin.add(self.direction.scale(v))
    }
}

} // verus!
