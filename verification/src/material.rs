//! Materials: Lambertian diffuse and metallic mirror scattering.

use crate::fx::{fmul, Fx, SCALE};
use crate::hittable::{HitRecord, HitV};
use crate::ray::{Ray, RayV};
use crate::vec3::{v3_unit_box, v3_wf, vadd, vdot, vscale, vsub, Vec3, V3};
use rand::Rng;
use vstd::prelude::*;

verus! {

/// Relies on rand::Rng::gen_range over an inclusive, nonempty i128 range:
/// the draw lies within the given bounds.
#[verifier::external_body]
fn rand_raw_in(lo: i128, hi: i128) -> (r: i128)
    requires
        lo <= hi,
    ensures
        lo <= r <= hi,
{
    rand::thread_rng().gen_range(lo..=hi)
}

/// A vector with each component drawn uniformly from `[lo, hi]`.
pub fn random_vector(lo: Fx, hi: Fx) -> (r: Vec3)
    requires
        lo.wf(),
        hi.wf(),
        lo@ <= hi@,
    ensures
        r.wf(),
        lo@ <= r@.x <= hi@,
        lo@ <= r@.y <= hi@,
        lo@ <= r@.z <= hi@,
{
    Vec3 {
        x: Fx::new(rand_raw_in(lo.raw, hi.raw)),
        y: Fx::new(rand_raw_in(lo.raw, hi.raw)),
        z: Fx::new(rand_raw_in(lo.raw, hi.raw)),
    }
}

/// Rejection-sample a vector inside the unit ball: draw components in
/// `[-1, 1]` and retry until the squared length falls below one.  Each
/// draw succeeds with probability about one half; after a generous retry
/// budget the center of the ball is used, so the function always returns.
pub fn random_unit_sphere() -> (r: Vec3)
    ensures
        r.wf(),
        -(SCALE as int) <= r@.x <= SCALE as int,
        -(SCALE as int) <= r@.y <= SCALE as int,
        -(SCALE as int) <= r@.z <= SCALE as int,
        vdot(r@, r@) < SCALE as int,
{
    let neg_one = Fx::new(-SCALE);
    let one = Fx::one();
    let mut tries: usize = 0;
    while tries < 128
        invariant
            neg_one@ == -(SCALE as int),
            one@ == SCALE as int,
        decreases 128 - tries,
    {
        let res = random_vector(neg_one, one);
        if res.magnitude2().raw < SCALE {
            return res;
        }
        tries = tries + 1;
    }
    Vec3::zero()
}

/// True when every component is exactly zero; on the fixed-point grid this
/// is the degenerate-direction test (the original epsilon lies below one
/// grid step).
pub fn is_near_zero(vec: &Vec3) -> (r: bool)
    ensures
        r == (vec@.x == 0 && vec@.y == 0 && vec@.z == 0),
{
    vec.x.raw == 0 && vec.y.raw == 0 && vec.z.raw == 0
}

/// Mirror reflection `v - 2 * dot(v, n) * n`.
pub open spec fn vreflect(v: V3, n: V3) -> V3 {
    vsub(v, vscale(n, fmul(2 * SCALE as int, vdot(v, n))))
}

/// Mirror reflection of `vec` about the normal `n`.
pub fn reflect(vec: Vec3, n: Vec3) -> (r: Vec3)
    requires
        vec.wf(),
        n.wf(),
    ensures
        r@ == vreflect(vec@, n@),
        r.wf(),
{
    let two = Fx::new(2 * SCALE);
    vec.sub(n.scale(two.mul(vec.dot(n))))
}

/// The scatter direction a Lambertian surface builds from a unit-ball
/// sample: normal plus the sample itself (no unit vector is taken before
/// adding), with an exactly zero result replaced by the normal.
pub open spec fn lambertian_dir(normal: V3, sample: V3) -> V3 {
    let d = vadd(normal, sample);
    if d.x == 0 && d.y == 0 && d.z == 0 {
        normal
    } else {
        d
    }
}

/// What a metallic surface returns: the reflected ray from the hit point
/// when the reflection leaves the surface, nothing (absorption) otherwise.
pub open spec fn metalic_scatter_spec(albedo: V3, ray: RayV, hit: HitV) -> Option<(RayV, V3)> {
    let reflected = vreflect(ray.direction, hit.normal);
    if vdot(reflected, hit.normal) > 0 {
        Some((RayV { origin: hit.point, direction: reflected }, albedo))
    } else {
        None
    }
}

/// The view of an optional scatter result.
pub open spec fn scatter_opt_view(r: Option<(Ray, Vec3)>) -> Option<(RayV, V3)> {
    match r {
        Some((sray, attn)) => Some((sray@, attn@)),
        None => None,
    }
}

/// A diffuse surface that always scatters.
#[derive(Clone, Copy, PartialEq, Eq, Structural, Debug)]
pub struct Lambertian {
    pub albedo: Vec3,
}

impl Lambertian {
    /// Each albedo channel lies in `[0, 1]`.
    pub open spec fn wf(self) -> bool {
        v3_unit_box(self.albedo@)
    }

    /// Build a diffuse material; every albedo channel must lie in `[0, 1]`.
    pub fn new(albedo: Vec3) -> (m: Lambertian)
        requires
            v3_unit_box(albedo@),
        ensures
            m.albedo == albedo,
            m.wf(),
    {
        Lambertian { albedo }
    }

    /// Scatter off `hit`: always returns a ray from the hit point in a
    /// direction built from some unit-ball sample, with the albedo as
    /// attenuation.
    pub fn scatter(&self, ray_in: &Ray, hit: &HitRecord) -> (r: Option<(Ray, Vec3)>)
        requires
            self.wf(),
            ray_in.wf(),
            hit.wf(),
        ensures
            (match r {
                Some((sray, attn)) => attn@ == self.albedo@ && sray@.origin == hit@.point
                    && sray.wf() && exists|s: V3|
                    v3_wf(s) && vdot(s, s) < SCALE as int && sray@.direction == lambertian_dir(
                        hit@.normal,
                        s,
                    ),
                None => false,
            }),
    {
        let sample = random_unit_sphere();
        let direction = hit.normal.add(sample);
        let dir = if is_near_zero(&direction) {
            hit.normal
        } else {
            direction
        };
        proof {
            assert(v3_wf(sample@) && vdot(sample@, sample@) < SCALE as int && dir@
                == lambertian_dir(hit@.normal, sample@));
        }
        Some((Ray { origin: hit.point, direction: dir }, self.albedo))
    }
}

/// A mirror surface that reflects or absorbs.
#[derive(Clone, Copy, PartialEq, Eq, Structural, Debug)]
pub struct Metalic {
    pub albedo: Vec3,
}

impl Metalic {
    /// Each albedo channel lies in `[0, 1]`.
    pub open spec fn wf(self) -> bool {
        v3_unit_box(self.albedo@)
    }

    /// Build a metallic material; every albedo channel must lie in `[0, 1]`.
    pub fn new(albedo: Vec3) -> (m: Metalic)
        requires
            v3_unit_box(albedo@),
        ensures
            m.albedo == albedo,
            m.wf(),
    {
        Metalic { albedo }
    }

    /// Scatter off `hit`: the mirror reflection when it leaves the surface
    /// (`dot(reflected, normal) > 0`), absorption (`None`) otherwise.
    pub fn scatter(&self, ray_in: &Ray, hit: &HitRecord) -> (r: Option<(Ray, Vec3)>)
        requires
            self.wf(),
            ray_in.wf(),
            hit.wf(),
        ensures
            scatter_opt_view(r) == metalic_scatter_spec(self.albedo@, ray_in@, hit@),
            (match r {
                Some((sray, attn)) => sray.wf() && attn@ == self.albedo@,
                None => true,
            }),
    {
        let reflected = reflect(ray_in.direction, hit.normal);
        let ray = Ray { direction: reflected, origin: hit.point };
        if ray.direction.dot(hit.normal).raw > 0 {
            Some((ray, self.albedo))
        } else {
            None
        }
    }
}

/// The closed set of materials, dispatched by `match`.
#[derive(Clone, Copy, PartialEq, Eq, Structural, Debug)]
pub enum Material {
    Lambertian(Lambertian),
    Metalic(Metalic),
}

/// The albedo of either material kind.
pub open spec fn mat_albedo(m: Material) -> V3 {
    match m {
        Material::Lambertian(l) => l.albedo@,
        Material::Metalic(mm) => mm.albedo@,
    }
}

impl Material {
    /// The albedo channels lie in `[0, 1]`.
    pub open spec fn wf(self) -> bool {
        match self {
            Material::Lambertian(l) => l.wf(),
            Material::Metalic(m) => m.wf(),
        }
    }

    /// Scatter off `hit` according to the material kind.  Whenever a ray
    /// comes back, its attenuation is exactly the albedo (each channel in
    /// `[0, 1]`) and it starts at the hit point.
    pub fn scatter(&self, ray_in: &Ray, hit: &HitRecord) -> (r: Option<(Ray, Vec3)>)
        requires
            self.wf(),
            ray_in.wf(),
            hit.wf(),
        ensures
            (match r {
                Some((sray, attn)) => sray.wf() && attn@ == mat_albedo(*self) && v3_unit_box(
                    attn@,
                ) && sray@.origin == hit@.point,
                None => true,
            }),
            (self matches Material::Metalic(m) ==> scatter_opt_view(r) == metalic_scatter_spec(
                m.albedo@,
                ray_in@,
                hit@,
            )),
            (self matches Material::Lambertian(l) ==> (match r {
                Some((sray, attn)) => exists|s: V3|
                    v3_wf(s) && vdot(s, s) < SCALE as int && sray@.direction == lambertian_dir(
                        hit@.normal,
                        s,
                    ),
                None => false,
            })),
    {
        match self {
            Material::Lambertian(l) => l.scatter(ray_in, hit),
            Material::Metalic(m) => m.scatter(ray_in, hit),
        }
    }
}

} // verus!
