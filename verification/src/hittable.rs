//! Scene geometry: spheres and the aggregate list with nearest-hit search.

use crate::fx::{fadd, fdiv, fmul, fneg, fsqrt, fsub, lemma_fdiv_scales_back, tdiv, Fx, SCALE};
use crate::material::Material;
use crate::ray::{ray_at, Ray, RayV};
use crate::vec3::{lemma_vdot_neg, v3_wf, vdiv, vdiv_unclamped, vdot, vneg, vsub, Vec3, V3};
use vstd::prelude::*;

verus! {

/// Model of an accepted intersection.
pub struct HitV {
    pub point: V3,
    pub normal: V3,
    pub front_face: bool,
    pub t: int,
    pub material: int,
}

/// An accepted intersection: position, front-facing normal, parameter and
/// the handle of the surface material.
#[derive(Clone, Copy, PartialEq, Eq, Structural, Debug)]
pub struct HitRecord {
    pub point: Vec3,
    pub normal: Vec3,
    pub front_face: bool,
    pub t: Fx,
    pub material: usize,
}

impl View for HitRecord {
    type V = HitV;

    open spec fn view(&self) -> HitV {
        HitV {
            point: self.point@,
            normal: self.normal@,
            front_face: self.front_face,
            t: self.t@,
            material: self.material as int,
        }
    }
}

impl HitRecord {
    /// All fields within the representable band.
    pub open spec fn wf(self) -> bool {
        v3_wf(self@.point) && v3_wf(self@.normal) && self.t.wf()
    }
}

/// The view of an optional record.
pub open spec fn hit_opt_view(r: Option<HitRecord>) -> Option<HitV> {
    match r {
        Some(h) => Some(h@),
        None => None,
    }
}

/// A sphere with a material handle into the scene's arena.
#[derive(Clone, Copy, PartialEq, Eq, Structural, Debug)]
pub struct Sphere {
    pub center: Vec3,
    pub radius: Fx,
    pub material: usize,
}

/// Discriminant of the ray/sphere quadratic, over the scaled integers:
/// `half_b^2 - a * c` for `a = |d|^2`, `half_b = dot(o - c, d)`,
/// `c = |o - c|^2 - r^2`.
pub open spec fn sphere_disc(s: Sphere, ray: RayV) -> int {
    let oc = vsub(ray.origin, s.center@);
    let a = vdot(ray.direction, ray.direction);
    let half_b = vdot(oc, ray.direction);
    let c = fsub(vdot(oc, oc), fmul(s.radius@, s.radius@));
    fsub(fmul(half_b, half_b), fmul(a, c))
}

/// The record built for an accepted root: point on the ray, outward normal
/// `(point - center) / radius` flipped against the ray where needed.
pub open spec fn sphere_record(s: Sphere, ray: RayV, root: int) -> HitV {
    let point = ray_at(ray, root);
    let outward = vdiv(vsub(point, s.center@), s.radius@);
    let ff = vdot(ray.direction, outward) < 0;
    HitV {
        point,
        normal: if ff {
            outward
        } else {
            vneg(outward)
        },
        front_face: ff,
        t: root,
        material: s.material as int,
    }
}

/// What `Sphere::hit` returns: the smaller quadratic root if it lies in
/// `[lo, hi]`, else the larger, else nothing.  Degenerate spheres
/// (radius rounding to zero or below) and degenerate directions
/// (squared length rounding to zero) never hit.
pub open spec fn sphere_hit_spec(s: Sphere, ray: RayV, lo: int, hi: int) -> Option<HitV> {
    let oc = vsub(ray.origin, s.center@);
    let a = vdot(ray.direction, ray.direction);
    let half_b = vdot(oc, ray.direction);
    let disc = sphere_disc(s, ray);
    if s.radius@ <= 0 || a <= 0 || disc < 0 {
        None
    } else {
        let sq = fsqrt(disc);
        let r1 = fdiv(fsub(fneg(half_b), sq), a);
        let r2 = fdiv(fadd(fneg(half_b), sq), a);
        let root = if lo <= r1 <= hi {
            r1
        } else {
            r2
        };
        if lo <= root <= hi {
            Some(sphere_record(s, ray, root))
        } else {
            None
        }
    }
}

impl Sphere {
    /// Center and radius within the representable band.
    pub open spec fn wf(self) -> bool {
        v3_wf(self.center@) && self.radius.wf()
    }

    /// Build a sphere.
    pub fn new(center: Vec3, radius: Fx, material: usize) -> (s: Sphere)
        ensures
            s.center == center,
            s.radius == radius,
            s.material == material,
    {
        Sphere { center, radius, material }
    }

    /// Nearest intersection with `self` whose parameter lies in
    /// `[t_min, t_max]`, per `sphere_hit_spec`.  Every accepted hit has a
    /// normal oriented against the ray: `dot(direction, normal) <= 0`.
    pub fn hit(&self, ray: &Ray, t_min: Fx, t_max: Fx) -> (r: Option<HitRecord>)
        requires
            self.wf(),
            ray.wf(),
            t_min.wf(),
            t_max.wf(),
        ensures
            hit_opt_view(r) == sphere_hit_spec(*self, ray@, t_min@, t_max@),
            (match r {
                Some(h) => h.wf() && h.material == self.material && t_min@ <= h.t@ <= t_max@
                    && vdot(ray@.direction, h.normal@) <= 0,
                None => true,
            }),
    {
        if self.radius.raw <= 0 {
            return None;
        }
        let oc = ray.origin.sub(self.center);
        let a = ray.direction.magnitude2();
        if a.raw <= 0 {
            return None;
        }
        let half_b = oc.dot(ray.direction);
        let c = oc.magnitude2().sub(self.radius.mul(self.radius));
        let disc = half_b.mul(half_b).sub(a.mul(c));
        if disc.raw < 0 {
            return None;
        }
        let sq = disc.sqrt();
        let r1 = half_b.neg().sub(sq).div(a);
        let r2 = half_b.neg().add(sq).div(a);
        let in1 = t_min.raw <= r1.raw && r1.raw <= t_max.raw;
        let root = if in1 {
            r1
        } else {
            r2
        };
        if !(t_min.raw <= root.raw && root.raw <= t_max.raw) {
            return None;
        }
        let point = ray.at(root);
        let outward = point.sub(self.center).div_scalar(self.radius);
        let d = ray.direction.dot(outward);
        let front_face = d.raw < 0;
        let normal = if front_face {
            outward
        } else {
            outward.neg()
        };
        proof {
            if !front_face {
                lemma_vdot_neg(ray@.direction, outward@);
            }
        }
        Some(HitRecord { point, normal, front_face, t: root, material: self.material })
    }
}

/// One step of the aggregate fold: test members from index `i` on against
/// the interval `[lo, closest]`, tightening `closest` after each accepted
/// hit, starting from the best record so far.
pub open spec fn list_hit_from(
    objs: Seq<Sphere>,
    ray: RayV,
    lo: int,
    closest: int,
    acc: Option<HitV>,
    i: int,
) -> Option<HitV>
    decreases objs.len() - i,
{
    if i < 0 || i >= objs.len() {
        acc
    } else {
        match sphere_hit_spec(objs[i], ray, lo, closest) {
            Some(h) => list_hit_from(objs, ray, lo, h.t, Some(h), i + 1),
            None => list_hit_from(objs, ray, lo, closest, acc, i + 1),
        }
    }
}

/// What `HittableList::hit` returns.
pub open spec fn list_hit_spec(objs: Seq<Sphere>, ray: RayV, lo: int, hi: int) -> Option<HitV> {
    list_hit_from(objs, ray, lo, hi, None, 0)
}

/// The geometric invariant of an accepted record, at the precision the
/// grid supports: the hit point is exactly `ray.at(t)` (pinned by
/// `sphere_record`), and the outward normal is the radial direction
/// `(point - center) / radius` whose scaling back by the radius reproduces
/// `point - center` to within one division step per component.  An exactly
/// unit-length normal cannot hold on a truncating grid.
pub proof fn lemma_hit_normal_radial(s: Sphere, ray: RayV, root: int)
    requires
        s.radius@ > 0,
        vdiv_unclamped(vsub(ray_at(ray, root), s.center@), s.radius@),
    ensures
        ({
            let p = vsub(ray_at(ray, root), s.center@);
            let outward = vdiv(p, s.radius@);
            let h = sphere_record(s, ray, root);
            &&& h.point == ray_at(ray, root)
            &&& h.normal == (if h.front_face {
                outward
            } else {
                vneg(outward)
            })
            &&& -s.radius@ < p.x * SCALE - outward.x * s.radius@ < s.radius@
            &&& -s.radius@ < p.y * SCALE - outward.y * s.radius@ < s.radius@
            &&& -s.radius@ < p.z * SCALE - outward.z * s.radius@ < s.radius@
        }),
{
    let p = vsub(ray_at(ray, root), s.center@);
    lemma_fdiv_scales_back(p.x, s.radius@);
    lemma_fdiv_scales_back(p.y, s.radius@);
    lemma_fdiv_scales_back(p.z, s.radius@);
}

/// Head-on intersection law: a sphere at the origin whose radius squares
/// exactly on the grid, hit from `(0, 0, 5)` along `(0, 0, -1)` over an
/// interval containing `5 - r`, yields exactly `t == 5 - r`, the point
/// `(0, 0, r)`, the outward normal `(0, 0, 1)` and a front face.  (For a
/// radius whose square falls between grid points, the floor square root
/// shifts `t` by up to a few grid steps, so the law holds exactly on this
/// family only.)
pub proof fn lemma_head_on_hit(s: Sphere, ray: RayV, r: int, lo: int, hi: int)
    requires
        s.center@ == (V3 { x: 0, y: 0, z: 0 }),
        s.radius@ == r,
        0 < r < 5 * SCALE as int,
        (r * r) % (SCALE as int) == 0,
        ray.origin == (V3 { x: 0, y: 0, z: 5 * SCALE as int }),
        ray.direction == (V3 { x: 0, y: 0, z: -(SCALE as int) }),
        lo <= 5 * SCALE as int - r <= hi,
    ensures
        sphere_hit_spec(s, ray, lo, hi) == Some(HitV {
            point: V3 { x: 0, y: 0, z: r },
            normal: V3 { x: 0, y: 0, z: SCALE as int },
            front_face: true,
            t: 5 * SCALE as int - r,
            material: s.material as int,
        }),
{
    let sc = SCALE as int;
    let oc = vsub(ray.origin, s.center@);
    assert(oc == (V3 { x: 0, y: 0, z: 5 * sc }));
    vstd::arithmetic::div_mod::lemma_div_of0(sc);
    let a = vdot(ray.direction, ray.direction);
    assert(a == sc);
    let half_b = vdot(oc, ray.direction);
    assert(half_b == -5 * sc);
    // c == 25 - r^2, disc == r^2 (scaled), both exact since SCALE divides r^2
    let k = (r * r) / sc;
    vstd::arithmetic::div_mod::lemma_fundamental_div_mod(r * r, sc);
    assert(r * r == sc * k);
    assert(r * r > 0 && 0 <= k <= 25 * sc) by (nonlinear_arith)
        requires
            0 < r < 5 * sc,
            sc == SCALE as int,
            r * r == sc * k,
    ;
    assert(fmul(s.radius@, s.radius@) == k) by {
        assert(tdiv(r * r, sc) == k);
    }
    let c = fsub(vdot(oc, oc), fmul(s.radius@, s.radius@));
    assert(vdot(oc, oc) == 25 * sc) by {
        assert((5 * sc) * (5 * sc) == 25_000_000_000_000) by (nonlinear_arith)
            requires
                sc == 1_000_000,
        ;
        assert(tdiv(25_000_000_000_000, sc) == 25 * sc);
    }
    assert(c == 25 * sc - k);
    vstd::arithmetic::div_mod::lemma_div_multiples_vanish(c, sc);
    assert(fmul(a, c) == c) by {
        assert(sc * c >= 0) by (nonlinear_arith)
            requires
                c >= 0,
                sc > 0,
        ;
        assert(tdiv(sc * c, sc) == c);
    }
    let disc = sphere_disc(s, ray);
    assert(disc == k) by {
        assert(fmul(half_b, half_b) == 25 * sc) by {
            assert((-5 * sc) * (-5 * sc) == 25_000_000_000_000) by (nonlinear_arith)
                requires
                    sc == 1_000_000,
            ;
            assert(tdiv(25_000_000_000_000, sc) == 25 * sc);
        }
    }
    // the scaled square root of the discriminant is exactly r
    assert(k > 0) by (nonlinear_arith)
        requires
            0 < r,
            r * r == sc * k,
            sc > 0,
    ;
    assert(k * sc == r * r) by (nonlinear_arith)
        requires
            r * r == sc * k,
    ;
    crate::fx::lemma_sqrt_floor((r * r) as nat);
    assert((r * r) < (r + 1) * (r + 1)) by (nonlinear_arith)
        requires
            r > 0,
    ;
    crate::fx::lemma_sqrt_unique(
        (r * r) as nat,
        crate::fx::sqrt_floor((r * r) as nat),
        r as nat,
    );
    assert(fsqrt(disc) == r);
    // both roots are exact: t1 == 5 - r is taken
    let n1 = fsub(fneg(half_b), r);
    assert(n1 == 5 * sc - r);
    vstd::arithmetic::div_mod::lemma_div_multiples_vanish(5 * sc - r, sc);
    assert(fdiv(n1, a) == 5 * sc - r) by {
        assert(tdiv((5 * sc - r) * sc, sc) == 5 * sc - r) by {
            assert((5 * sc - r) * sc == sc * (5 * sc - r) && (5 * sc - r) * sc >= 0)
                by (nonlinear_arith)
                requires
                    0 < r < 5 * sc,
                    sc > 0,
            ;
        }
    }
    // the record at the accepted root
    let root = 5 * sc - r;
    let point = ray_at(ray, root);
    assert(fmul(-sc, root) == -root) by {
        assert(-sc * root == -(sc * root) && sc * root >= 0) by (nonlinear_arith)
            requires
                0 < root,
                sc > 0,
        ;
        vstd::arithmetic::div_mod::lemma_div_multiples_vanish(root, sc);
        crate::fx::lemma_tdiv_neg(sc * root, sc);
        assert(tdiv(sc * root, sc) == root);
    }
    assert(fmul(0, root) == 0);
    assert(point == (V3 { x: 0, y: 0, z: r }));
    let p = vsub(point, s.center@);
    assert(p == (V3 { x: 0, y: 0, z: r }));
    vstd::arithmetic::div_mod::lemma_div_of0(r);
    vstd::arithmetic::div_mod::lemma_div_multiples_vanish(sc, r);
    assert(fdiv(r, r) == sc) by {
        assert(tdiv(r * sc, r) == sc) by {
            assert(r * sc >= 0) by (nonlinear_arith)
                requires
                    r > 0,
                    sc > 0,
            ;
        }
    }
    let outward = vdiv(p, r);
    assert(outward == (V3 { x: 0, y: 0, z: sc }));
    assert(vdot(ray.direction, outward) == -sc);
}

/// A ray whose quadratic discriminant is negative — its closest approach
/// to the center stays outside the sphere — never hits, whatever the
/// interval.
pub proof fn lemma_miss(s: Sphere, ray: RayV, lo: int, hi: int)
    requires
        sphere_disc(s, ray) < 0,
    ensures
        sphere_hit_spec(s, ray, lo, hi) is None,
{
}

/// An accepted hit's parameter lies within the queried interval.
pub proof fn lemma_sphere_hit_t_range(s: Sphere, ray: RayV, lo: int, hi: int)
    ensures
        sphere_hit_spec(s, ray, lo, hi) matches Some(h) ==> lo <= h.t <= hi,
{
}

/// Tightening the upper bound of the interval keeps exactly the hits that
/// were at least as close, and drops the others: the tightened search of
/// the aggregate list cannot change which record is nearest.
pub proof fn lemma_sphere_hit_monotone(s: Sphere, ray: RayV, lo: int, hi1: int, hi2: int)
    requires
        hi2 <= hi1,
    ensures
        sphere_hit_spec(s, ray, lo, hi2) == (match sphere_hit_spec(s, ray, lo, hi1) {
            Some(h) => if h.t <= hi2 {
                Some(h)
            } else {
                None::<HitV>
            },
            None => None::<HitV>,
        }),
{
    let oc = vsub(ray.origin, s.center@);
    let a = vdot(ray.direction, ray.direction);
    let half_b = vdot(oc, ray.direction);
    let disc = sphere_disc(s, ray);
    if s.radius@ > 0 && a > 0 && disc >= 0 {
        let sq = fsqrt(disc);
        let n1 = fsub(fneg(half_b), sq);
        let n2 = fadd(fneg(half_b), sq);
        crate::fx::lemma_sat_props(fneg(half_b) - sq, fneg(half_b) + sq);
        crate::fx::lemma_tdiv_ordered(n1 * (crate::fx::SCALE as int), n2 * (
        crate::fx::SCALE as int), a);
        crate::fx::lemma_sat_props(
            tdiv(n1 * (crate::fx::SCALE as int), a),
            tdiv(n2 * (crate::fx::SCALE as int), a),
        );
        let r1 = fdiv(n1, a);
        let r2 = fdiv(n2, a);
        assert(r1 <= r2);
    }
}

/// The aggregate fold returns a member's hit over the full interval, and
/// one whose parameter is minimal among all members' hits; when it returns
/// nothing, no member hits at all.
#[verifier::rlimit(100)]
#[verifier::spinoff_prover]
proof fn lemma_list_from_nearest(
    objs: Seq<Sphere>,
    ray: RayV,
    lo: int,
    hi: int,
    closest: int,
    acc: Option<HitV>,
    i: int,
)
    requires
        0 <= i <= objs.len(),
        closest <= hi,
        (match acc {
            Some(h) => h.t == closest && (exists|j: int|
                0 <= j < i && sphere_hit_spec(objs[j], ray, lo, hi) == Some(h)) && (forall|j: int|
                0 <= j < i ==> (#[trigger] sphere_hit_spec(objs[j], ray, lo, hi) matches Some(g)
                    ==> closest <= g.t)),
            None => closest == hi && forall|j: int|
                0 <= j < i ==> #[trigger] sphere_hit_spec(objs[j], ray, lo, hi) is None,
        }),
    ensures
        (match list_hit_from(objs, ray, lo, closest, acc, i) {
            Some(h) => (exists|j: int|
                0 <= j < objs.len() && sphere_hit_spec(objs[j], ray, lo, hi) == Some(h)) && (
            forall|j: int|
                0 <= j < objs.len() ==> (#[trigger] sphere_hit_spec(objs[j], ray, lo, hi)
                    matches Some(g) ==> h.t <= g.t)),
            None => forall|j: int|
                0 <= j < objs.len() ==> #[trigger] sphere_hit_spec(objs[j], ray, lo, hi) is None,
        }),
    decreases objs.len() - i,
{
    if i < objs.len() {
        lemma_sphere_hit_monotone(objs[i], ray, lo, hi, closest);
        lemma_sphere_hit_t_range(objs[i], ray, lo, hi);
        match sphere_hit_spec(objs[i], ray, lo, closest) {
            Some(g) => {
                assert(sphere_hit_spec(objs[i], ray, lo, hi) == Some(g));
                lemma_list_from_nearest(objs, ray, lo, hi, g.t, Some(g), i + 1);
            },
            None => {
                lemma_list_from_nearest(objs, ray, lo, hi, closest, acc, i + 1);
            },
        }
    }
}

/// Nearest-hit law of the aggregate list: the result is some member's hit
/// over the full interval, with the smallest parameter any member reports;
/// with no member hit, the list reports none.
pub proof fn lemma_list_hit_nearest(objs: Seq<Sphere>, ray: RayV, lo: int, hi: int)
    ensures
        (match list_hit_spec(objs, ray, lo, hi) {
            Some(h) => (exists|j: int|
                0 <= j < objs.len() && sphere_hit_spec(objs[j], ray, lo, hi) == Some(h)) && (
            forall|j: int|
                0 <= j < objs.len() ==> (#[trigger] sphere_hit_spec(objs[j], ray, lo, hi)
                    matches Some(g) ==> h.t <= g.t)),
            None => forall|j: int|
                0 <= j < objs.len() ==> #[trigger] sphere_hit_spec(objs[j], ray, lo, hi) is None,
        }),
{
    lemma_list_from_nearest(objs, ray, lo, hi, hi, None, 0);
}

/// Order independence for two overlapping spheres: whichever order the two
/// stand in the list, the hit with the strictly smaller parameter wins.
pub proof fn lemma_two_spheres_nearest(s1: Sphere, s2: Sphere, ray: RayV, lo: int, hi: int)
    requires
        sphere_hit_spec(s1, ray, lo, hi) is Some,
        sphere_hit_spec(s2, ray, lo, hi) is Some,
        sphere_hit_spec(s1, ray, lo, hi).unwrap().t < sphere_hit_spec(s2, ray, lo, hi).unwrap().t,
    ensures
        list_hit_spec(seq![s1, s2], ray, lo, hi) == sphere_hit_spec(s1, ray, lo, hi),
        list_hit_spec(seq![s2, s1], ray, lo, hi) == sphere_hit_spec(s1, ray, lo, hi),
{
    let h1 = sphere_hit_spec(s1, ray, lo, hi).unwrap();
    let h2 = sphere_hit_spec(s2, ray, lo, hi).unwrap();
    lemma_sphere_hit_t_range(s1, ray, lo, hi);
    lemma_sphere_hit_t_range(s2, ray, lo, hi);
    let a = seq![s1, s2];
    assert(a[0] == s1 && a[1] == s2 && a.len() == 2);
    lemma_sphere_hit_monotone(s1, ray, lo, hi, hi);
    lemma_sphere_hit_monotone(s2, ray, lo, hi, h1.t);
    assert(list_hit_from(a, ray, lo, hi, None, 0) == list_hit_from(a, ray, lo, h1.t, Some(h1), 1));
    assert(list_hit_from(a, ray, lo, h1.t, Some(h1), 1) == list_hit_from(
        a,
        ray,
        lo,
        h1.t,
        Some(h1),
        2,
    ));
    let b = seq![s2, s1];
    assert(b[0] == s2 && b[1] == s1 && b.len() == 2);
    lemma_sphere_hit_monotone(s1, ray, lo, hi, h2.t);
    assert(list_hit_from(b, ray, lo, hi, None, 0) == list_hit_from(b, ray, lo, h2.t, Some(h2), 1));
    assert(sphere_hit_spec(s1, ray, lo, h2.t) == Some(h1));
    assert(list_hit_from(b, ray, lo, h2.t, Some(h2), 1) == list_hit_from(
        b,
        ray,
        lo,
        h1.t,
        Some(h1),
        2,
    ));
}

/// The scene: an ordered list of spheres and the arena of materials their
/// handles index.
pub struct HittableList {
    pub objects: Vec<Sphere>,
    pub materials: Vec<Material>,
}

impl HittableList {
    /// Every sphere is well formed and points at a material of the arena,
    /// and every material is well formed.
    pub open spec fn wf(self) -> bool {
        &&& forall|i: int|
            0 <= i < self.objects@.len() ==> (#[trigger] self.objects@[i]).wf()
                && self.objects@[i].material < self.materials@.len()
        &&& forall|j: int| 0 <= j < self.materials@.len() ==> (#[trigger] self.materials@[j]).wf()
    }

    /// An empty scene.
    pub fn new() -> (s: HittableList)
        ensures
            s.objects@.len() == 0,
            s.materials@.len() == 0,
            s.wf(),
    {
        HittableList { objects: Vec::new(), materials: Vec::new() }
    }

    /// Add a material to the arena, returning its handle.
    pub fn add_material(&mut self, m: Material) -> (h: usize)
        requires
            old(self).wf(),
            m.wf(),
        ensures
            final(self).wf(),
            final(self).materials@ == old(self).materials@.push(m),
            final(self).objects@ == old(self).objects@,
            h == old(self).materials@.len(),
    {
        let h = self.materials.len();
        self.materials.push(m);
        h
    }

    /// Add a sphere whose material handle points into the arena.
    pub fn add(&mut self, obj: Sphere)
        requires
            old(self).wf(),
            obj.wf(),
            obj.material < old(self).materials@.len(),
        ensures
            final(self).wf(),
            final(self).objects@ == old(self).objects@.push(obj),
            final(self).materials@ == old(self).materials@,
    {
        self.objects.push(obj);
    }

    /// Nearest intersection over all members: each member is tested against
    /// a shrinking interval, so a later member only replaces the record with
    /// one at least as close.
    pub fn hit(&self, ray: &Ray, t_min: Fx, t_max: Fx) -> (r: Option<HitRecord>)
        requires
            self.wf(),
            ray.wf(),
            t_min.wf(),
            t_max.wf(),
        ensures
            hit_opt_view(r) == list_hit_spec(self.objects@, ray@, t_min@, t_max@),
            (match r {
                Some(h) => h.wf() && h.material < self.materials@.len() && t_min@ <= h.t@
                    <= t_max@ && vdot(ray@.direction, h.normal@) <= 0,
                None => true,
            }),
    {
        let mut closest: Fx = t_max;
        let mut acc: Option<HitRecord> = None;
        let mut i: usize = 0;
        while i < self.objects.len()
            invariant
                0 <= i <= self.objects.len(),
                self.wf(),
                ray.wf(),
                t_min.wf(),
                t_max.wf(),
                closest.wf(),
                closest@ <= t_max@,
                list_hit_spec(self.objects@, ray@, t_min@, t_max@) == list_hit_from(
                    self.objects@,
                    ray@,
                    t_min@,
                    closest@,
                    hit_opt_view(acc),
                    i as int,
                ),
                (match acc {
                    Some(h) => h.wf() && h.material < self.materials@.len() && t_min@ <= h.t@
                        <= t_max@ && vdot(ray@.direction, h.normal@) <= 0 && h.t@ == closest@,
                    None => closest@ == t_max@,
                }),
            decreases self.objects.len() - i,
        {
            let s = self.objects[i];
            match s.hit(ray, t_min, closest) {
                Some(h) => {
                    closest = h.t;
                    acc = Some(h);
                },
                None => {},
            }
            i = i + 1;
        }
        acc
    }
}

} // verus!
