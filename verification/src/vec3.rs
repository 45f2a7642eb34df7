//! Three-component fixed-point vectors, used both for geometry and for
//! colors, with their exact integer-level model.

use crate::fx::{
    fadd, fdiv, fmul, fneg, fsqrt, fsub, fx_wf, lemma_fmul_attenuates, lemma_sat_props,
    lemma_tdiv_neg, sat, tdiv, Fx, FX_MAX, SCALE,
};
use vstd::prelude::*;

verus! {

/// Model of a vector: the three raw scalar values.
pub struct V3 {
    pub x: int,
    pub y: int,
    pub z: int,
}

/// All three components within the representable band.
pub open spec fn v3_wf(v: V3) -> bool {
    fx_wf(v.x) && fx_wf(v.y) && fx_wf(v.z)
}

/// All three components within `[0, SCALE]`: a color with channels in `[0, 1]`.
pub open spec fn v3_unit_box(v: V3) -> bool {
    0 <= v.x <= SCALE as int && 0 <= v.y <= SCALE as int && 0 <= v.z <= SCALE as int
}

/// Componentwise sum.
pub open spec fn vadd(a: V3, b: V3) -> V3 {
    V3 { x: fadd(a.x, b.x), y: fadd(a.y, b.y), z: fadd(a.z, b.z) }
}

/// Componentwise difference.
pub open spec fn vsub(a: V3, b: V3) -> V3 {
    V3 { x: fsub(a.x, b.x), y: fsub(a.y, b.y), z: fsub(a.z, b.z) }
}

/// Componentwise negation.
pub open spec fn vneg(a: V3) -> V3 {
    V3 { x: fneg(a.x), y: fneg(a.y), z: fneg(a.z) }
}

/// Scaling by a scalar.
pub open spec fn vscale(a: V3, t: int) -> V3 {
    V3 { x: fmul(a.x, t), y: fmul(a.y, t), z: fmul(a.z, t) }
}

/// Componentwise product (color attenuation).
pub open spec fn vmul(a: V3, b: V3) -> V3 {
    V3 { x: fmul(a.x, b.x), y: fmul(a.y, b.y), z: fmul(a.z, b.z) }
}

/// Division by a positive scalar.
pub open spec fn vdiv(a: V3, d: int) -> V3 {
    V3 { x: fdiv(a.x, d), y: fdiv(a.y, d), z: fdiv(a.z, d) }
}

/// Dot product.
pub open spec fn vdot(a: V3, b: V3) -> int {
    fadd(fadd(fmul(a.x, b.x), fmul(a.y, b.y)), fmul(a.z, b.z))
}

/// Linear interpolation `a * (1 - t) + b * t`.
pub open spec fn vlerp(a: V3, b: V3, t: int) -> V3 {
    vadd(vscale(a, fsub(SCALE as int, t)), vscale(b, t))
}

/// Unit vector: divide by the scaled length, or keep a vector whose
/// length rounds to zero.
pub open spec fn vnorm(v: V3) -> V3 {
    let m = fsqrt(vdot(v, v));
    if m <= 0 {
        v
    } else {
        vdiv(v, m)
    }
}

/// Products flip sign with one factor.
pub proof fn lemma_fmul_neg(a: int, b: int)
    requires
        fx_wf(a),
        fx_wf(b),
    ensures
        fmul(a, fneg(b)) == -fmul(a, b),
{
    assert(a * (-b) == -(a * b)) by (nonlinear_arith);
    lemma_tdiv_neg(a * b, SCALE as int);
    lemma_sat_props(tdiv(a * b, SCALE as int), 0);
    lemma_sat_props(-b, 0);
}

/// The dot product flips sign with one argument.
pub proof fn lemma_vdot_neg(a: V3, b: V3)
    requires
        v3_wf(a),
        v3_wf(b),
    ensures
        vdot(a, vneg(b)) == -vdot(a, b),
{
    lemma_fmul_neg(a.x, b.x);
    lemma_fmul_neg(a.y, b.y);
    lemma_fmul_neg(a.z, b.z);
    let px = fmul(a.x, b.x);
    let py = fmul(a.y, b.y);
    let pz = fmul(a.z, b.z);
    lemma_sat_props(px + py, 0);
    lemma_sat_props(-px + -py, 0);
    lemma_sat_props(fadd(px, py) + pz, 0);
    lemma_sat_props(-fadd(px, py) + -pz, 0);
}

/// No component of `vdiv(a, d)` was clamped into the band.
pub open spec fn vdiv_unclamped(a: V3, d: int) -> bool {
    fx_wf(tdiv(a.x * SCALE, d)) && fx_wf(tdiv(a.y * SCALE, d)) && fx_wf(tdiv(a.z * SCALE, d))
}

/// Energy non-amplification: attenuating a color with channels in `[0, 1]`
/// by an attenuation with channels in `[0, 1]` never raises any channel
/// past either factor.
pub proof fn lemma_vmul_attenuates(a: V3, b: V3)
    requires
        v3_unit_box(a),
        v3_unit_box(b),
    ensures
        v3_unit_box(vmul(a, b)),
        vmul(a, b).x <= a.x && vmul(a, b).x <= b.x,
        vmul(a, b).y <= a.y && vmul(a, b).y <= b.y,
        vmul(a, b).z <= a.z && vmul(a, b).z <= b.z,
{
    lemma_fmul_attenuates(a.x, b.x);
    lemma_fmul_attenuates(a.y, b.y);
    lemma_fmul_attenuates(a.z, b.z);
}

/// A fixed-point vector.
#[derive(Clone, Copy, PartialEq, Eq, Structural, Debug)]
pub struct Vec3 {
    pub x: Fx,
    pub y: Fx,
    pub z: Fx,
}

impl View for Vec3 {
    type V = V3;

    open spec fn view(&self) -> V3 {
        V3 { x: self.x@, y: self.y@, z: self.z@ }
    }
}

impl Vec3 {
    /// All components within the representable band.
    pub open spec fn wf(self) -> bool {
        v3_wf(self@)
    }

    /// Build a vector from three scalars.
    pub fn new(x: Fx, y: Fx, z: Fx) -> (r: Vec3)
        ensures
            r@ == (V3 { x: x@, y: y@, z: z@ }),
    {
        Vec3 { x, y, z }
    }

    /// Build a vector from three raw (scaled) values, clamping each.
    pub fn from_raw(x: i128, y: i128, z: i128) -> (r: Vec3)
        ensures
            r@ == (V3 { x: sat(x as int), y: sat(y as int), z: sat(z as int) }),
            r.wf(),
    {
        Vec3 { x: Fx::new(x), y: Fx::new(y), z: Fx::new(z) }
    }

    /// The zero vector.
    pub fn zero() -> (r: Vec3)
        ensures
            r@ == (V3 { x: 0, y: 0, z: 0 }),
            r.wf(),
    {
        Vec3 { x: Fx::zero(), y: Fx::zero(), z: Fx::zero() }
    }

    /// Componentwise sum.
    pub fn add(self, o: Vec3) -> (r: Vec3)
        requires
            self.wf(),
            o.wf(),
        ensures
            r@ == vadd(self@, o@),
            r.wf(),
    {
        Vec3 { x: self.x.add(o.x), y: self.y.add(o.y), z: self.z.add(o.z) }
    }

    /// Componentwise difference.
    pub fn sub(self, o: Vec3) -> (r: Vec3)
        requires
            self.wf(),
            o.wf(),
        ensures
            r@ == vsub(self@, o@),
            r.wf(),
    {
        Vec3 { x: self.x.sub(o.x), y: self.y.sub(o.y), z: self.z.sub(o.z) }
    }

    /// Componentwise negation.
    pub fn neg(self) -> (r: Vec3)
        requires
            self.wf(),
        ensures
            r@ == vneg(self@),
            r.wf(),
    {
        Vec3 { x: self.x.neg(), y: self.y.neg(), z: self.z.neg() }
    }

    /// Scale by a scalar.
    pub fn scale(self, t: Fx) -> (r: Vec3)
        requires
            self.wf(),
            t.wf(),
        ensures
            r@ == vscale(self@, t@),
            r.wf(),
    {
        Vec3 { x: self.x.mul(t), y: self.y.mul(t), z: self.z.mul(t) }
    }

    /// Divide by a positive scalar.
    pub fn div_scalar(self, d: Fx) -> (r: Vec3)
        requires
            self.wf(),
            d.wf(),
            d@ > 0,
        ensures
            r@ == vdiv(self@, d@),
            r.wf(),
    {
        Vec3 { x: self.x.div(d), y: self.y.div(d), z: self.z.div(d) }
    }

    /// Dot product.
    pub fn dot(self, o: Vec3) -> (r: Fx)
        requires
            self.wf(),
            o.wf(),
        ensures
            r@ == vdot(self@, o@),
            r.wf(),
    {
        self.x.mul(o.x).add(self.y.mul(o.y)).add(self.z.mul(o.z))
    }

    /// Squared length.
    pub fn magnitude2(self) -> (r: Fx)
        requires
            self.wf(),
        ensures
            r@ == vdot(self@, self@),
            r.wf(),
    {
        self.dot(self)
    }

    /// Unit vector (vectors whose length rounds to zero are kept).
    pub fn normalize(self) -> (r: Vec3)
        requires
            self.wf(),
        ensures
            r@ == vnorm(self@),
            r.wf(),
    {
        let m: Fx = self.magnitude2().sqrt();
        if m.raw <= 0 {
            self
        } else {
            self.div_scalar(m)
        }
    }
}

/// Componentwise product of two colors.
pub fn mult_components(a: Vec3, b: Vec3) -> (r: Vec3)
    requires
        a.wf(),
        b.wf(),
    ensures
        r@ == vmul(a@, b@),
        r.wf(),
{
    Vec3 { x: a.x.mul(b.x), y: a.y.mul(b.y), z: a.z.mul(b.z) }
}

/// Interpolate between `a` (at `v == 0`) and `b` (at `v == SCALE`).
pub fn lerp(a: Vec3, b: Vec3, v: Fx) -> (r: Vec3)
    requires
        a.wf(),
        b.wf(),
        v.wf(),
    ensures
        r@ == vlerp(a@, b@, v@),
        r.wf(),
{
    let one: Fx = Fx::one();
    a.scale(one.sub(v)).add(b.scale(v))
}

} // verus!
