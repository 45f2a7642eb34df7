//! The path integrator and the per-pixel sampling driver.

use crate::fx::{
    fadd, fdiv, fmul, fneg, fsub, fsqrt, lemma_fmul_attenuates, tdiv, Fx, SCALE,
};
use crate::hittable::{list_hit_spec, HittableList};
use crate::material::{mat_albedo, metalic_scatter_spec, vreflect, Material};
use crate::ray::{Ray, RayV};
use crate::vec3::{
    lemma_vmul_attenuates, lerp, mult_components, v3_unit_box, vadd, vdot, vlerp, vmul, vnorm,
    Vec3, V3,
};
use vstd::prelude::*;

verus! {

/// Lower bound of the intersection search, suppressing self-intersection
/// of a ray with the surface it just left (0.001 in real units).
pub const T_MIN_RAW: i128 = 1_000;

/// Upper bound of the intersection search (100000 in real units).
pub const T_MAX_RAW: i128 = 100_000_000_000;

/// Bounce budget of the integrator.
pub const MAX_BOUNCES: usize = 50;

/// Interpolation parameter of the background gradient: the direction's
/// vertical component mapped from `[-1, 1]` to `[0, 1]` and clamped.
pub open spec fn bg_t(y: int) -> int {
    let m = tdiv(fadd(y, SCALE as int), 2);
    if m < 0 {
        0
    } else if m > SCALE as int {
        SCALE as int
    } else {
        m
    }
}

/// The background: white straight up, fading toward sky blue below,
/// interpolated on the mapped vertical component.
pub open spec fn background_spec(ray: RayV) -> V3 {
    vlerp(V3 { x: SCALE as int / 2, y: 7 * SCALE as int / 10, z: SCALE as int }, V3 {
        x: SCALE as int,
        y: SCALE as int,
        z: SCALE as int,
    }, bg_t(ray.direction.y))
}

/// Interpolating between colors with channels in `[0, 1]` stays in `[0, 1]`.
pub proof fn lemma_vlerp_unit_box(a: V3, b: V3, t: int)
    requires
        v3_unit_box(a),
        v3_unit_box(b),
        0 <= t <= SCALE as int,
    ensures
        v3_unit_box(vlerp(a, b, t)),
{
    lemma_fmul_attenuates(a.x, fsub(SCALE as int, t));
    lemma_fmul_attenuates(a.y, fsub(SCALE as int, t));
    lemma_fmul_attenuates(a.z, fsub(SCALE as int, t));
    lemma_fmul_attenuates(b.x, t);
    lemma_fmul_attenuates(b.y, t);
    lemma_fmul_attenuates(b.z, t);
}

/// The sky gradient behind a ray that hits nothing.
pub fn background(ray: &Ray) -> (r: Vec3)
    requires
        ray.wf(),
    ensures
        r@ == background_spec(ray@),
        v3_unit_box(r@),
        r.wf(),
{
    let one = Fx::one();
    let m = Fx::new(ray.direction.y.add(one).raw / 2);
    let t = if m.raw < 0 {
        Fx::zero()
    } else if m.raw > SCALE {
        Fx::one()
    } else {
        m
    };
    let sky = Vec3::from_raw(SCALE / 2, 7 * SCALE / 10, SCALE);
    let white = Vec3::from_raw(SCALE, SCALE, SCALE);
    proof {
        lemma_vlerp_unit_box(sky@, white@, t@);
    }
    lerp(sky, white, t)
}

/// Radiance carried back along `ray` with `depth` bounces left.
///
/// The recursion is bounded by `depth` alone: at zero the result is exactly
/// black whatever the scene holds.  Every channel of the result lies in
/// `[0, 1]`; after a hit it is further bounded by the surface albedo, so a
/// bounce never amplifies energy.  A miss returns exactly the background
/// gradient, and a metallic hit whose reflection points into the surface
/// returns exactly black.
pub fn ray_color(ray: &Ray, list: &HittableList, depth: usize) -> (r: Vec3)
    requires
        ray.wf(),
        list.wf(),
    ensures
        r.wf(),
        v3_unit_box(r@),
        depth == 0 ==> r@ == (V3 { x: 0, y: 0, z: 0 }),
        depth > 0 && list_hit_spec(list.objects@, ray@, T_MIN_RAW as int, T_MAX_RAW as int)
            is None ==> r@ == background_spec(ray@),
        depth > 0 ==> (match list_hit_spec(
            list.objects@,
            ray@,
            T_MIN_RAW as int,
            T_MAX_RAW as int,
        ) {
            Some(h) => {
                &&& 0 <= h.material < list.materials@.len() ==> {
                    let alb = mat_albedo(list.materials@[h.material]);
                    &&& r@.x <= alb.x
                    &&& r@.y <= alb.y
                    &&& r@.z <= alb.z
                    &&& exists|rc: V3| v3_unit_box(rc) && r@ == #[trigger] vmul(rc, alb)
                    &&& (list.materials@[h.material] matches Material::Metalic(m) && vdot(
                        vreflect(ray@.direction, h.normal),
                        h.normal,
                    ) <= 0 ==> r@ == (V3 { x: 0, y: 0, z: 0 }))
                }
            },
            None => true,
        }),
    decreases depth,
{
    if depth == 0 {
        return Vec3::zero();
    }
    let t_min = Fx::new(T_MIN_RAW);
    let t_max = Fx::new(T_MAX_RAW);
    match list.hit(ray, t_min, t_max) {
        Some(hit) => {
            let mat = list.materials[hit.material];
            match mat.scatter(ray, &hit) {
                Some((sray, attn)) => {
                    let rec = ray_color(&sray, list, depth - 1);
                    proof {
                        lemma_vmul_attenuates(rec@, attn@);
                    }
                    let res = mult_components(rec, attn);
                    proof {
                        assert(v3_unit_box(rec@) && res@ == vmul(rec@, attn@));
                    }
                    res
                },
                None => {
                    let z = Vec3::zero();
                    proof {
                        lemma_vmul_attenuates(z@, mat_albedo(list.materials@[hit.material as int]));
                        assert(z@ == vmul(z@, mat_albedo(list.materials@[hit.material as int])));
                    }
                    z
                },
            }
        },
        None => background(ray),
    }
}

/// The camera ray of a sample: from the origin through `(u, v, -1)`,
/// normalized.
pub open spec fn camera_ray_spec(u: int, v: int) -> RayV {
    RayV { origin: V3 { x: 0, y: 0, z: 0 }, direction: vnorm(V3 { x: u, y: v, z: -SCALE as int }) }
}

/// One camera sample: the camera ray of `(u, v)` traced with the full
/// bounce budget.
pub fn pixel_color(u: Fx, v: Fx, list: &HittableList) -> (r: Vec3)
    requires
        u.wf(),
        v.wf(),
        list.wf(),
    ensures
        r.wf(),
        v3_unit_box(r@),
        list_hit_spec(
            list.objects@,
            camera_ray_spec(u@, v@),
            T_MIN_RAW as int,
            T_MAX_RAW as int,
        ) is None ==> r@ == background_spec(camera_ray_spec(u@, v@)),
{
    let dir = Vec3::new(u, v, Fx::new(-SCALE)).normalize();
    let ray = Ray { origin: Vec3::zero(), direction: dir };
    proof {
        assert(ray@ == camera_ray_spec(u@, v@));
    }
    ray_color(&ray, list, MAX_BOUNCES)
}

/// The horizontal camera coordinate of a jittered pixel: normalized to
/// `[0, 1]`, rescaled to `[-1, 1]`, then stretched by the aspect ratio.
pub open spec fn cam_u(x: int, jx: int, width: int, height: int) -> int {
    let u0 = fdiv(fadd(x * SCALE, jx), width * SCALE);
    let u1 = fsub(fmul(u0, 2 * SCALE), SCALE as int);
    fmul(u1, fdiv(width * SCALE, height * SCALE))
}

/// The vertical camera coordinate of a jittered pixel: normalized,
/// rescaled, then flipped (image rows grow downward).
pub open spec fn cam_v(y: int, jy: int, height: int) -> int {
    let v0 = fdiv(fadd(y * SCALE, jy), height * SCALE);
    fneg(fsub(fmul(v0, 2 * SCALE), SCALE as int))
}

/// Map a jittered pixel coordinate to the camera plane.
pub fn camera_uv(x: usize, y: usize, jx: Fx, jy: Fx, width: usize, height: usize) -> (uv: (
    Fx,
    Fx,
))
    requires
        1 <= width <= 100_000,
        1 <= height <= 100_000,
        x < width,
        y < height,
        jx.wf(),
        jy.wf(),
    ensures
        uv.0@ == cam_u(x as int, jx@, width as int, height as int),
        uv.1@ == cam_v(y as int, jy@, height as int),
        uv.0.wf(),
        uv.1.wf(),
{
    let w = Fx::new((width as i128) * SCALE);
    let h = Fx::new((height as i128) * SCALE);
    let two = Fx::new(2 * SCALE);
    let one = Fx::one();
    let aspect = w.div(h);
    let u0 = Fx::new((x as i128) * SCALE).add(jx).div(w);
    let u1 = u0.mul(two).sub(one);
    let u = u1.mul(aspect);
    let v0 = Fx::new((y as i128) * SCALE).add(jy).div(h);
    let v = v0.mul(two).sub(one).neg();
    (u, v)
}

/// Gamma-corrected 8-bit quantization of one averaged channel:
/// `clamp(sqrt(c / spp) * 255, 0, 255)`.
pub open spec fn quantize(c: int, spp: int) -> int {
    let avg = fdiv(c, spp * SCALE);
    let root = fsqrt(avg);
    let scaled = fmul(root, 255 * SCALE as int);
    let q = tdiv(scaled, SCALE as int);
    if q < 0 {
        0
    } else if q > 255 {
        255
    } else {
        q
    }
}

/// Average an accumulated color over `spp` samples, gamma-correct with a
/// square root and quantize each channel to 8 bits.
pub fn to_color(color: Vec3, spp: usize) -> (rgb: (u8, u8, u8))
    requires
        color.wf(),
        1 <= spp <= 1_000_000,
    ensures
        rgb.0 as int == quantize(color@.x, spp as int),
        rgb.1 as int == quantize(color@.y, spp as int),
        rgb.2 as int == quantize(color@.z, spp as int),
{
    let spp_fx = Fx::new((spp as i128) * SCALE);
    let f255 = Fx::new(255 * SCALE);
    let qx = channel_byte(color.x, spp_fx, f255);
    let qy = channel_byte(color.y, spp_fx, f255);
    let qz = channel_byte(color.z, spp_fx, f255);
    (qx, qy, qz)
}

/// Quantize one channel.
fn channel_byte(c: Fx, spp_fx: Fx, f255: Fx) -> (q: u8)
    requires
        c.wf(),
        spp_fx.wf(),
        spp_fx@ > 0,
        f255@ == 255 * SCALE as int,
    ensures
        q as int == {
            let root = fsqrt(fdiv(c@, spp_fx@));
            let scaled = fmul(root, 255 * SCALE as int);
            let t = tdiv(scaled, SCALE as int);
            if t < 0 {
                0
            } else if t > 255 {
                255
            } else {
                t
            }
        },
{
    let scaled = c.div(spp_fx).sqrt().mul(f255);
    let t: i128 = scaled.trunc_units();
    if t < 0 {
        0
    } else if t > 255 {
        255
    } else {
        t as u8
    }
}

/// One sample's contribution is admissible for pixel `(x, y)`: for some
/// jitters in `[0, 1)`, the sample is a unit-box color, and whenever its
/// jittered camera ray misses the scene it is exactly that ray's
/// background.
pub open spec fn sample_color_ok(
    s: V3,
    x: int,
    y: int,
    width: int,
    height: int,
    list: HittableList,
) -> bool {
    exists|jx: int, jy: int|
        0 <= jx < SCALE as int && 0 <= jy < SCALE as int && v3_unit_box(s) && (list_hit_spec(
            list.objects@,
            camera_ray_spec(#[trigger] cam_u(x, jx, width, height), #[trigger] cam_v(y, jy, height)),
            T_MIN_RAW as int,
            T_MAX_RAW as int,
        ) is None ==> s == background_spec(
            camera_ray_spec(cam_u(x, jx, width, height), cam_v(y, jy, height)),
        ))
}

/// Componentwise (saturating) running sum of a sequence of colors, as the
/// sampling loop accumulates it.
pub open spec fn color_sum(cs: Seq<V3>) -> V3
    decreases cs.len(),
{
    if cs.len() == 0 {
        V3 { x: 0, y: 0, z: 0 }
    } else {
        vadd(color_sum(cs.drop_last()), cs.last())
    }
}

/// Render one pixel: average `spp` jittered samples through the integrator,
/// then gamma-correct and quantize.  The result is the quantization of the
/// sum of `spp` per-sample radiances, each admissible for this pixel: a
/// unit-box color that equals the background of its jittered camera ray
/// whenever that ray misses the scene.
pub fn render_pixel(
    x: usize,
    y: usize,
    width: usize,
    height: usize,
    spp: usize,
    list: &HittableList,
) -> (rgb: (u8, u8, u8))
    requires
        1 <= width <= 100_000,
        1 <= height <= 100_000,
        x < width,
        y < height,
        1 <= spp <= 1_000,
        list.wf(),
    ensures
        exists|cs: Seq<V3>|
            {
                let c = #[trigger] color_sum(cs);
                &&& cs.len() == spp
                &&& (forall|i: int|
                    0 <= i < cs.len() ==> sample_color_ok(
                        #[trigger] cs[i],
                        x as int,
                        y as int,
                        width as int,
                        height as int,
                        *list,
                    ))
                &&& rgb.0 as int == quantize(c.x, spp as int)
                &&& rgb.1 as int == quantize(c.y, spp as int)
                &&& rgb.2 as int == quantize(c.z, spp as int)
            },
{
    let mut color = Vec3::zero();
    let mut s: usize = 0;
    let ghost mut samples: Seq<V3> = Seq::empty();
    while s < spp
        invariant
            s <= spp,
            spp <= 1_000,
            1 <= width <= 100_000,
            1 <= height <= 100_000,
            x < width,
            y < height,
            list.wf(),
            color.wf(),
            0 <= color@.x <= s * SCALE,
            0 <= color@.y <= s * SCALE,
            0 <= color@.z <= s * SCALE,
            samples.len() == s,
            color@ == color_sum(samples),
            forall|i: int|
                0 <= i < samples.len() ==> sample_color_ok(
                    #[trigger] samples[i],
                    x as int,
                    y as int,
                    width as int,
                    height as int,
                    *list,
                ),
        decreases spp - s,
    {
        let jx = sample_jitter();
        let jy = sample_jitter();
        let (u, v) = camera_uv(x, y, jx, jy, width, height);
        let res = pixel_color(u, v, list);
        proof {
            assert(sample_color_ok(res@, x as int, y as int, width as int, height as int, *list))
                by {
                assert(0 <= jx@ < SCALE as int && 0 <= jy@ < SCALE as int && v3_unit_box(res@) && (
                list_hit_spec(
                    list.objects@,
                    camera_ray_spec(
                        cam_u(x as int, jx@, width as int, height as int),
                        cam_v(y as int, jy@, height as int),
                    ),
                    T_MIN_RAW as int,
                    T_MAX_RAW as int,
                ) is None ==> res@ == background_spec(
                    camera_ray_spec(
                        cam_u(x as int, jx@, width as int, height as int),
                        cam_v(y as int, jy@, height as int),
                    ),
                )));
            }
        }
        color = color.add(res);
        proof {
            assert(samples.push(res@).drop_last() =~= samples);
            samples = samples.push(res@);
        }
        s = s + 1;
    }
    let rgb = to_color(color, spp);
    proof {
        assert(samples.len() == spp && color_sum(samples) == color@);
    }
    rgb
}

/// A uniform jitter in `[0, 1)` of a pixel coordinate, one grid step short
/// of the next pixel.
fn sample_jitter() -> (j: Fx)
    ensures
        j.wf(),
        0 <= j@ < SCALE as int,
{
    let v = crate::material::random_vector(Fx::zero(), Fx::new(SCALE - 1));
    v.x
}

} // verus!
