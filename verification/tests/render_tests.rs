//! End-to-end checks of the fixed-point path tracer on concrete scenes.

use raytrace::fx::{Fx, FX_MAX, SCALE};
use raytrace::hittable::{HittableList, Sphere};
use raytrace::material::{
    is_near_zero, random_unit_sphere, random_vector, reflect, Lambertian, Material, Metalic,
};
use raytrace::ray::Ray;
use raytrace::render::{background, camera_uv, pixel_color, ray_color, to_color};
use raytrace::vec3::{lerp, mult_components, Vec3};

fn fxr(raw: i128) -> Fx {
    Fx::new(raw)
}

fn v(x: i128, y: i128, z: i128) -> Vec3 {
    Vec3::from_raw(x, y, z)
}

fn t_min() -> Fx {
    fxr(1_000)
}

fn t_max() -> Fx {
    fxr(100_000_000_000)
}

fn single_material_scene(m: Material) -> HittableList {
    let mut list = HittableList::new();
    let h = list.add_material(m);
    assert_eq!(h, 0);
    list
}

#[test]
fn fx_mul_exact_and_truncating() {
    // 1.5 * 1.5 == 2.25 exactly
    assert_eq!(fxr(1_500_000).mul(fxr(1_500_000)).raw, 2_250_000);
    // truncation is toward zero on both sides
    assert_eq!(fxr(-1_500_000).mul(fxr(1_500_000)).raw, -2_250_000);
    assert_eq!(fxr(1).mul(fxr(1)).raw, 0);
    assert_eq!(fxr(-1).mul(fxr(1)).raw, 0);
}

#[test]
fn fx_div_truncates() {
    // 1 / 3 == 0.333333 on the fixed grid
    assert_eq!(fxr(1_000_000).div(fxr(3_000_000)).raw, 333_333);
    assert_eq!(fxr(-1_000_000).div(fxr(3_000_000)).raw, -333_333);
}

#[test]
fn fx_sqrt_floor() {
    assert_eq!(fxr(1_000_000).sqrt().raw, 1_000_000);
    // sqrt(2) == 1.414213...
    assert_eq!(fxr(2_000_000).sqrt().raw, 1_414_213);
    assert_eq!(fxr(250_000).sqrt().raw, 500_000);
    assert_eq!(fxr(0).sqrt().raw, 0);
    assert_eq!(fxr(-5).sqrt().raw, 0);
}

#[test]
fn fx_saturates_at_band_edge() {
    assert_eq!(fxr(FX_MAX).add(fxr(FX_MAX)).raw, FX_MAX);
    assert_eq!(fxr(-FX_MAX).sub(fxr(FX_MAX)).raw, -FX_MAX);
}

#[test]
fn lerp_quarter_point() {
    let a = v(0, 0, 0);
    let b = v(SCALE, SCALE, SCALE);
    let r = lerp(a, b, fxr(250_000));
    assert_eq!(r.x.raw, 250_000);
    assert_eq!(r.y.raw, 250_000);
    assert_eq!(r.z.raw, 250_000);
}

#[test]
fn mult_components_attenuates() {
    let r = mult_components(v(500_000, 500_000, 500_000), v(500_000, SCALE, 0));
    assert_eq!(r.x.raw, 250_000);
    assert_eq!(r.y.raw, 500_000);
    assert_eq!(r.z.raw, 0);
}

#[test]
fn sphere_head_on_hit() {
    // Sphere at the origin, radius 0.5; ray from (0,0,5) toward (0,0,-1)
    // hits at t == 5 - 0.5 with normal (0,0,1), front face.
    let s = Sphere::new(v(0, 0, 0), fxr(500_000), 0);
    let ray = Ray { origin: v(0, 0, 5_000_000), direction: v(0, 0, -SCALE) };
    let hit = s.hit(&ray, t_min(), t_max()).expect("must hit");
    assert_eq!(hit.t.raw, 4_500_000);
    assert_eq!(hit.normal, v(0, 0, SCALE));
    assert!(hit.front_face);
    assert_eq!(hit.point, v(0, 0, 500_000));

    // another radius whose square is exact on the grid: r = 0.3, t = 4.7
    let s3 = Sphere::new(v(0, 0, 0), fxr(300_000), 0);
    let hit3 = s3.hit(&ray, t_min(), t_max()).expect("must hit");
    assert_eq!(hit3.t.raw, 4_700_000);
    assert_eq!(hit3.normal, v(0, 0, SCALE));
    assert!(hit3.front_face);
}

#[test]
fn sphere_miss_far_ray() {
    // Closest approach 3.0 against radius 0.5: no hit.
    let s = Sphere::new(v(3_000_000, 0, 0), fxr(500_000), 0);
    let ray = Ray { origin: v(0, 0, 5_000_000), direction: v(0, 0, -SCALE) };
    assert!(s.hit(&ray, t_min(), t_max()).is_none());
}

#[test]
fn sphere_tangent_single_root() {
    // Grazing ray: discriminant exactly zero, one valid root at t == 6.
    let s = Sphere::new(v(0, 0, -SCALE), fxr(500_000), 0);
    let ray = Ray { origin: v(500_000, 0, 5_000_000), direction: v(0, 0, -SCALE) };
    let hit = s.hit(&ray, t_min(), t_max()).expect("tangent ray must report one hit");
    assert_eq!(hit.t.raw, 6_000_000);
    // the grazing hit is not front-facing: the normal was flipped
    assert!(!hit.front_face);
    assert_eq!(hit.normal, v(-SCALE, 0, 0));
}

#[test]
fn sphere_inside_uses_far_root() {
    // Ray from the center: the near root is negative, the far one is taken.
    let s = Sphere::new(v(0, 0, 0), fxr(500_000), 0);
    let ray = Ray { origin: v(0, 0, 0), direction: v(0, 0, -SCALE) };
    let hit = s.hit(&ray, t_min(), t_max()).expect("must hit from inside");
    assert_eq!(hit.t.raw, 500_000);
    assert!(!hit.front_face);
}

#[test]
fn zero_radius_sphere_never_hits() {
    let s = Sphere::new(v(0, 0, -SCALE), fxr(0), 0);
    let ray = Ray { origin: v(0, 0, 0), direction: v(0, 0, -SCALE) };
    assert!(s.hit(&ray, t_min(), t_max()).is_none());
}

#[test]
fn list_returns_nearest_regardless_of_order() {
    // Two overlapping spheres on the ray's path: the closer one (t == 0.75)
    // wins in both insertion orders.
    let white = Material::Lambertian(Lambertian::new(v(SCALE, SCALE, SCALE)));
    let near = Sphere::new(v(0, 0, -SCALE), fxr(250_000), 0);
    let far = Sphere::new(v(0, 0, -2_000_000), fxr(250_000), 0);
    let ray = Ray { origin: v(0, 0, 0), direction: v(0, 0, -SCALE) };

    let mut a = single_material_scene(white);
    a.add(near);
    a.add(far);
    let hit_a = a.hit(&ray, t_min(), t_max()).expect("must hit");
    assert_eq!(hit_a.t.raw, 750_000);

    let mut b = single_material_scene(white);
    b.add(far);
    b.add(near);
    let hit_b = b.hit(&ray, t_min(), t_max()).expect("must hit");
    assert_eq!(hit_b.t.raw, 750_000);
    assert_eq!(hit_a.point, hit_b.point);
}

#[test]
fn accepted_hits_face_the_ray() {
    // dot(direction, normal) <= 0 for every accepted hit.
    let s = Sphere::new(v(0, 0, -SCALE), fxr(500_000), 0);
    let rays = [
        Ray { origin: v(0, 0, 5_000_000), direction: v(0, 0, -SCALE) },
        Ray { origin: v(500_000, 0, 5_000_000), direction: v(0, 0, -SCALE) },
        Ray { origin: v(0, 0, -SCALE), direction: v(0, 0, -SCALE) },
    ];
    for ray in rays.iter() {
        if let Some(hit) = s.hit(ray, t_min(), t_max()) {
            assert!(ray.direction.dot(hit.normal).raw <= 0);
        }
    }
}

#[test]
fn lambertian_scatter_keeps_albedo_and_origin() {
    let albedo = v(800_000, 200_000, 500_000);
    let mat = Lambertian::new(albedo);
    let s = Sphere::new(v(0, 0, 0), fxr(500_000), 0);
    let ray = Ray { origin: v(0, 0, 5_000_000), direction: v(0, 0, -SCALE) };
    let hit = s.hit(&ray, t_min(), t_max()).expect("must hit");
    let (scattered, attn) = mat.scatter(&ray, &hit).expect("lambertian always scatters");
    assert_eq!(attn, albedo);
    assert_eq!(scattered.origin, hit.point);
    // attenuation channels lie in [0, 1]
    assert!(0 <= attn.x.raw && attn.x.raw <= SCALE);
    assert!(0 <= attn.y.raw && attn.y.raw <= SCALE);
    assert!(0 <= attn.z.raw && attn.z.raw <= SCALE);
}

#[test]
fn metalic_reflects_on_direct_hit() {
    let mat = Metalic::new(v(SCALE, SCALE, SCALE));
    let s = Sphere::new(v(0, 0, 0), fxr(500_000), 0);
    let ray = Ray { origin: v(0, 0, 5_000_000), direction: v(0, 0, -SCALE) };
    let hit = s.hit(&ray, t_min(), t_max()).expect("must hit");
    let (scattered, _) = mat.scatter(&ray, &hit).expect("head-on mirror must reflect");
    // reflection of (0,0,-1) about (0,0,1) is (0,0,1)
    assert_eq!(scattered.direction, v(0, 0, SCALE));
}

#[test]
fn metalic_absorbs_grazing_reflection() {
    // Tangent geometry: reflected direction is orthogonal to the normal,
    // dot(reflected, normal) == 0, so the mirror absorbs.
    let mat = Metalic::new(v(SCALE, SCALE, SCALE));
    let s = Sphere::new(v(0, 0, -SCALE), fxr(500_000), 0);
    let ray = Ray { origin: v(500_000, 0, 5_000_000), direction: v(0, 0, -SCALE) };
    let hit = s.hit(&ray, t_min(), t_max()).expect("tangent must hit");
    assert!(mat.scatter(&ray, &hit).is_none());
}

#[test]
fn reflect_mirrors_about_normal() {
    let r = reflect(v(SCALE, -SCALE, 0), v(0, SCALE, 0));
    assert_eq!(r, v(SCALE, SCALE, 0));
}

#[test]
fn near_zero_is_exact_on_the_grid() {
    assert!(is_near_zero(&v(0, 0, 0)));
    assert!(!is_near_zero(&v(1, 0, 0)));
}

#[test]
fn random_vector_stays_in_bounds() {
    for _ in 0..50u32 {
        let r = random_vector(fxr(-SCALE), fxr(SCALE));
        assert!(-SCALE <= r.x.raw && r.x.raw <= SCALE);
        assert!(-SCALE <= r.y.raw && r.y.raw <= SCALE);
        assert!(-SCALE <= r.z.raw && r.z.raw <= SCALE);
    }
}

#[test]
fn random_unit_sphere_is_inside_ball() {
    for _ in 0..50u32 {
        let r = random_unit_sphere();
        assert!(r.magnitude2().raw < SCALE);
    }
}

#[test]
fn ray_color_depth_zero_is_black() {
    let mut list = single_material_scene(Material::Lambertian(Lambertian::new(v(
        SCALE, SCALE, SCALE,
    ))));
    list.add(Sphere::new(v(0, 0, -SCALE), fxr(500_000), 0));
    let ray = Ray { origin: v(0, 0, 0), direction: v(0, 0, -SCALE) };
    let c = ray_color(&ray, &list, 0);
    assert_eq!(c, v(0, 0, 0));
}

#[test]
fn ray_color_miss_returns_background() {
    let list = single_material_scene(Material::Lambertian(Lambertian::new(v(
        SCALE, SCALE, SCALE,
    ))));
    let ray = Ray { origin: v(0, 0, 0), direction: v(0, 0, -SCALE) };
    let c = ray_color(&ray, &list, 5);
    let bg = background(&ray);
    assert_eq!(c, bg);
    // level horizon: halfway between sky blue and white
    assert_eq!(bg, v(750_000, 850_000, SCALE));
}

#[test]
fn ray_color_head_on_sphere_is_not_background() {
    // Single white Lambertian sphere dead ahead; the ray goes through the
    // center pixel of an 800x600 image with zero jitter.  With one bounce
    // left the scattered path ends black, which differs from the sky
    // gradient.
    let mut list = single_material_scene(Material::Lambertian(Lambertian::new(v(
        SCALE, SCALE, SCALE,
    ))));
    list.add(Sphere::new(v(0, 0, -SCALE), fxr(500_000), 0));
    let (u, vv) = camera_uv(400, 300, fxr(0), fxr(0), 800, 600);
    let dir = Vec3::new(u, vv, fxr(-SCALE)).normalize();
    let ray = Ray { origin: v(0, 0, 0), direction: dir };
    let c = ray_color(&ray, &list, 1);
    assert_eq!(c, v(0, 0, 0));
    assert_ne!(c, background(&ray));
}

#[test]
fn ray_color_grazing_metal_is_black() {
    let mut list = single_material_scene(Material::Metalic(Metalic::new(v(
        SCALE, SCALE, SCALE,
    ))));
    list.add(Sphere::new(v(0, 0, -SCALE), fxr(500_000), 0));
    let ray = Ray { origin: v(500_000, 0, 5_000_000), direction: v(0, 0, -SCALE) };
    let c = ray_color(&ray, &list, 5);
    assert_eq!(c, v(0, 0, 0));
}

#[test]
fn ray_color_never_amplifies() {
    let mut list = single_material_scene(Material::Lambertian(Lambertian::new(v(
        800_000, 200_000, 500_000,
    ))));
    list.add(Sphere::new(v(200_000, 0, -SCALE), fxr(500_000), 0));
    list.add(Sphere::new(v(0, -100_500_000, -SCALE), fxr(100_000_000), 0));
    let ray = Ray { origin: v(0, 0, 0), direction: v(100_000, -200_000, -SCALE).normalize() };
    for depth in 0..8usize {
        let c = ray_color(&ray, &list, depth);
        assert!(0 <= c.x.raw && c.x.raw <= SCALE);
        assert!(0 <= c.y.raw && c.y.raw <= SCALE);
        assert!(0 <= c.z.raw && c.z.raw <= SCALE);
    }
}

#[test]
fn pixel_color_is_bounded() {
    let mut list = single_material_scene(Material::Lambertian(Lambertian::new(v(
        SCALE, SCALE, SCALE,
    ))));
    list.add(Sphere::new(v(0, 0, -SCALE), fxr(500_000), 0));
    let c = pixel_color(fxr(0), fxr(0), &list);
    assert!(0 <= c.x.raw && c.x.raw <= SCALE);
    assert!(0 <= c.y.raw && c.y.raw <= SCALE);
    assert!(0 <= c.z.raw && c.z.raw <= SCALE);
}

#[test]
fn camera_center_maps_to_origin() {
    let (u, vv) = camera_uv(400, 300, fxr(0), fxr(0), 800, 600);
    assert_eq!(u.raw, 0);
    assert_eq!(vv.raw, 0);
}

#[test]
fn camera_corner_maps_to_edges() {
    // Top-left corner: u == -aspect, v == +1 (vertical axis flipped).
    let (u, vv) = camera_uv(0, 0, fxr(0), fxr(0), 800, 600);
    assert_eq!(u.raw, -1_333_333);
    assert_eq!(vv.raw, SCALE);
}

#[test]
fn to_color_gamma_corrects_and_clamps() {
    let (r, g, b) = to_color(v(250_000, SCALE, 4_000_000), 1);
    assert_eq!(r, 127);
    assert_eq!(g, 255);
    assert_eq!(b, 255);
}

#[test]
fn to_color_averages_over_samples() {
    // Four samples summing to one: average 0.25, sqrt 0.5, channel 127.
    let (r, g, b) = to_color(v(SCALE, 0, 4 * SCALE), 4);
    assert_eq!(r, 127);
    assert_eq!(g, 0);
    assert_eq!(b, 255);
}

#[test]
fn scene_arena_hands_out_sequential_handles() {
    let mut list = HittableList::new();
    let a = list.add_material(Material::Lambertian(Lambertian::new(v(SCALE, SCALE, SCALE))));
    let b = list.add_material(Material::Metalic(Metalic::new(v(800_000, 600_000, 200_000))));
    assert_eq!(a, 0);
    assert_eq!(b, 1);
    list.add(Sphere::new(v(0, 0, -SCALE), fxr(500_000), b));
    let ray = Ray { origin: v(0, 0, 0), direction: v(0, 0, -SCALE) };
    let hit = list.hit(&ray, t_min(), t_max()).expect("must hit");
    assert_eq!(hit.material, b);
}

#[test]
fn ray_at_walks_the_parameter() {
    let ray = Ray { origin: v(SCALE, 0, 0), direction: v(0, 0, -SCALE) };
    let p = ray.at(fxr(2_500_000));
    assert_eq!(p, v(SCALE, 0, -2_500_000));
}
