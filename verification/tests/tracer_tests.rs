use rbrt::aabbox::{compute_min_max_3d, BoundingBox};
use rbrt::colorize;
use rbrt::fx::FX_ONE;
use rbrt::materials::{
    random_point_in_unit_sphere, reflect, refract, schlick, Dielectric, Lambertian, Material,
    Metal, Rng64,
};
use rbrt::mesh::{LaneMode, TriangleMesh};
use rbrt::ray::Ray;
use rbrt::quantize_component;
use rbrt::render_scene;
use rbrt::scene::{Element, Scene};
use rbrt::sphere::Sphere;
use rbrt::triangle::{
    avx_cross_product, avx_dot_product, find_smallest_element_bigger_than_eps,
    sse_cross_product, sse_dot_product, BasicTriangle, MISS_SENTINEL,
};
use rbrt::vec3::Vec3;

fn fxv(v: f64) -> i64 {
    (v * FX_ONE as f64).round() as i64
}

fn vec(x: f64, y: f64, z: f64) -> Vec3 {
    Vec3::new(fxv(x), fxv(y), fxv(z))
}

fn assert_vec_close(a: Vec3, b: Vec3, tol: i64) {
    assert!(
        (a.x - b.x).abs() <= tol && (a.y - b.y).abs() <= tol && (a.z - b.z).abs() <= tol,
        "expected {:?} close to {:?}",
        a,
        b
    );
}

fn lanes(vals: &[f64]) -> Vec<i128> {
    vals.iter().map(|v| fxv(*v) as i128).collect()
}

fn gray(albedo: f64) -> Material {
    Material::Lambertian(Lambertian { albedo: vec(albedo, albedo, albedo) })
}

fn empty_scene() -> Scene {
    Scene { elements: vec![], triangle_meshes: vec![], lights: vec![], lane_mode: LaneMode::Scalar }
}

#[test]
fn it_works() {
    assert_eq!(2 + 2, 4);
}

#[test]
fn test_cross_product() {
    assert_eq!(
        vec(0.0, 0.0, 1.0),
        vec(1.0, 0.0, 0.0).cross_product(&vec(0.0, 1.0, 0.0))
    );
}

#[test]
fn test_normalize() {
    let len = vec(5.0, 2.0, 3.0).normalize().length();
    assert!((len - FX_ONE).abs() <= 4, "length {} not close to one", len);
}

#[test]
fn test_dot_product() {
    assert_eq!(
        vec(1.0, 2.0, 3.0).dot(&vec(1.0, 2.0, 3.0)),
        (14 * FX_ONE) as i128
    );
}

#[test]
fn test_mul() {
    assert_eq!(vec(1.0, 2.0, 3.0).mul(vec(1.0, 2.0, 3.0)), vec(1.0, 4.0, 9.0));
}

#[test]
fn test_add() {
    assert_eq!(vec(1.0, 2.0, 3.0).add(vec(1.0, 2.0, 3.0)), vec(2.0, 4.0, 6.0));
}

#[test]
fn test_subtract() {
    assert_eq!(vec(1.0, 2.0, 3.0).sub(vec(1.0, 2.0, 3.0)), Vec3::zero());
}

#[test]
fn test_rotate_yaw() {
    struct RotTest {
        point: Vec3,
        rotation: (f64, f64, f64),
        point_expected: Vec3,
    }
    let a = 0.7071067657322372;
    let f_delta: i64 = 34;
    let r45 = (45.0_f64).to_radians();
    let exp_vec = vec![
        RotTest { point: vec(1.0, 0.0, 0.0), rotation: (0.0, 0.0, r45), point_expected: vec(a, a, 0.0) },
        RotTest { point: vec(1.0, 0.0, 0.0), rotation: (0.0, 0.0, -r45), point_expected: vec(a, -a, 0.0) },
        RotTest { point: vec(0.0, 1.0, 0.0), rotation: (0.0, 0.0, r45), point_expected: vec(-a, a, 0.0) },
        RotTest { point: vec(0.0, 1.0, 0.0), rotation: (0.0, 0.0, -r45), point_expected: vec(a, a, 0.0) },
        RotTest { point: vec(0.0, 0.0, 1.0), rotation: (0.0, 0.0, r45), point_expected: vec(0.0, 0.0, 1.0) },
        RotTest { point: vec(0.0, 0.0, 1.0), rotation: (0.0, 0.0, -r45), point_expected: vec(0.0, 0.0, 1.0) },
        RotTest { point: vec(1.0, 0.0, 0.0), rotation: (0.0, r45, 0.0), point_expected: vec(1.0, 0.0, 0.0) },
        RotTest { point: vec(1.0, 0.0, 0.0), rotation: (0.0, -r45, 0.0), point_expected: vec(1.0, 0.0, 0.0) },
        RotTest { point: vec(0.0, 1.0, 0.0), rotation: (0.0, r45, 0.0), point_expected: vec(0.0, a, a) },
        RotTest { point: vec(0.0, 1.0, 0.0), rotation: (0.0, -r45, 0.0), point_expected: vec(0.0, a, -a) },
        RotTest { point: vec(0.0, 0.0, 1.0), rotation: (0.0, r45, 0.0), point_expected: vec(0.0, -a, a) },
        RotTest { point: vec(0.0, 0.0, 1.0), rotation: (0.0, -r45, 0.0), point_expected: vec(0.0, a, a) },
        RotTest { point: vec(1.0, 0.0, 0.0), rotation: (r45, 0.0, 0.0), point_expected: vec(a, a, 0.0) },
        RotTest { point: vec(1.0, 0.0, 0.0), rotation: (-r45, 0.0, 0.0), point_expected: vec(a, -a, 0.0) },
        RotTest { point: vec(0.0, 1.0, 0.0), rotation: (r45, 0.0, 0.0), point_expected: vec(-a, a, 0.0) },
        RotTest { point: vec(0.0, 1.0, 0.0), rotation: (-r45, 0.0, 0.0), point_expected: vec(a, a, 0.0) },
        RotTest { point: vec(0.0, 0.0, 1.0), rotation: (r45, 0.0, 0.0), point_expected: vec(0.0, 0.0, 1.0) },
        RotTest { point: vec(0.0, 0.0, 1.0), rotation: (r45, 0.0, 0.0), point_expected: vec(0.0, 0.0, 1.0) },
        RotTest { point: vec(0.0, 0.0, 1.0), rotation: (-r45, 0.0, 0.0), point_expected: vec(0.0, 0.0, 1.0) },
    ];
    for test_struct in exp_vec.iter() {
        let (rx, ry, rz) = test_struct.rotation;
        let rot_sin = vec(rx.sin(), ry.sin(), rz.sin());
        let rot_cos = vec(rx.cos(), ry.cos(), rz.cos());
        let rot_pt = test_struct.point.rotate_point(rot_sin, rot_cos);
        let residuum = test_struct.point_expected.sub(rot_pt).length();
        assert!(
            residuum < f_delta,
            "Point: {:?}, Rotation: {:?}, Expected: {:?}, Rotated Point {:?}",
            test_struct.point,
            test_struct.rotation,
            test_struct.point_expected,
            rot_pt
        );
    }
}

#[test]
fn test_mesh_aabbox() {
    let test_tri = [vec(1.0, 0.0, 0.0), vec(1.0, 0.0, 1.0), vec(0.0, 1.0, 0.0)];
    let tris = vec![test_tri];
    let (lower_bound, upper_bound) = compute_min_max_3d(&tris);
    assert_eq!(lower_bound, vec(0.0, 0.0, 0.0));
    assert_eq!(upper_bound, vec(1.0, 1.0, 1.0));
}

#[test]
fn test_refraction() {
    let incoming = vec(1.0, 1.0, 0.0);
    let normal = vec(-1.0, 0.0, 0.0);
    let mut refr_ray_dir = Vec3::zero();
    let ni_over_nt = fxv(1.4);
    let refracted = refract(
        &incoming.normalize(),
        &normal.normalize(),
        ni_over_nt,
        &mut refr_ray_dir,
    );
    assert!(refracted);
    assert_vec_close(refr_ray_dir, vec(0.14142191, 0.9899495, 0.0), 64);
}

#[test]
fn dielectric_test_refraction() {
    let incoming = vec(1.0, 1.0, 0.0);
    let normal = vec(-1.0, 0.0, 0.0);
    let mut refr_ray_dir = Vec3::zero();
    let ni_over_nt = fxv(1.4);
    let refracted = refract(
        &incoming.normalize(),
        &normal.normalize(),
        ni_over_nt,
        &mut refr_ray_dir,
    );
    assert!(refracted);
    assert_vec_close(refr_ray_dir, vec(0.14142191, 0.9899495, 0.0), 64);
}

#[test]
fn test_total_internal_reflection() {
    // a steep ray leaving a dense medium: the discriminant is negative,
    // so no refraction is reported and the output stays untouched
    let incoming = vec(1.0, -0.2, 0.0).normalize();
    let normal = vec(0.0, 1.0, 0.0);
    let mut refr_ray_dir = vec(9.0, 9.0, 9.0);
    let refracted = refract(&incoming, &normal, fxv(1.5), &mut refr_ray_dir);
    assert!(!refracted);
    assert_eq!(refr_ray_dir, vec(9.0, 9.0, 9.0));
}

#[test]
fn test_schlick_normal_incidence() {
    // at cosine = 1 the Schlick reflectance is exactly r0;
    // for a refractive index of 1.5, r0 is about 0.04
    let r = schlick(FX_ONE, fxv(1.5));
    assert_eq!(r, 671088);
    assert!((r - fxv(0.04)).abs() <= 2);
}

#[test]
fn test_sphere_intersection() {
    // Camera looks onto sphere from front
    let test_sphere = Sphere {
        center: vec(0.0, 0.0, -10.0),
        radius: fxv(1.0),
        material: Material::Metal(Metal { albedo: vec(0.8, 0.8, 0.8), roughness: fxv(0.005) }),
    };
    let test_ray = Ray { origin: vec(0.0, 0.0, 0.0), direction: vec(0.0, 0.0, -1.0) };
    let hit_info = test_sphere.intersect_with_ray(&test_ray, fxv(0.001), fxv(1000.0));
    assert!(hit_info.is_some());
    let hit_info = hit_info.unwrap();
    assert_eq!(hit_info.hit_point, vec(0.0, 0.0, -9.0));
    assert_eq!(hit_info.hit_normal, vec(0.0, 0.0, 1.0));

    // ray hits sphere from behind
    let test_ray = Ray { origin: vec(0.0, 0.0, -15.0), direction: vec(0.0, 0.0, 1.0) };
    let hit_info = test_sphere.intersect_with_ray(&test_ray, fxv(0.001), fxv(1000.0));
    assert!(hit_info.is_some());
    let hit_info = hit_info.unwrap();
    assert_eq!(hit_info.hit_point, vec(0.0, 0.0, -11.0));
    assert_eq!(hit_info.hit_normal, vec(0.0, 0.0, -1.0));
}

#[test]
fn test_triangle_normal() {
    let test_tri = BasicTriangle::new(
        [vec(1.0, 0.0, 0.0), vec(1.0, 1.0, 0.0), vec(0.0, 0.0, 0.0)],
        gray(0.5),
    );
    assert_eq!(test_tri.normal, vec(0.0, 0.0, 1.0));

    let test_tri = BasicTriangle::new(
        [vec(1.0, 0.0, 0.0), vec(1.0, 0.0, 1.0), vec(0.0, 1.0, 0.0)],
        gray(0.5),
    );
    assert_eq!(test_tri.normal, vec(-1.0, -1.0, 0.0).normalize());
}

#[test]
fn triangle_test_triangle_normal() {
    let test_tri = BasicTriangle::new(
        [vec(1.0, 0.0, 0.0), vec(1.0, 1.0, 0.0), vec(0.0, 0.0, 0.0)],
        gray(0.2),
    );
    assert_eq!(test_tri.normal, vec(0.0, 0.0, 1.0));

    let test_tri = BasicTriangle::new(
        [vec(1.0, 0.0, 0.0), vec(1.0, 0.0, 1.0), vec(0.0, 1.0, 0.0)],
        gray(0.2),
    );
    assert_eq!(test_tri.normal, vec(-1.0, -1.0, 0.0).normalize());
}

#[test]
fn test_avx_cross_product() {
    let a_x = lanes(&[1.0, 0.0, 3.0, 2.0, 1.0, 0.0, 3.0, 2.0]);
    let a_y = lanes(&[0.0, 1.0, 4.0, 6.0, 0.0, 1.0, 4.0, 6.0]);
    let a_z = lanes(&[0.0, 0.0, 4.0, 3.0, 0.0, 0.0, 4.0, 3.0]);
    let b_x = lanes(&[0.0, 0.0, 1.0, 2.0, 0.0, 0.0, 1.0, 2.0]);
    let b_y = lanes(&[1.0, 0.0, -2.0, 1.0, 1.0, 0.0, -2.0, 1.0]);
    let b_z = lanes(&[0.0, 1.0, 3.0, -2.0, 0.0, 1.0, 3.0, -2.0]);
    let c_x_exp = lanes(&[0.0, 1.0, 20.0, -15.0, 0.0, 1.0, 20.0, -15.0]);
    let c_y_exp = lanes(&[0.0, 0.0, -5.0, 10.0, 0.0, 0.0, -5.0, 10.0]);
    let c_z_exp = lanes(&[1.0, 0.0, -10.0, -10.0, 1.0, 0.0, -10.0, -10.0]);
    let (c_x, c_y, c_z) = avx_cross_product(&a_x, &a_y, &a_z, &b_x, &b_y, &b_z);
    assert_eq!(c_x, c_x_exp);
    assert_eq!(c_y, c_y_exp);
    assert_eq!(c_z, c_z_exp);
}

#[test]
fn test_avx_dot_product() {
    let a_x = lanes(&[1.0, 0.0, 3.0, 2.0, 1.0, 0.0, 3.0, 2.0]);
    let a_y = lanes(&[0.0, 1.0, 4.0, 6.0, 0.0, 1.0, 4.0, 6.0]);
    let a_z = lanes(&[0.0, 0.0, 4.0, 3.0, 0.0, 0.0, 4.0, 3.0]);
    let b_x = lanes(&[0.0, 0.0, 1.0, 2.0, 0.0, 0.0, 1.0, 2.0]);
    let b_y = lanes(&[1.0, 0.0, -2.0, 1.0, 1.0, 0.0, -2.0, 1.0]);
    let b_z = lanes(&[0.0, 1.0, 3.0, -2.0, 0.0, 1.0, 3.0, -2.0]);
    let s_exp = lanes(&[0.0, 0.0, 7.0, 4.0, 0.0, 0.0, 7.0, 4.0]);
    let s = avx_dot_product(&a_x, &a_y, &a_z, &b_x, &b_y, &b_z);
    assert_eq!(s, s_exp);
}

#[test]
fn test_sse_cross_product() {
    let a_x = lanes(&[1.0, 0.0, 3.0, 2.0]);
    let a_y = lanes(&[0.0, 1.0, 4.0, 6.0]);
    let a_z = lanes(&[0.0, 0.0, 4.0, 3.0]);
    let b_x = lanes(&[0.0, 0.0, 1.0, 2.0]);
    let b_y = lanes(&[1.0, 0.0, -2.0, 1.0]);
    let b_z = lanes(&[0.0, 1.0, 3.0, -2.0]);
    let c_x_exp = lanes(&[0.0, 1.0, 20.0, -15.0]);
    let c_y_exp = lanes(&[0.0, 0.0, -5.0, 10.0]);
    let c_z_exp = lanes(&[1.0, 0.0, -10.0, -10.0]);
    let (c_x, c_y, c_z) = sse_cross_product(&a_x, &a_y, &a_z, &b_x, &b_y, &b_z);
    assert_eq!(c_x, c_x_exp);
    assert_eq!(c_y, c_y_exp);
    assert_eq!(c_z, c_z_exp);
}

#[test]
fn test_trivial_sse_cross_product() {
    let a_x = lanes(&[0.0, 0.0, 0.0, 0.0]);
    let a_y = lanes(&[0.0, 0.0, 0.0, 0.0]);
    let a_z = lanes(&[1.0, 1.0, 1.0, 1.0]);
    let b_x = lanes(&[1.0, 1.0, 1.0, 1.0]);
    let b_y = lanes(&[0.0, 0.0, 0.0, 0.0]);
    let b_z = lanes(&[0.0, 0.0, 0.0, 0.0]);
    let c_x_exp = lanes(&[0.0, 0.0, 0.0, 0.0]);
    let c_y_exp = lanes(&[1.0, 1.0, 1.0, 1.0]);
    let c_z_exp = lanes(&[0.0, 0.0, 0.0, 0.0]);
    let (c_x, c_y, c_z) = sse_cross_product(&a_x, &a_y, &a_z, &b_x, &b_y, &b_z);
    assert_eq!(c_x, c_x_exp);
    assert_eq!(c_y, c_y_exp);
    assert_eq!(c_z, c_z_exp);
}

#[test]
fn test_sse_dot_product() {
    let a_x = lanes(&[1.0, 0.0, 3.0, 2.0]);
    let a_y = lanes(&[0.0, 1.0, 4.0, 6.0]);
    let a_z = lanes(&[0.0, 0.0, 4.0, 3.0]);
    let b_x = lanes(&[0.0, 0.0, 1.0, 2.0]);
    let b_y = lanes(&[1.0, 0.0, -2.0, 1.0]);
    let b_z = lanes(&[0.0, 1.0, 3.0, -2.0]);
    let s_exp = lanes(&[0.0, 0.0, 7.0, 4.0]);
    let s = sse_dot_product(&a_x, &a_y, &a_z, &b_x, &b_y, &b_z);
    assert_eq!(s, s_exp);
}

#[test]
fn test_trivial_sse_dot_product() {
    let a_x = lanes(&[0.0, 0.0, 0.0, 0.0]);
    let a_y = lanes(&[0.0, 0.0, 0.0, 0.0]);
    let a_z = lanes(&[1.0, 1.0, 1.0, 1.0]);
    let b_x = lanes(&[1.0, 1.0, 1.0, 1.0]);
    let b_y = lanes(&[0.0, 0.0, 0.0, 0.0]);
    let b_z = lanes(&[0.0, 0.0, 0.0, 0.0]);
    let s_exp = lanes(&[0.0, 0.0, 0.0, 0.0]);
    let s = sse_dot_product(&a_x, &a_y, &a_z, &b_x, &b_y, &b_z);
    assert_eq!(s, s_exp);

    let a_x = lanes(&[1.0, 1.0, 1.0, 1.0]);
    let a_y = lanes(&[1.0, 1.0, 1.0, 1.0]);
    let a_z = lanes(&[1.0, 1.0, 1.0, 1.0]);
    let b_x = lanes(&[1.0, 1.0, 1.0, 1.0]);
    let b_y = lanes(&[1.0, 1.0, 1.0, 1.0]);
    let b_z = lanes(&[1.0, 1.0, 1.0, 1.0]);
    let s_exp = lanes(&[3.0, 3.0, 3.0, 3.0]);
    let s = sse_dot_product(&a_x, &a_y, &a_z, &b_x, &b_y, &b_z);
    assert_eq!(s, s_exp);
}

#[test]
fn test_random_points_in_unit_sphere() {
    let mut rng = Rng64::new(7);
    for _i in 0..20 {
        assert!(random_point_in_unit_sphere(&mut rng).length() <= FX_ONE);
    }
}

#[test]
fn test_reflection() {
    let incoming = vec(1.0, 1.0, 1.0);
    let normal = vec(1.0, 1.0, 1.0);
    let refl = reflect(&incoming, &normal);
    assert_vec_close(refl, vec(-1.0, -1.0, -1.0).normalize(), 16);

    let incoming = vec(1.0, 1.0, 0.0);
    let normal = vec(-1.0, 0.0, 0.0);
    let refl = reflect(&incoming, &normal);
    assert_vec_close(refl, vec(-0.7071067811865476, 0.7071067811865476, 0.0), 16);
}

#[test]
fn test_find_smallest_skips_padding() {
    let params: Vec<i64> = vec![fxv(5.0), MISS_SENTINEL, fxv(2.0)];
    let pad = vec![false, false, true];
    let (t, idx) = find_smallest_element_bigger_than_eps(&params, &pad, fxv(0.001));
    assert_eq!(t, Some(fxv(5.0)));
    assert_eq!(idx, Some(0));
}

#[test]
fn test_bounding_box_hit() {
    let bbox = BoundingBox::new(vec(0.0, 0.0, 0.0), vec(1.0, 1.0, 1.0));
    // straight through the box
    let r = Ray { origin: vec(-1.0, 0.5, 0.5), direction: vec(1.0, 0.0, 0.0) };
    assert!(bbox.hit(&r));
    // the box lies entirely behind the origin
    let r = Ray { origin: vec(2.0, 0.5, 0.5), direction: vec(1.0, 0.0, 0.0) };
    assert!(!bbox.hit(&r));
    // parallel to a slab the ray never enters
    let r = Ray { origin: vec(-1.0, 2.0, 0.5), direction: vec(1.0, 0.0, 0.0) };
    assert!(!bbox.hit(&r));
    // the slab intervals do not overlap
    let r = Ray { origin: vec(-1.0, 0.5, 0.5), direction: vec(1.0, 10.0, 0.0) };
    assert!(!bbox.hit(&r));
    // grazing one face exactly counts as a hit
    let r = Ray { origin: vec(0.0, -1.0, 0.5), direction: vec(0.0, 1.0, 0.0) };
    assert!(bbox.hit(&r));
}

#[test]
fn test_lambertian_sphere_scene_hit() {
    // a single diffuse unit sphere at (0, 0, -10), hit straight on
    let scene = Scene {
        elements: vec![Element::Sphere(Sphere {
            center: vec(0.0, 0.0, -10.0),
            radius: fxv(1.0),
            material: gray(0.5),
        })],
        triangle_meshes: vec![],
        lights: vec![],
        lane_mode: LaneMode::Scalar,
    };
    let ray = Ray { origin: vec(0.0, 0.0, 0.0), direction: vec(0.0, 0.0, -1.0) };
    let hit = scene.hit(&ray, fxv(0.001), fxv(2000.0));
    assert!(hit.is_some());
    let hit = hit.unwrap();
    assert_eq!(hit.hit_point, vec(0.0, 0.0, -9.0));
    assert_eq!(hit.hit_normal, vec(0.0, 0.0, 1.0));
}

#[test]
fn test_miss_returns_background_gradient() {
    let scene = empty_scene();
    let bg = vec(0.05, 0.05, 0.8);
    let mut rng = Rng64::new(1);
    // straight up: t = 1, so the gradient is exactly white, never black
    let ray = Ray { origin: vec(0.0, 0.0, 0.0), direction: vec(0.0, 1.0, 0.0) };
    let c = colorize(&ray, &scene, &bg, 50, &mut rng);
    assert_eq!(c, vec(1.0, 1.0, 1.0));
    assert_ne!(c, Vec3::zero());
    // straight down: t = 0, so the gradient is exactly the background
    let ray = Ray { origin: vec(0.0, 0.0, 0.0), direction: vec(0.0, -1.0, 0.0) };
    let c = colorize(&ray, &scene, &bg, 50, &mut rng);
    assert_eq!(c, bg);
    assert_ne!(c, Vec3::zero());
}

#[test]
fn test_depth_zero_returns_black() {
    for material in [
        gray(0.9),
        Material::Metal(Metal { albedo: vec(0.8, 0.8, 0.8), roughness: fxv(0.1) }),
        Material::Dielectric(Dielectric { ref_idx: fxv(1.5) }),
    ] {
        let scene = Scene {
            elements: vec![Element::Sphere(Sphere {
                center: vec(0.0, 0.0, -10.0),
                radius: fxv(1.0),
                material,
            })],
            triangle_meshes: vec![],
            lights: vec![],
            lane_mode: LaneMode::Scalar,
        };
        let ray = Ray { origin: vec(0.0, 0.0, 0.0), direction: vec(0.0, 0.0, -1.0) };
        let mut rng = Rng64::new(3);
        let c = colorize(&ray, &scene, &vec(0.05, 0.05, 0.8), 0, &mut rng);
        assert_eq!(c, Vec3::zero());
    }
}

#[test]
fn test_scan_paths_agree() {
    // one mesh, queried through all three scan paths
    let tris = vec![
        [vec(-1.0, -1.0, -5.0), vec(1.0, -1.0, -5.0), vec(0.0, 1.0, -5.0)],
        [vec(-1.0, -1.0, -8.0), vec(1.0, -1.0, -8.0), vec(0.0, 1.0, -8.0)],
    ];
    let mesh = TriangleMesh::new(&tris, gray(0.5));
    let rays = [
        Ray { origin: vec(0.0, 0.0, 0.0), direction: vec(0.0, 0.0, -1.0) },
        Ray { origin: vec(0.0, 0.0, 0.0), direction: vec(0.0, 1.0, 0.0) },
        Ray { origin: vec(0.2, -0.3, 1.0), direction: vec(0.0, 0.1, -1.0).normalize() },
    ];
    for ray in rays.iter() {
        let a = mesh.intersect_with_ray(ray, fxv(0.001), fxv(2000.0), LaneMode::Eight);
        let b = mesh.intersect_with_ray(ray, fxv(0.001), fxv(2000.0), LaneMode::Four);
        let c = mesh.intersect_with_ray(ray, fxv(0.001), fxv(2000.0), LaneMode::Scalar);
        match (a, b, c) {
            (None, None, None) => {}
            (Some(ha), Some(hb), Some(hc)) => {
                assert_eq!(ha.hit_point, hb.hit_point);
                assert_eq!(hb.hit_point, hc.hit_point);
                assert_eq!(ha.dist_from_ray_orig, hb.dist_from_ray_orig);
                assert_eq!(hb.dist_from_ray_orig, hc.dist_from_ray_orig);
            }
            _ => panic!("the scan paths disagree"),
        }
    }
    // the first mesh triangle is hit at z = -5
    let hit = mesh
        .intersect_with_ray(
            &Ray { origin: vec(0.0, 0.0, 0.0), direction: vec(0.0, 0.0, -1.0) },
            fxv(0.001),
            fxv(2000.0),
            LaneMode::Eight,
        )
        .unwrap();
    assert_vec_close(hit.hit_point, vec(0.0, 0.0, -5.0), 4);
}

#[test]
fn test_render_is_reproducible() {
    let scene = Scene {
        elements: vec![
            Element::Sphere(Sphere {
                center: vec(0.0, 0.0, -10.0),
                radius: fxv(1.0),
                material: gray(0.5),
            }),
            Element::Sphere(Sphere {
                center: vec(0.0, -101.0, -10.0),
                radius: fxv(100.0),
                material: Material::Metal(Metal {
                    albedo: vec(0.8, 0.8, 0.8),
                    roughness: fxv(0.05),
                }),
            }),
        ],
        triangle_meshes: vec![],
        lights: vec![],
        lane_mode: LaneMode::Eight,
    };
    let mut rays = Vec::new();
    for row in 0..4 {
        for col in 0..4 {
            for _s in 0..2 {
                let dir = vec(
                    (col as f64 - 2.0) * 0.1,
                    (row as f64 - 2.0) * 0.1,
                    -1.0,
                )
                .normalize();
                rays.push(Ray { origin: vec(0.0, 0.0, 0.0), direction: dir });
            }
        }
    }
    let mut rng1 = Rng64::new(42);
    let img1 = render_scene(2, &rays, &scene, &mut rng1);
    let mut rng2 = Rng64::new(42);
    let img2 = render_scene(2, &rays, &scene, &mut rng2);
    assert_eq!(img1, img2);
    assert_eq!(img1.len(), 3 * 16);
    // a different seed is allowed to give different samples, but the
    // frame shape stays the same
    let mut rng3 = Rng64::new(43);
    let img3 = render_scene(2, &rays, &scene, &mut rng3);
    assert_eq!(img3.len(), 3 * 16);
}

#[test]
fn test_dielectric_bounce_is_deterministic() {
    // a glass sphere in front of a diffuse one: the integrator takes
    // the reflect-or-refract branch and stays reproducible
    let scene = Scene {
        elements: vec![
            Element::Sphere(Sphere {
                center: vec(0.0, 0.0, -5.0),
                radius: fxv(1.0),
                material: Material::Dielectric(Dielectric { ref_idx: fxv(1.5) }),
            }),
            Element::Sphere(Sphere {
                center: vec(0.0, 0.0, -10.0),
                radius: fxv(2.0),
                material: gray(0.6),
            }),
        ],
        triangle_meshes: vec![],
        lights: vec![],
        lane_mode: LaneMode::Scalar,
    };
    let ray = Ray { origin: vec(0.0, 0.1, 0.0), direction: vec(0.0, 0.0, -1.0) };
    let bg = vec(0.05, 0.05, 0.8);
    let mut rng1 = Rng64::new(11);
    let c1 = colorize(&ray, &scene, &bg, 8, &mut rng1);
    let mut rng2 = Rng64::new(11);
    let c2 = colorize(&ray, &scene, &bg, 8, &mut rng2);
    assert_eq!(c1, c2);
    assert!(c1.x.abs() <= 4 * FX_ONE && c1.y.abs() <= 4 * FX_ONE && c1.z.abs() <= 4 * FX_ONE);
}

#[test]
fn test_quantize_component() {
    assert_eq!(quantize_component(0), 0);
    assert_eq!(quantize_component(-5), 0);
    // a quarter in linear space is half after gamma: 128 of 256
    assert_eq!(quantize_component(fxv(0.25)), 128);
    // full white saturates
    assert_eq!(quantize_component(FX_ONE), 255);
}

#[test]
fn test_scene_hit_picks_nearest() {
    // two spheres on the same ray: the nearer one wins
    let near = Sphere { center: vec(0.0, 0.0, -5.0), radius: fxv(1.0), material: gray(0.1) };
    let far = Sphere { center: vec(0.0, 0.0, -20.0), radius: fxv(1.0), material: gray(0.9) };
    let scene = Scene {
        elements: vec![Element::Sphere(far), Element::Sphere(near)],
        triangle_meshes: vec![],
        lights: vec![],
        lane_mode: LaneMode::Scalar,
    };
    let ray = Ray { origin: vec(0.0, 0.0, 0.0), direction: vec(0.0, 0.0, -1.0) };
    let hit = scene.hit(&ray, fxv(0.001), fxv(2000.0)).unwrap();
    assert_eq!(hit.hit_point, vec(0.0, 0.0, -4.0));
    assert_eq!(hit.dist_from_ray_orig, fxv(4.0));
}
