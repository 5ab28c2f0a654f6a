//! Ray-sphere intersection by the analytic quadratic solver.

use crate::fx::{
    fxmul, lemma_fxmul_bound, lemma_fxmul_self_nonneg, lemma_mul_bounds, lemma_qz_nonneg, qz,
    sqrti, FX_ONE,
};
use crate::materials::Material;
use crate::ray::{ray_at, ray_in_domain, Ray};
use crate::vec3::{v3, v_bounded, v_dot, v_len, v_sub, Vec3};
use crate::HitInformation;
use vstd::prelude::*;

verus! {

/// Largest ray parameter the hit window supports: 2^36.
pub const RAY_PARAM_MAX: i64 = 0x10_0000_0000;

pub struct Sphere {
    pub center: Vec3,
    pub radius: i64,
    pub material: Material,
}

/// The doubled direction vector, `2 * d`.
pub open spec fn double_dir(d: Vec3) -> Vec3 {
    v3(2 * d.x, 2 * d.y, 2 * d.z)
}

/// The discriminant `b^2 - 4ac` of the ray-sphere quadratic
/// `|o + t d - c|^2 = r^2` (on the raw scale 2^48).
pub open spec fn sphere_discr(s: Sphere, ray: Ray) -> int {
    let a = v_dot(ray.direction, ray.direction);
    let l = v_sub(ray.origin, s.center);
    let b = v_dot(double_dir(ray.direction), l);
    let c = v_dot(l, l) - fxmul(s.radius as int, s.radius as int);
    b * b - 4 * a * c
}

/// The accepted hit at ray parameter `t`, if its distance from the ray
/// origin lies inside the `[min_dist, max_dist]` window (and `t` inside
/// the supported parameter range).
pub open spec fn sphere_accept(
    s: Sphere,
    ray: Ray,
    t: int,
    min_dist: int,
    max_dist: int,
) -> Option<HitInformation> {
    if !(-(RAY_PARAM_MAX as int) <= t <= RAY_PARAM_MAX as int) {
        Option::None
    } else {
        let p = ray_at(ray, t);
        let dist = v_len(v_sub(ray.origin, p));
        if dist < min_dist || dist > max_dist {
            Option::None
        } else {
            Option::Some(
                HitInformation {
                    hit_point: p,
                    hit_normal: v_sub(p, s.center),
                    hit_material: s.material,
                    dist_from_ray_orig: dist as i64,
                },
            )
        }
    }
}

/// The full solver: classify the discriminant, prefer the nearer root,
/// fall back to the farther one when the nearer lies behind the origin.
pub open spec fn sphere_hit(s: Sphere, ray: Ray, min_dist: int, max_dist: int) -> Option<
    HitInformation,
> {
    let a = v_dot(ray.direction, ray.direction);
    let l = v_sub(ray.origin, s.center);
    let b = v_dot(double_dir(ray.direction), l);
    let sol = sphere_discr(s, ray);
    if a == 0 || sol < 0 {
        Option::None
    } else {
        let sq = sqrti(sol as nat) as int;
        let t1 = qz((-b - sq) * (FX_ONE as int), 2 * a);
        if sol > 0 && t1 < 0 {
            let t2 = qz((-b + sq) * (FX_ONE as int), 2 * a);
            if t2 < 0 {
                Option::None
            } else {
                sphere_accept(s, ray, t2, min_dist, max_dist)
            }
        } else {
            sphere_accept(s, ray, t1, min_dist, max_dist)
        }
    }
}


/// A ray that misses the sphere analytically (negative discriminant)
/// reports no hit.
pub proof fn lemma_sphere_miss(s: Sphere, ray: Ray, min_dist: int, max_dist: int)
    requires
        sphere_discr(s, ray) < 0,
    ensures
        sphere_hit(s, ray, min_dist, max_dist) is None,
{
}

/// A ray aimed away from the sphere (both roots of the quadratic
/// behind the origin) reports no hit.
pub proof fn lemma_sphere_behind(s: Sphere, ray: Ray, min_dist: int, max_dist: int)
    requires
        sphere_discr(s, ray) > 0,
        ({
            let a = v_dot(ray.direction, ray.direction);
            let b = v_dot(double_dir(ray.direction), v_sub(ray.origin, s.center));
            let sq = sqrti(sphere_discr(s, ray) as nat) as int;
            &&& a != 0
            &&& qz((-b - sq) * (FX_ONE as int), 2 * a) < 0
            &&& qz((-b + sq) * (FX_ONE as int), 2 * a) < 0
        }),
    ensures
        sphere_hit(s, ray, min_dist, max_dist) is None,
{
}

impl Sphere {
    /// Intersects the ray with the sphere: solve the quadratic
    /// `|o + t d - c|^2 = r^2` for `t`, preferring the smaller root,
    /// and accept the hit only when its distance from the ray origin
    /// lies inside the `[min_dist, max_dist]` window.
    pub fn intersect_with_ray(&self, ray: &Ray, min_dist: i64, max_dist: i64) -> (r: Option<
        HitInformation,
    >)
        requires
            v_bounded(self.center, crate::WORLD_MAX as int),
            0 <= self.radius <= crate::WORLD_MAX,
            ray_in_domain(*ray),
        ensures
            r == sphere_hit(*self, *ray, min_dist as int, max_dist as int),
            sphere_discr(*self, *ray) < 0 ==> r is None,
            r is Some ==> min_dist <= r->Some_0.dist_from_ray_orig <= max_dist,
            r is Some ==> r->Some_0.hit_material == self.material,
            r is Some ==> r->Some_0.hit_normal == v_sub(r->Some_0.hit_point, self.center),
            r is Some ==> v_bounded(r->Some_0.hit_point, crate::HIT_MAX as int) && v_bounded(
                r->Some_0.hit_normal,
                crate::HIT_MAX as int,
            ),
            r is Some ==> v_bounded(
                v_sub(r->Some_0.hit_point, ray.origin),
                max_dist as int,
            ),
    {
        proof {
            lemma_dir_dot_bounds(ray.direction);
        }
        let a: i128 = ray.direction.dot(&ray.direction);
        let l: Vec3 = ray.origin.sub(self.center);
        let d2: Vec3 = Vec3 {
            x: 2 * ray.direction.x,
            y: 2 * ray.direction.y,
            z: 2 * ray.direction.z,
        };
        proof {
            lemma_fxmul_bound(d2.x as int, l.x as int, 0x1_0000_0000, 0x2000_0000_0000);
            lemma_fxmul_bound(d2.y as int, l.y as int, 0x1_0000_0000, 0x2000_0000_0000);
            lemma_fxmul_bound(d2.z as int, l.z as int, 0x1_0000_0000, 0x2000_0000_0000);
            lemma_fxmul_bound(l.x as int, l.x as int, 0x2000_0000_0000, 0x2000_0000_0000);
            lemma_fxmul_bound(l.y as int, l.y as int, 0x2000_0000_0000, 0x2000_0000_0000);
            lemma_fxmul_bound(l.z as int, l.z as int, 0x2000_0000_0000, 0x2000_0000_0000);
            lemma_fxmul_bound(
                self.radius as int,
                self.radius as int,
                crate::WORLD_MAX as int,
                crate::WORLD_MAX as int,
            );
        }
        let b: i128 = d2.dot(&l);
        let c: i128 = l.dot(&l) - crate::fx::mul_fx(self.radius as i128, self.radius as i128);
        proof {
            lemma_mul_bounds(b as int, b as int, 0x80_0000_0000_0000, 0x80_0000_0000_0000);
            lemma_mul_bounds(4 * (a as int), c as int, 0x400_0000_0000, 0x10_0000_0000_0000_0000);
        }
        let sol: i128 = b * b - 4 * a * c;
        if a == 0 || sol < 0 {
            return None;
        }
        let sq: i128 = crate::fx::isqrt(sol as u128) as i128;
        proof {
            lemma_qz_nonneg(sol as int, 1);
        }
        let t1: i128 = crate::fx::div_fx(-b - sq, 2 * a);
        if sol > 0 && t1 < 0 {
            // the nearer root lies behind the ray origin
            let t2: i128 = crate::fx::div_fx(-b + sq, 2 * a);
            if t2 < 0 {
                // both roots lie behind the ray origin
                None
            } else {
                self.accept_hit(ray, t2, min_dist, max_dist)
            }
        } else {
            self.accept_hit(ray, t1, min_dist, max_dist)
        }
    }

    /// Builds the hit record for the chosen root, enforcing the
    /// distance window.
    fn accept_hit(&self, ray: &Ray, t: i128, min_dist: i64, max_dist: i64) -> (r: Option<
        HitInformation,
    >)
        requires
            v_bounded(self.center, crate::WORLD_MAX as int),
            ray_in_domain(*ray),
        ensures
            r == sphere_accept(*self, *ray, t as int, min_dist as int, max_dist as int),
            r is Some ==> min_dist <= r->Some_0.dist_from_ray_orig <= max_dist,
            r is Some ==> r->Some_0.hit_material == self.material,
            r is Some ==> r->Some_0.hit_normal == v_sub(r->Some_0.hit_point, self.center),
            r is Some ==> v_bounded(r->Some_0.hit_point, crate::HIT_MAX as int) && v_bounded(
                r->Some_0.hit_normal,
                crate::HIT_MAX as int,
            ),
            r is Some ==> v_bounded(
                v_sub(r->Some_0.hit_point, ray.origin),
                max_dist as int,
            ),
    {
        if t < -RAY_PARAM_MAX as i128 || t > RAY_PARAM_MAX as i128 {
            return None;
        }
        proof {
            lemma_fxmul_bound(
                t as int,
                ray.direction.x as int,
                RAY_PARAM_MAX as int,
                crate::DIR_MAX as int,
            );
            lemma_fxmul_bound(
                t as int,
                ray.direction.y as int,
                RAY_PARAM_MAX as int,
                crate::DIR_MAX as int,
            );
            lemma_fxmul_bound(
                t as int,
                ray.direction.z as int,
                RAY_PARAM_MAX as int,
                crate::DIR_MAX as int,
            );
        }
        let hit_point = ray.point_at(t as i64);
        let delta = ray.origin.sub(hit_point);
        let dist: i64 = delta.length();
        if dist < min_dist || dist > max_dist {
            None
        } else {
            proof {
                crate::vec3::lemma_comp_le_len(delta);
            }
            let hit_normal = hit_point.sub(self.center);
            Some(
                HitInformation {
                    hit_normal,
                    hit_point,
                    hit_material: self.material,
                    dist_from_ray_orig: dist,
                },
            )
        }
    }
}

/// The squared-direction dot product is nonnegative and small.
proof fn lemma_dir_dot_bounds(d: Vec3)
    requires
        v_bounded(d, crate::DIR_MAX as int),
    ensures
        0 <= v_dot(d, d) <= 0x100_0000_0000,
{
    lemma_fxmul_bound(d.x as int, d.x as int, crate::DIR_MAX as int, crate::DIR_MAX as int);
    lemma_fxmul_bound(d.y as int, d.y as int, crate::DIR_MAX as int, crate::DIR_MAX as int);
    lemma_fxmul_bound(d.z as int, d.z as int, crate::DIR_MAX as int, crate::DIR_MAX as int);
    lemma_fxmul_self_nonneg(d.x as int);
    lemma_fxmul_self_nonneg(d.y as int);
    lemma_fxmul_self_nonneg(d.z as int);
}

} // verus!
