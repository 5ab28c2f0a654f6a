//! Material scattering: diffuse, metallic and dielectric surfaces.
//!
//! Randomness is an injected dependency: every sampling site draws from
//! an explicitly passed [`Rng64`], a deterministic 64-bit linear
//! congruential generator, so a render with a fixed seed is a pure
//! function of its inputs and each contract states the scattered ray
//! exactly as a function of the incoming ray, the hit and the generator
//! state.

use crate::fx::{fxdiv, fxmul, fxsqrt, lemma_fxmul_bound, mul_fx, sqrt_fx, FX_ONE};
use crate::ray::Ray;
use crate::vec3::{
    v3, v_add, v_bounded, v_dot, v_len, v_norm, v_scale, v_sub, Vec3, VEC_ARG_MAX,
};
use crate::HitInformation;
use vstd::arithmetic::div_mod::{lemma_add_mod_noop, lemma_div_is_ordered, lemma_small_mod};
use vstd::prelude::*;

verus! {

/// Multiplier of the linear congruential generator.
pub const RNG_MUL: u64 = 6364136223846793005;

/// Increment of the linear congruential generator.
pub const RNG_INC: u64 = 1442695040888963407;

/// How many candidate points the rejection sampler draws before it
/// falls back to the center of the unit sphere.
pub const SPHERE_SAMPLE_TRIES: u32 = 64;

/// Deterministic pseudo-random generator; one instance per worker,
/// seeded explicitly.
pub struct Rng64 {
    pub state: u64,
}

/// The successor state of the generator.
#[verifier::opaque]
pub open spec fn rng_next(s: u64) -> u64 {
    (((s * RNG_MUL) + RNG_INC) % 0x1_0000_0000_0000_0000) as u64
}

/// The fixed-point sample in `[0, 1)` drawn by one generator step: the
/// top 24 bits of the successor state.
#[verifier::opaque]
pub open spec fn rng_unit(s: u64) -> int {
    (rng_next(s) as int) / 0x100_0000_0000
}

impl Rng64 {
    pub fn new(seed: u64) -> (r: Rng64)
        ensures
            r.state == seed,
    {
        Rng64 { state: seed }
    }

    /// Advances the generator and returns the new raw state.
    pub fn next_u64(&mut self) -> (r: u64)
        ensures
            final(self).state == rng_next(old(self).state),
            r == rng_next(old(self).state),
    {
        let s0 = self.state;
        let s1: u64 = s0.wrapping_mul(RNG_MUL).wrapping_add(RNG_INC);
        proof {
            reveal(rng_next);
            let m = 0x1_0000_0000_0000_0000int;
            let p = (s0 as nat * RNG_MUL as nat) % (m as nat);
            lemma_add_mod_noop(s0 as int * RNG_MUL as int, RNG_INC as int, m);
            lemma_small_mod(RNG_INC as nat, m as nat);
            lemma_small_mod((p + RNG_INC) as nat % (m as nat), m as nat);
            vstd::arithmetic::div_mod::lemma_mod_mod(p as int + RNG_INC as int, m, m);
            assert((p + RNG_INC) % m == (s0 as int * RNG_MUL as int + RNG_INC) % m);
        }
        self.state = s1;
        s1
    }

    /// Draws a fixed-point sample uniform over `[0, 1)`.
    pub fn next_unit(&mut self) -> (r: i64)
        ensures
            final(self).state == rng_next(old(self).state),
            r == rng_unit(old(self).state),
            0 <= r < FX_ONE,
    {
        let v: u64 = self.next_u64();
        proof {
            reveal(rng_unit);
            lemma_div_is_ordered(v as int, u64::MAX as int, 0x100_0000_0000);
            vstd::arithmetic::div_mod::lemma_div_pos_is_pos(v as int, 0x100_0000_0000);
        }
        (v / 0x100_0000_0000) as i64
    }
}

/// The candidate point one rejection round draws: each component is a
/// sample scaled to `[-1, 1)`.
pub open spec fn cube_point(s: u64) -> Vec3 {
    v3(
        2 * rng_unit(s) - FX_ONE,
        2 * rng_unit(rng_next(s)) - FX_ONE,
        2 * rng_unit(rng_next(rng_next(s))) - FX_ONE,
    )
}

/// The rejection sampler: draw a candidate in the cube, keep it when it
/// lies within the unit sphere, otherwise retry; after `fuel` failed
/// retries the center of the sphere is returned.
pub open spec fn sphere_point(s: u64, fuel: nat) -> (Vec3, u64)
    decreases fuel,
{
    let p = cube_point(s);
    let s3 = rng_next(rng_next(rng_next(s)));
    if v_len(p) <= FX_ONE {
        (p, s3)
    } else if fuel == 0 {
        (v3(0, 0, 0), s3)
    } else {
        sphere_point(s3, (fuel - 1) as nat)
    }
}

fn sample_sphere_point(rng: &mut Rng64, fuel: u32) -> (p: Vec3)
    ensures
        p == sphere_point(old(rng).state, fuel as nat).0,
        final(rng).state == sphere_point(old(rng).state, fuel as nat).1,
        v_bounded(p, FX_ONE as int),
    decreases fuel,
{
    let x: i64 = 2 * rng.next_unit() - FX_ONE;
    let y: i64 = 2 * rng.next_unit() - FX_ONE;
    let z: i64 = 2 * rng.next_unit() - FX_ONE;
    let point = Vec3 { x, y, z };
    if point.length() <= FX_ONE {
        point
    } else if fuel == 0 {
        Vec3::zero()
    } else {
        sample_sphere_point(rng, fuel - 1)
    }
}

/// Whatever the generator state and retry budget, the sampled point
/// lies inside the unit sphere (the fallback is its center).
#[verifier::rlimit(100)]
pub proof fn lemma_sphere_point_in_sphere(s: u64, fuel: nat)
    ensures
        v_len(sphere_point(s, fuel).0) <= FX_ONE,
    decreases fuel,
{
    let p = cube_point(s);
    if v_len(p) <= FX_ONE {
    } else if fuel == 0 {
        let z = v3(0, 0, 0);
        assert(z.x == 0 && z.y == 0 && z.z == 0);
        assert(z.x * z.x + z.y * z.y + z.z * z.z == 0) by (nonlinear_arith)
            requires
                z.x == 0 && z.y == 0 && z.z == 0,
        ;
        assert(crate::fx::sqrti(0) == 0);
    } else {
        lemma_sphere_point_in_sphere(rng_next(rng_next(rng_next(s))), (fuel - 1) as nat);
    }
}

/// Draws a point inside the unit sphere by rejection sampling over the
/// enclosing cube (with a bounded number of retries, so the function is
/// total; the fallback is the sphere's center).
pub fn random_point_in_unit_sphere(rng: &mut Rng64) -> (p: Vec3)
    ensures
        p == sphere_point(old(rng).state, SPHERE_SAMPLE_TRIES as nat).0,
        final(rng).state == sphere_point(old(rng).state, SPHERE_SAMPLE_TRIES as nat).1,
        v_bounded(p, FX_ONE as int),
        v_len(p) <= FX_ONE,
{
    proof {
        lemma_sphere_point_in_sphere(old(rng).state, SPHERE_SAMPLE_TRIES as nat);
    }
    sample_sphere_point(rng, SPHERE_SAMPLE_TRIES)
}

/// The reflection of `d` about `n`, both normalized first, the result
/// normalized again.
pub open spec fn reflect_spec(d: Vec3, n: Vec3) -> Vec3 {
    let ud = v_norm(d);
    let un = v_norm(n);
    let un2 = v3(2 * un.x, 2 * un.y, 2 * un.z);
    v_norm(v_sub(ud, v_scale(v_dot(ud, un), un2)))
}

/// Unit vectors have dot products within three fixed-point units.
proof fn lemma_unit_dot_bound(a: Vec3, b: Vec3)
    requires
        v_bounded(a, FX_ONE as int),
        v_bounded(b, FX_ONE as int),
    ensures
        -3 * (FX_ONE as int) <= v_dot(a, b) <= 3 * (FX_ONE as int),
{
    lemma_fxmul_bound(a.x as int, b.x as int, FX_ONE as int, FX_ONE as int);
    lemma_fxmul_bound(a.y as int, b.y as int, FX_ONE as int, FX_ONE as int);
    lemma_fxmul_bound(a.z as int, b.z as int, FX_ONE as int, FX_ONE as int);
}

/// Reflects an incoming direction about a surface normal.
pub fn reflect(incoming_ray_dir: &Vec3, normal: &Vec3) -> (r: Vec3)
    requires
        v_bounded(*incoming_ray_dir, VEC_ARG_MAX as int),
        v_bounded(*normal, VEC_ARG_MAX as int),
    ensures
        r == reflect_spec(*incoming_ray_dir, *normal),
        v_bounded(r, FX_ONE as int),
{
    let inc_ray_dir_unit = incoming_ray_dir.normalize();
    let normal_unit = normal.normalize();
    proof {
        lemma_unit_dot_bound(inc_ray_dir_unit, normal_unit);
    }
    let d: i64 = inc_ray_dir_unit.dot(&normal_unit) as i64;
    let normal_unit2 = Vec3 { x: 2 * normal_unit.x, y: 2 * normal_unit.y, z: 2 * normal_unit.z };
    proof {
        lemma_fxmul_bound(d as int, normal_unit2.x as int, 0x300_0000, 0x200_0000);
        lemma_fxmul_bound(d as int, normal_unit2.y as int, 0x300_0000, 0x200_0000);
        lemma_fxmul_bound(d as int, normal_unit2.z as int, 0x300_0000, 0x200_0000);
    }
    let reflected_dir = inc_ray_dir_unit.sub(normal_unit2.scale(d));
    reflected_dir.normalize()
}

/// The total-internal-reflection discriminant of Snell's law,
/// `1 - eta^2 * (1 - cos^2)`.
pub open spec fn refract_discr(d: Vec3, n: Vec3, eta: int) -> int {
    let cos = v_dot(v_norm(d), v_norm(n));
    FX_ONE - fxmul(fxmul(eta, eta), FX_ONE - fxmul(cos, cos))
}

/// The refracted direction, defined when the discriminant is positive.
pub open spec fn refract_dir(d: Vec3, n: Vec3, eta: int) -> Vec3 {
    let vu = v_norm(d);
    let nu = v_norm(n);
    let cos = v_dot(vu, nu);
    v_sub(
        v_scale(eta, v_sub(vu, v_scale(cos, nu))),
        v_scale(fxsqrt(refract_discr(d, n, eta)), nu),
    )
}

/// Computes the refracted direction through Snell's law.  Returns false
/// (and leaves the output untouched) exactly when the
/// total-internal-reflection discriminant is at or below zero.
pub fn refract(
    incoming_ray_dir: &Vec3,
    normal: &Vec3,
    ni_over_nt: i64,
    refracted_ray_dir: &mut Vec3,
) -> (r: bool)
    requires
        v_bounded(*incoming_ray_dir, VEC_ARG_MAX as int),
        v_bounded(*normal, VEC_ARG_MAX as int),
        0 < ni_over_nt <= 0x1000_0000,
    ensures
        r == (refract_discr(*incoming_ray_dir, *normal, ni_over_nt as int) > 0),
        r ==> *final(refracted_ray_dir) == refract_dir(
            *incoming_ray_dir,
            *normal,
            ni_over_nt as int,
        ),
        r ==> v_bounded(*final(refracted_ray_dir), crate::DIR_MAX as int),
        !r ==> *final(refracted_ray_dir) == *old(refracted_ray_dir),
{
    let view_unit = incoming_ray_dir.normalize();
    let normal_unit = normal.normalize();
    proof {
        lemma_unit_dot_bound(view_unit, normal_unit);
    }
    let cos_theta: i64 = view_unit.dot(&normal_unit) as i64;
    proof {
        lemma_fxmul_bound(cos_theta as int, cos_theta as int, 0x300_0000, 0x300_0000);
        lemma_fxmul_bound(ni_over_nt as int, ni_over_nt as int, 0x1000_0000, 0x1000_0000);
    }
    let cos2: i64 = mul_fx(cos_theta as i128, cos_theta as i128) as i64;
    let eta2: i64 = mul_fx(ni_over_nt as i128, ni_over_nt as i128) as i64;
    proof {
        lemma_fxmul_bound(eta2 as int, (FX_ONE - cos2) as int, 0x1_0000_0000, 0xa00_0000);
    }
    let discr: i64 = FX_ONE - mul_fx(eta2 as i128, (FX_ONE - cos2) as i128) as i64;
    if discr > 0 {
        let sq: i64 = sqrt_fx(discr as i128) as i64;
        proof {
            assert(sq <= 0x4000_0000) by (nonlinear_arith)
                requires
                    sq >= 0,
                    (sq as int) * (sq as int) <= (discr as int) * (FX_ONE as int),
                    0 < discr <= 0xa_0100_0000,
            ;
            lemma_fxmul_bound(cos_theta as int, normal_unit.x as int, 0x300_0000, FX_ONE as int);
            lemma_fxmul_bound(cos_theta as int, normal_unit.y as int, 0x300_0000, FX_ONE as int);
            lemma_fxmul_bound(cos_theta as int, normal_unit.z as int, 0x300_0000, FX_ONE as int);
        }
        let inner = view_unit.sub(normal_unit.scale(cos_theta));
        let a = inner.scale(ni_over_nt);
        let b = normal_unit.scale(sq);
        proof {
            lemma_fxmul_bound(ni_over_nt as int, inner.x as int, 0x1000_0000, 0x400_0000);
            lemma_fxmul_bound(ni_over_nt as int, inner.y as int, 0x1000_0000, 0x400_0000);
            lemma_fxmul_bound(ni_over_nt as int, inner.z as int, 0x1000_0000, 0x400_0000);
            lemma_fxmul_bound(sq as int, normal_unit.x as int, 0x4000_0000, FX_ONE as int);
            lemma_fxmul_bound(sq as int, normal_unit.y as int, 0x4000_0000, FX_ONE as int);
            lemma_fxmul_bound(sq as int, normal_unit.z as int, 0x4000_0000, FX_ONE as int);
        }
        *refracted_ray_dir = a.sub(b);
        true
    } else {
        false
    }
}

/// Fifth power under fixed-point multiplication.
pub open spec fn pow5(x: int) -> int {
    fxmul(fxmul(fxmul(fxmul(x, x), x), x), x)
}

/// The Schlick reflectance approximation,
/// `r0 + (1 - r0) * (1 - cos)^5` with `r0 = ((1 - n) / (1 + n))^2`.
pub open spec fn schlick_spec(cosine: int, ref_index: int) -> int {
    let q = fxdiv(FX_ONE - ref_index, FX_ONE + ref_index);
    let r0 = fxmul(q, q);
    r0 + fxmul(FX_ONE - r0, pow5(FX_ONE - cosine))
}

/// Computes the Schlick reflectance approximation.
pub fn schlick(cosine: i64, ref_index: i64) -> (r: i64)
    requires
        -0x4000_0000 <= cosine <= 0x4000_0000,
        0 < ref_index <= 0x1000_0000,
    ensures
        r == schlick_spec(cosine as int, ref_index as int),
{
    proof {
        crate::fx::lemma_qz_bound2(
            (FX_ONE - ref_index) as int * (FX_ONE as int),
            (FX_ONE + ref_index) as int,
            0x11_0000_0000_0000,
            FX_ONE as int,
        );
    }
    let q: i64 = div_fx128((FX_ONE - ref_index) as i128, (FX_ONE + ref_index) as i128);
    proof {
        lemma_fxmul_bound(q as int, q as int, 0x1100_0000, 0x1100_0000);
    }
    let r0: i64 = mul_fx(q as i128, q as i128) as i64;
    let x: i64 = FX_ONE - cosine;
    proof {
        lemma_fxmul_bound(x as int, x as int, 0x4100_0000, 0x4100_0000);
    }
    let x2: i64 = mul_fx(x as i128, x as i128) as i64;
    proof {
        lemma_fxmul_bound(x2 as int, x as int, 0x10_8100_0000, 0x4100_0000);
    }
    let x3: i64 = mul_fx(x2 as i128, x as i128) as i64;
    proof {
        lemma_fxmul_bound(x3 as int, x as int, 0x430_c100_0000, 0x4100_0000);
    }
    let x4: i64 = mul_fx(x3 as i128, x as i128) as i64;
    proof {
        lemma_fxmul_bound(x4 as int, x as int, 0x1_1061_0100_0000, 0x4100_0000);
    }
    let x5: i64 = mul_fx(x4 as i128, x as i128) as i64;
    proof {
        lemma_fxmul_bound(
            (FX_ONE - r0) as int,
            x5 as int,
            0x1_2200_0000,
            0x45_28a1_4100_0000,
        );
    }
    r0 + mul_fx((FX_ONE - r0) as i128, x5 as i128) as i64
}

/// Fixed-point division on `i64`, through the wide helper.
fn div_fx128(a: i128, b: i128) -> (r: i64)
    requires
        b != 0,
        -0x8000_0000_0000 <= a <= 0x8000_0000_0000,
        -0x8000_0000_0000 <= b <= 0x8000_0000_0000,
        crate::fx::absi(crate::fx::fxdiv(a as int, b as int)) <= 0x7fff_ffff_ffff_ffff,
    ensures
        r == fxdiv(a as int, b as int),
{
    crate::fx::div_fx(a, b) as i64
}

/// A diffuse surface: scattered rays leave in a random direction about
/// the normal, attenuated by the albedo.
#[derive(Copy, Clone, Debug)]
pub struct Lambertian {
    pub albedo: Vec3,
}

/// A specular surface with roughness: scattered rays mirror the
/// incoming ray, perturbed by `roughness` times a random point in the
/// unit sphere; a ray that would enter the surface is absorbed.
#[derive(Copy, Clone, Debug)]
pub struct Metal {
    pub albedo: Vec3,
    pub roughness: i64,
}

/// A clear refractive surface (glass): rays reflect or refract,
/// choosing randomly with the Fresnel reflectance of Schlick's
/// approximation.
#[derive(Copy, Clone, Debug)]
pub struct Dielectric {
    pub ref_idx: i64,
}

/// The closed set of materials a surface can have.
#[derive(Copy, Clone, Debug)]
pub enum Material {
    Lambertian(Lambertian),
    Metal(Metal),
    Dielectric(Dielectric),
}

/// The parameter ranges the scattering kernels support: colors in
/// `[0, 1]`, roughness in `[0, 1]`, refractive index in `[1/16, 16]`.
pub open spec fn material_wf(m: Material) -> bool {
    match m {
        Material::Lambertian(l) => {
            &&& v_bounded(l.albedo, FX_ONE as int)
        },
        Material::Metal(mt) => {
            &&& v_bounded(mt.albedo, FX_ONE as int)
            &&& 0 <= mt.roughness <= FX_ONE
        },
        Material::Dielectric(d) => {
            &&& 0x10_0000 <= d.ref_idx <= 0x1000_0000
        },
    }
}

/// What a Lambertian scatter produces: the attenuation, the scattered
/// ray and the generator state after the call.
pub open spec fn lambertian_scatter_spec(m: Lambertian, hit: HitInformation, s: u64) -> (
    Vec3,
    Ray,
    u64,
) {
    let pt = sphere_point(s, SPHERE_SAMPLE_TRIES as nat);
    let target = v_add(v_add(hit.hit_point, hit.hit_normal), pt.0);
    let dir = v_norm(v_sub(target, hit.hit_point));
    (m.albedo, Ray { origin: hit.hit_point, direction: dir }, pt.1)
}

impl Lambertian {
    pub fn scatter(
        &self,
        _incoming_ray: &Ray,
        hit_info: &HitInformation,
        attentuation: &mut Vec3,
        scattered_ray: &mut Ray,
        rng: &mut Rng64,
    ) -> (r: bool)
        requires
            crate::hit_in_domain(*hit_info),
        ensures
            r == true,
            (*final(attentuation), *final(scattered_ray), final(rng).state)
                == lambertian_scatter_spec(*self, *hit_info, old(rng).state),
            *final(attentuation) == self.albedo,
            final(scattered_ray).origin == hit_info.hit_point,
            v_bounded(final(scattered_ray).direction, FX_ONE as int),
    {
        let pt = random_point_in_unit_sphere(rng);
        let scattered_ray_target_point = hit_info.hit_point.add(hit_info.hit_normal).add(pt);
        let dir = scattered_ray_target_point.sub(hit_info.hit_point).normalize();
        scattered_ray.direction = dir;
        scattered_ray.origin = hit_info.hit_point;
        *attentuation = self.albedo;
        true
    }
}

/// What a metallic scatter produces: the attenuation, the scattered
/// ray, the generator state after the call, and whether the ray
/// survived (left the surface outward).
pub open spec fn metal_scatter_spec(m: Metal, ray: Ray, hit: HitInformation, s: u64) -> (
    Vec3,
    Ray,
    u64,
    bool,
) {
    let refl = reflect_spec(ray.direction, hit.hit_normal);
    let pt = sphere_point(s, SPHERE_SAMPLE_TRIES as nat);
    let dir = v_norm(v_add(refl, v_scale(m.roughness as int, pt.0)));
    (
        m.albedo,
        Ray { origin: hit.hit_point, direction: dir },
        pt.1,
        v_dot(dir, hit.hit_normal) > 0,
    )
}

impl Metal {
    pub fn scatter(
        &self,
        incoming_ray: &Ray,
        hit_info: &HitInformation,
        attentuation: &mut Vec3,
        scattered_ray: &mut Ray,
        rng: &mut Rng64,
    ) -> (r: bool)
        requires
            crate::hit_in_domain(*hit_info),
            v_bounded(incoming_ray.direction, VEC_ARG_MAX as int),
            0 <= self.roughness <= FX_ONE,
        ensures
            ({
                let sp = metal_scatter_spec(*self, *incoming_ray, *hit_info, old(rng).state);
                &&& *final(attentuation) == sp.0
                &&& *final(scattered_ray) == sp.1
                &&& final(rng).state == sp.2
                &&& r == sp.3
            }),
            final(scattered_ray).origin == hit_info.hit_point,
            v_bounded(final(scattered_ray).direction, FX_ONE as int),
    {
        let scattered_ray_target = reflect(&incoming_ray.direction, &hit_info.hit_normal);
        let pt = random_point_in_unit_sphere(rng);
        proof {
            lemma_fxmul_bound(self.roughness as int, pt.x as int, FX_ONE as int, FX_ONE as int);
            lemma_fxmul_bound(self.roughness as int, pt.y as int, FX_ONE as int, FX_ONE as int);
            lemma_fxmul_bound(self.roughness as int, pt.z as int, FX_ONE as int, FX_ONE as int);
        }
        let dir = scattered_ray_target.add(pt.scale(self.roughness)).normalize();
        scattered_ray.direction = dir;
        scattered_ray.origin = hit_info.hit_point;
        *attentuation = self.albedo;
        let d: i128 = dir.dot(&hit_info.hit_normal);
        d > 0
    }
}

/// What a dielectric scatter produces: the attenuation (always white),
/// the scattered ray and the generator state after the call.
pub open spec fn dielectric_scatter_spec(m: Dielectric, ray: Ray, hit: HitInformation, s: u64) -> (
    Vec3,
    Ray,
    u64,
) {
    let refl = reflect_spec(ray.direction, hit.hit_normal);
    let a = v_dot(v_norm(ray.direction), v_norm(hit.hit_normal));
    let outward = if a > 0 {
        v3(-hit.hit_normal.x, -hit.hit_normal.y, -hit.hit_normal.z)
    } else {
        hit.hit_normal
    };
    let eta = if a > 0 {
        m.ref_idx as int
    } else {
        fxdiv(FX_ONE as int, m.ref_idx as int)
    };
    let cosine = if a > 0 {
        fxmul(m.ref_idx as int, a)
    } else {
        -a
    };
    let has_refraction = refract_discr(ray.direction, outward, eta) > 0;
    let reflect_prob = if has_refraction {
        schlick_spec(cosine, m.ref_idx as int)
    } else {
        FX_ONE as int
    };
    let dir = if rng_unit(s) < reflect_prob {
        refl
    } else {
        refract_dir(ray.direction, outward, eta)
    };
    (v3(FX_ONE as int, FX_ONE as int, FX_ONE as int), Ray {
        origin: hit.hit_point,
        direction: dir,
    }, rng_next(s))
}

impl Dielectric {
    pub fn scatter(
        &self,
        incoming_ray: &Ray,
        hit_info: &HitInformation,
        attentuation: &mut Vec3,
        scattered_ray: &mut Ray,
        rng: &mut Rng64,
    ) -> (r: bool)
        requires
            crate::hit_in_domain(*hit_info),
            v_bounded(incoming_ray.direction, VEC_ARG_MAX as int),
            0x10_0000 <= self.ref_idx <= 0x1000_0000,
        ensures
            r == true,
            (*final(attentuation), *final(scattered_ray), final(rng).state)
                == dielectric_scatter_spec(*self, *incoming_ray, *hit_info, old(rng).state),
            final(scattered_ray).origin == hit_info.hit_point,
            v_bounded(final(scattered_ray).direction, crate::DIR_MAX as int),
    {
        *attentuation = Vec3::new(FX_ONE, FX_ONE, FX_ONE);
        let reflected_ray_dir = reflect(&incoming_ray.direction, &hit_info.hit_normal);
        let du = incoming_ray.direction.normalize();
        let nu = hit_info.hit_normal.normalize();
        proof {
            lemma_unit_dot_bound(du, nu);
        }
        let a: i64 = du.dot(&nu) as i64;
        let outward_normal: Vec3;
        let ni_over_nt: i64;
        let cosine: i64;
        if a > 0 {
            outward_normal = Vec3 {
                x: -hit_info.hit_normal.x,
                y: -hit_info.hit_normal.y,
                z: -hit_info.hit_normal.z,
            };
            ni_over_nt = self.ref_idx;
            proof {
                lemma_fxmul_bound(self.ref_idx as int, a as int, 0x1000_0000, 0x300_0000);
            }
            cosine = mul_fx(self.ref_idx as i128, a as i128) as i64;
        } else {
            outward_normal = hit_info.hit_normal;
            proof {
                crate::fx::lemma_qz_bound2(
                    (FX_ONE as int) * (FX_ONE as int),
                    self.ref_idx as int,
                    0x1_0000_0000_0000,
                    0x10_0000,
                );
            }
            ni_over_nt = div_fx128(FX_ONE as i128, self.ref_idx as i128);
            proof {
                vstd::arithmetic::div_mod::lemma_div_is_ordered_by_denominator(
                    0x1_0000_0000_0000,
                    self.ref_idx as int,
                    0x1000_0000,
                );
            }
            cosine = -a;
        }
        let mut refracted_ray_dir = Vec3::zero();
        let reflect_prob: i64;
        if refract(
            &incoming_ray.direction,
            &outward_normal,
            ni_over_nt,
            &mut refracted_ray_dir,
        ) {
            reflect_prob = schlick(cosine, self.ref_idx);
        } else {
            reflect_prob = FX_ONE;
        }
        let rnd: i64 = rng.next_unit();
        if rnd < reflect_prob {
            *scattered_ray = Ray { origin: hit_info.hit_point, direction: reflected_ray_dir };
        } else {
            *scattered_ray = Ray { origin: hit_info.hit_point, direction: refracted_ray_dir };
        }
        true
    }
}

/// What scattering on any material produces; the last component tells
/// whether the ray survived.
pub open spec fn material_scatter_spec(m: Material, ray: Ray, hit: HitInformation, s: u64) -> (
    Vec3,
    Ray,
    u64,
    bool,
) {
    match m {
        Material::Lambertian(l) => {
            let sp = lambertian_scatter_spec(l, hit, s);
            (sp.0, sp.1, sp.2, true)
        },
        Material::Metal(mt) => metal_scatter_spec(mt, ray, hit, s),
        Material::Dielectric(d) => {
            let sp = dielectric_scatter_spec(d, ray, hit, s);
            (sp.0, sp.1, sp.2, true)
        },
    }
}

impl Material {
    /// Scatters the incoming ray at the hit, writing the attenuation
    /// color and the scattered ray; returns whether the ray survived.
    #[verifier::rlimit(60)]
    pub fn scatter(
        &self,
        incoming_ray: &Ray,
        hit_info: &HitInformation,
        attentuation: &mut Vec3,
        scattered_ray: &mut Ray,
        rng: &mut Rng64,
    ) -> (r: bool)
        requires
            crate::hit_in_domain(*hit_info),
            v_bounded(incoming_ray.direction, VEC_ARG_MAX as int),
            material_wf(*self),
        ensures
            ({
                let sp = material_scatter_spec(*self, *incoming_ray, *hit_info, old(rng).state);
                &&& *final(attentuation) == sp.0
                &&& *final(scattered_ray) == sp.1
                &&& final(rng).state == sp.2
                &&& r == sp.3
            }),
            final(scattered_ray).origin == hit_info.hit_point,
            v_bounded(final(scattered_ray).direction, crate::DIR_MAX as int),
            r ==> v_bounded(*final(attentuation), FX_ONE as int),
    {
        match self {
            Material::Lambertian(l) => l.scatter(
                incoming_ray,
                hit_info,
                attentuation,
                scattered_ray,
                rng,
            ),
            Material::Metal(mt) => mt.scatter(
                incoming_ray,
                hit_info,
                attentuation,
                scattered_ray,
                rng,
            ),
            Material::Dielectric(d) => d.scatter(
                incoming_ray,
                hit_info,
                attentuation,
                scattered_ray,
                rng,
            ),
        }
    }
}

} // verus!
