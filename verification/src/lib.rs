//! A small Monte-Carlo ray tracer whose geometry kernels run on
//! fixed-point arithmetic, so that every intersection and shading
//! decision is verified exactly.
//!
//! All lengths and colors are signed 64-bit fixed-point numbers with
//! 24 fractional bits; [`fx::FX_ONE`] is the number one.

pub mod aabbox;
pub mod fx;
pub mod materials;
pub mod mesh;
pub mod ray;
pub mod scene;
pub mod sphere;
pub mod triangle;
pub mod vec3;

use fx::FX_ONE;
use materials::{material_scatter_spec, Rng64};
use ray::{ray_at, Ray};
use scene::{scene_best_hit, scene_wf, Scene};
use vec3::{v3, v_add, v_bounded, v_mul, v_scale, v_sub, Vec3};
use vstd::prelude::*;

verus! {

/// Coordinate bound for scene geometry (box corners, sphere centers and
/// radii, triangle corners): 2^35, that is 2048 world units.
pub const WORLD_MAX: i64 = 0x8_0000_0000;

/// Component bound for ray directions: 2^31, 128 world units.  Camera
/// rays and most scattered rays are normalized, so their components
/// stay at or below one unit; refracted directions can be a few units
/// long and stay far inside this bound.
pub const DIR_MAX: i64 = 0x8000_0000;

/// Component bound for ray origins: 2^44.  A primary ray starts inside
/// the scene ([`WORLD_MAX`]) and each of the at most [`MAX_DEPTH`]
/// bounces moves the origin by at most [`MAX_HIT_DIST`] units, which
/// stays well inside this budget.
pub const ORG_MAX: i64 = 0x1000_0000_0000;

/// Lower end of the hit-distance window: 0.001 world units, the
/// self-intersection epsilon that suppresses shadow acne.
pub const MIN_HIT_DIST: i64 = 16777;

/// Upper end of the hit-distance window: 2000 world units.
pub const MAX_HIT_DIST: i64 = 0x7_d000_0000;

/// Bounce budget of the path integrator.
pub const MAX_DEPTH: u32 = 50;

/// Component bound for hit points and hit normals: 2^46.  A hit point
/// lies within [`MAX_HIT_DIST`] of a ray origin ([`ORG_MAX`]); a sphere
/// normal is the difference of a hit point and a center.
pub const HIT_MAX: i64 = 0x4000_0000_0000;

/// What an intersection query reports: the surface point, the surface
/// normal there (not necessarily unit length), the material of the
/// surface, and the distance from the ray origin to the hit.
#[derive(Copy, Clone)]
pub struct HitInformation {
    pub hit_point: vec3::Vec3,
    pub hit_normal: vec3::Vec3,
    pub hit_material: materials::Material,
    pub dist_from_ray_orig: i64,
}

/// The coordinate domain of a hit record that the scattering kernels
/// support.
pub open spec fn hit_in_domain(h: HitInformation) -> bool {
    &&& vec3::v_bounded(h.hit_point, HIT_MAX as int)
    &&& vec3::v_bounded(h.hit_normal, HIT_MAX as int)
}

/// One half, in fixed point.
pub const FX_HALF: i64 = 0x80_0000;

/// Magnitude bound on the colors the integrator returns: 2^32 (colors
/// can exceed one when the sky gradient is extrapolated for steep
/// directions).
pub const COLOR_MAX: i64 = 0x1_0000_0000;

/// The origin budget of a ray entering the integrator at the given
/// remaining depth: every bounce moves the origin by at most
/// [`MAX_HIT_DIST`] per component.
pub open spec fn org_budget(depth: int) -> int {
    (ORG_MAX as int) - depth * ((MAX_HIT_DIST as int) + 1)
}

/// The integrator supports this ray at this depth.
pub open spec fn ray_in_budget(r: ray::Ray, depth: int) -> bool {
    &&& v_bounded(r.origin, org_budget(depth))
    &&& v_bounded(r.direction, DIR_MAX as int)
}

/// The sky: a vertical gradient between white and the background
/// color, `t = (dir_y + 1) / 2`, `t * white + (1 - t) * background`.
pub open spec fn spec_background(r: ray::Ray, bg_color: Vec3) -> Vec3 {
    let t = fx::fxmul(FX_HALF as int, r.direction.y + fx::FX_ONE);
    v_add(
        v_scale(t, v3(fx::FX_ONE as int, fx::FX_ONE as int, fx::FX_ONE as int)),
        v_scale(fx::FX_ONE - t, bg_color),
    )
}

/// The recursive radiance estimate, and the generator state after it:
/// a miss yields the sky gradient; a hit with depth left scatters and
/// recurses, multiplying by the attenuation; an absorbed ray or an
/// exhausted depth budget yields black.
#[verifier::opaque]
pub open spec fn spec_colorize(r: ray::Ray, s: Scene, bg_color: Vec3, depth: u32, st: u64) -> (
    Vec3,
    u64,
)
    decreases depth,
{
    let hit = scene_best_hit(s, r, MIN_HIT_DIST as int, MAX_HIT_DIST as int);
    match hit {
        Option::None => (spec_background(r, bg_color), st),
        Option::Some(h) => {
            if depth > 0 {
                let sc = material_scatter_spec(h.hit_material, r, h, st);
                if sc.3 {
                    let rec = spec_colorize(sc.1, s, bg_color, (depth - 1) as u32, sc.2);
                    (v_mul(sc.0, rec.0), rec.1)
                } else {
                    (v3(0, 0, 0), sc.2)
                }
            } else {
                (v3(0, 0, 0), st)
            }
        },
    }
}

/// Estimates the radiance along a ray: find the closest hit inside the
/// acne-free window, scatter off its material, and recurse until the
/// ray escapes to the sky, is absorbed, or the depth budget runs out.
#[verifier::rlimit(100)]
pub fn colorize(
    r: &ray::Ray,
    s: &Scene,
    bg_color: &Vec3,
    current_depth: u32,
    rng: &mut Rng64,
) -> (c: Vec3)
    requires
        scene_wf(*s),
        v_bounded(*bg_color, fx::FX_ONE as int),
        current_depth <= MAX_DEPTH,
        ray_in_budget(*r, current_depth as int),
    ensures
        c == spec_colorize(*r, *s, *bg_color, current_depth, old(rng).state).0,
        final(rng).state == spec_colorize(*r, *s, *bg_color, current_depth, old(rng).state).1,
        v_bounded(c, COLOR_MAX as int),
        scene_best_hit(*s, *r, MIN_HIT_DIST as int, MAX_HIT_DIST as int) is None ==> c
            == spec_background(*r, *bg_color),
        scene_best_hit(*s, *r, MIN_HIT_DIST as int, MAX_HIT_DIST as int) is Some && current_depth
            == 0 ==> c == v3(0, 0, 0),
    decreases current_depth,
{
    proof {
        reveal(spec_colorize);
    }
    let min_dist: i64 = MIN_HIT_DIST;
    let max_dist: i64 = MAX_HIT_DIST;
    let hit_opt = s.hit(r, min_dist, max_dist);
    if hit_opt.is_some() {
        let closest_hit_info = hit_opt.unwrap();
        let mut scattered_ray = ray::Ray::zero();
        let mut attentuation = Vec3::zero();
        if current_depth > 0 && closest_hit_info.hit_material.scatter(
            r,
            &closest_hit_info,
            &mut attentuation,
            &mut scattered_ray,
            rng,
        ) {
            let rec = colorize(&scattered_ray, s, bg_color, current_depth - 1, rng);
            proof {
                fx::lemma_fxmul_bound(
                    attentuation.x as int,
                    rec.x as int,
                    fx::FX_ONE as int,
                    COLOR_MAX as int,
                );
                fx::lemma_fxmul_bound(
                    attentuation.y as int,
                    rec.y as int,
                    fx::FX_ONE as int,
                    COLOR_MAX as int,
                );
                fx::lemma_fxmul_bound(
                    attentuation.z as int,
                    rec.z as int,
                    fx::FX_ONE as int,
                    COLOR_MAX as int,
                );
            }
            attentuation.mul(rec)
        } else {
            // the ray was completely attenuated
            Vec3::zero()
        }
    } else {
        background_color(r, bg_color)
    }
}

/// Computes the sky gradient for a ray that escaped the scene.
fn background_color(r: &ray::Ray, bg_color: &Vec3) -> (c: Vec3)
    requires
        v_bounded(r.direction, DIR_MAX as int),
        v_bounded(*bg_color, fx::FX_ONE as int),
    ensures
        c == spec_background(*r, *bg_color),
        v_bounded(c, COLOR_MAX as int),
{
    proof {
        fx::lemma_fxmul_bound(
            FX_HALF as int,
            r.direction.y + fx::FX_ONE,
            FX_HALF as int,
            0x8100_0000,
        );
    }
    let t: i64 = fx::mul_fx(FX_HALF as i128, (r.direction.y + FX_ONE) as i128) as i64;
    proof {
        fx::lemma_fxmul_bound(t as int, fx::FX_ONE as int, 0x4080_0000, fx::FX_ONE as int);
        fx::lemma_fxmul_bound(
            (fx::FX_ONE - t) as int,
            bg_color.x as int,
            0x4180_0000,
            fx::FX_ONE as int,
        );
        fx::lemma_fxmul_bound(
            (fx::FX_ONE - t) as int,
            bg_color.y as int,
            0x4180_0000,
            fx::FX_ONE as int,
        );
        fx::lemma_fxmul_bound(
            (fx::FX_ONE - t) as int,
            bg_color.z as int,
            0x4180_0000,
            fx::FX_ONE as int,
        );
    }
    let white = Vec3::new(FX_ONE, FX_ONE, FX_ONE);
    white.scale(t).add(bg_color.scale(FX_ONE - t))
}

/// The sum of the radiance estimates of the first `n` sample rays,
/// with the generator state threaded through.
pub open spec fn pixel_sum(s: Scene, rays: Seq<ray::Ray>, bg_color: Vec3, st: u64, n: int) -> (
    Vec3,
    u64,
)
    decreases n,
{
    if n <= 0 {
        (v3(0, 0, 0), st)
    } else {
        let p = pixel_sum(s, rays, bg_color, st, n - 1);
        let c = spec_colorize(rays[n - 1], s, bg_color, MAX_DEPTH, p.1);
        (v_add(p.0, c.0), c.1)
    }
}

/// The multi-sample estimate of one pixel: the average of the sample
/// radiances, in linear color space.
pub open spec fn spec_render_pixel(s: Scene, rays: Seq<ray::Ray>, bg_color: Vec3, st: u64) -> (
    Vec3,
    u64,
) {
    let acc = pixel_sum(s, rays, bg_color, st, rays.len() as int);
    let inv = fx::fxdiv(FX_ONE as int, rays.len() * (FX_ONE as int));
    (v_scale(inv, acc.0), acc.1)
}

/// A primary ray as the camera hands it over: origin inside the scene,
/// direction of unit size.
pub open spec fn camera_ray(r: ray::Ray) -> bool {
    &&& v_bounded(r.origin, WORLD_MAX as int)
    &&& v_bounded(r.direction, DIR_MAX as int)
}

/// Averages the radiance of `num_samples` consecutive sample rays
/// (starting at `start`) into one linear pixel color.
pub fn render_pixel(
    s: &Scene,
    rays: &Vec<ray::Ray>,
    start: usize,
    num_samples: usize,
    bg_color: &Vec3,
    rng: &mut Rng64,
) -> (c: Vec3)
    requires
        scene_wf(*s),
        v_bounded(*bg_color, fx::FX_ONE as int),
        1 <= num_samples <= 2048,
        start + num_samples <= rays@.len(),
        forall|i: int| start <= i < start + num_samples ==> camera_ray(#[trigger] rays@[i]),
    ensures
        ({
            let sub = rays@.subrange(start as int, start as int + num_samples as int);
            &&& c == spec_render_pixel(*s, sub, *bg_color, old(rng).state).0
            &&& final(rng).state == spec_render_pixel(*s, sub, *bg_color, old(rng).state).1
        }),
        v_bounded(c, 0x800_0000_0000),
{
    let ghost sub = rays@.subrange(start as int, start as int + num_samples as int);
    let n = rays.len();
    let mut color = Vec3::zero();
    let mut k: usize = 0;
    while k < num_samples
        invariant
            0 <= k <= num_samples <= 2048,
            n == rays@.len(),
            start + num_samples <= n,
            scene_wf(*s),
            v_bounded(*bg_color, fx::FX_ONE as int),
            forall|i: int| start <= i < start + num_samples ==> camera_ray(#[trigger] rays@[i]),
            sub == rays@.subrange(start as int, start as int + num_samples as int),
            (color, rng.state) == pixel_sum(*s, sub, *bg_color, old(rng).state, k as int),
            v_bounded(color, k * (COLOR_MAX as int)),
        decreases num_samples - k,
    {
        proof {
            assert(sub[k as int] == rays@[start + k]);
        }
        let r = rays[start + k];
        let sample = colorize(&r, s, bg_color, MAX_DEPTH, rng);
        color.add_assign(sample);
        k = k + 1;
    }
    proof {
        fx::lemma_qz_bound2(
            (FX_ONE as int) * (FX_ONE as int),
            num_samples as int * (FX_ONE as int),
            0x1_0000_0000_0000,
            FX_ONE as int,
        );
        let inv_g = fx::fxdiv(FX_ONE as int, num_samples as int * (FX_ONE as int));
        fx::lemma_fxmul_bound(inv_g, color.x as int, FX_ONE as int, 0x800_0000_0000);
        fx::lemma_fxmul_bound(inv_g, color.y as int, FX_ONE as int, 0x800_0000_0000);
        fx::lemma_fxmul_bound(inv_g, color.z as int, FX_ONE as int, 0x800_0000_0000);
    }
    let inv: i64 = fx::div_fx(FX_ONE as i128, (num_samples as i128) * (FX_ONE as i128)) as i64;
    color.scale(inv)
}

/// Gamma-encodes and quantizes one linear color component to 8 bits:
/// the square root, scaled by 256 and saturated.
pub open spec fn spec_quantize(c: int) -> u8 {
    let g = fx::fxsqrt(c);
    let q = g / 0x1_0000;
    if q > 255 {
        255u8
    } else {
        q as u8
    }
}

/// Quantizes one linear color component to its 8-bit display value.
pub fn quantize_component(c: i64) -> (r: u8)
    requires
        -0x800_0000_0000 <= c <= 0x800_0000_0000,
    ensures
        r == spec_quantize(c as int),
{
    let g: i64 = fx::sqrt_fx(c as i128) as i64;
    let q: i64 = g / 0x1_0000;
    proof {
        vstd::arithmetic::div_mod::lemma_div_pos_is_pos(g as int, 0x1_0000);
    }
    if q > 255 {
        255
    } else {
        q as u8
    }
}

/// The background color of a render: a bluish sky.
pub open spec fn spec_bg_color() -> Vec3 {
    v3(838860, 838860, 13421772)
}

/// The flat row of gamma-encoded bytes of the first `k` pixels (three
/// bytes per pixel), with the generator state threaded through.
pub open spec fn spec_render_scene(
    s: Scene,
    rays: Seq<ray::Ray>,
    samples: int,
    st: u64,
    k: int,
) -> (Seq<u8>, u64)
    decreases k,
{
    if k <= 0 {
        (Seq::empty(), st)
    } else {
        let p = spec_render_scene(s, rays, samples, st, k - 1);
        let px = spec_render_pixel(
            s,
            rays.subrange((k - 1) * samples, k * samples),
            spec_bg_color(),
            p.1,
        );
        (
            p.0.push(spec_quantize(px.0.x as int)).push(spec_quantize(px.0.y as int)).push(
                spec_quantize(px.0.z as int),
            ),
            px.1,
        )
    }
}

/// Renders a frame: for each pixel, average `num_samples` radiance
/// estimates along the given primary rays (grouped per pixel, in
/// order), then gamma-encode to three bytes per pixel.  With a fixed
/// generator seed the output is a function of the scene and the rays
/// alone, so re-running a render reproduces it bit for bit.
pub fn render_scene(num_samples: usize, rays: &Vec<ray::Ray>, s: &Scene, rng: &mut Rng64) -> (out:
    Vec<u8>)
    requires
        scene_wf(*s),
        1 <= num_samples <= 2048,
        (rays@.len() as int) % (num_samples as int) == 0,
        forall|i: int| 0 <= i < rays@.len() ==> camera_ray(#[trigger] rays@[i]),
    ensures
        ({
            let npix = rays@.len() as int / (num_samples as int);
            &&& out@ == spec_render_scene(
                *s,
                rays@,
                num_samples as int,
                old(rng).state,
                npix,
            ).0
            &&& final(rng).state == spec_render_scene(
                *s,
                rays@,
                num_samples as int,
                old(rng).state,
                npix,
            ).1
            &&& out@.len() == 3 * npix
        }),
{
    let bg_color = Vec3 { x: 838860, y: 838860, z: 13421772 };
    let n = rays.len();
    let npix: usize = n / num_samples;
    proof {
        vstd::arithmetic::div_mod::lemma_fundamental_div_mod(n as int, num_samples as int);
    }
    let mut out: Vec<u8> = Vec::new();
    let mut px: usize = 0;
    let mut start: usize = 0;
    while px < npix
        invariant
            0 <= px <= npix,
            n == rays@.len(),
            npix == n as int / (num_samples as int),
            n as int == (num_samples as int) * (npix as int),
            start == px * num_samples,
            1 <= num_samples <= 2048,
            scene_wf(*s),
            bg_color == spec_bg_color(),
            forall|i: int| 0 <= i < rays@.len() ==> camera_ray(#[trigger] rays@[i]),
            out@.len() == 3 * px,
            (out@, rng.state) == spec_render_scene(
                *s,
                rays@,
                num_samples as int,
                old(rng).state,
                px as int,
            ),
        decreases npix - px,
    {
        proof {
            vstd::arithmetic::mul::lemma_mul_inequality(
                px as int + 1,
                npix as int,
                num_samples as int,
            );
            assert((px as int + 1) * (num_samples as int) == px as int * (num_samples as int)
                + num_samples as int) by (nonlinear_arith);
            assert((npix as int) * (num_samples as int) == (num_samples as int) * (npix as int))
                by (nonlinear_arith);
        }
        let c = render_pixel(s, rays, start, num_samples, &bg_color, rng);
        out.push(quantize_component(c.x));
        out.push(quantize_component(c.y));
        out.push(quantize_component(c.z));
        px = px + 1;
        start = start + num_samples;
    }
    out
}

} // verus!
