//! Ray-triangle intersection: the Moeller-Trumbore solver, as a scalar
//! routine and as batched kernels over structure-of-arrays data.
//!
//! Three code paths compute the batched scan: an eight-wide lane path,
//! a four-wide lane path, and a scalar fallback.  All three carry the
//! same contract — the result equals [`soa_result`] — so their
//! agreement on every input is part of what is verified here, not a
//! statistical observation.

use crate::fx::{
    absi, fxdiv, fxmul, lemma_fxmul_bound, lemma_mul_bounds, lemma_qz_bound2, mul_fx, qz, FX_ONE,
};
use crate::materials::Material;
use crate::ray::{ray_at, ray_in_domain, Ray};
use crate::vec3::{v3, v_bounded, v_cross, v_dot, v_len, v_norm, v_sub, Vec3};
use crate::HitInformation;
use vstd::prelude::*;

verus! {

/// The lane value standing for "no intersection": -1000, well below
/// any accepted ray parameter.
pub const MISS_SENTINEL: i64 = -16777216000;

/// Initial running minimum of the candidate scans: one million.
pub const SCAN_START: i64 = 0xf42_4000_0000;

/// Upper gate of the candidate scans: one hundred thousand.
pub const SCAN_GATE: i64 = 0x186_a000_0000;

/// A single triangle with its precomputed edges and unit normal.
/// Corner convention: counter clockwise.
pub struct BasicTriangle {
    pub corners: [Vec3; 3],
    pub normal: Vec3,
    pub edges: [Vec3; 2],
    pub material: Material,
}

/// The unit normal of a counter-clockwise triangle:
/// `normalize((B - A) x (C - A))`.
pub open spec fn triangle_normal(a: Vec3, b: Vec3, c: Vec3) -> Vec3 {
    v_norm(v_cross(v_sub(b, a), v_sub(c, a)))
}

/// Dot product of two lanes of components.
pub open spec fn fxdot3(ax: int, ay: int, az: int, bx: int, by: int, bz: int) -> int {
    fxmul(ax, bx) + fxmul(ay, by) + fxmul(az, bz)
}

pub open spec fn fxcross_x(ay: int, az: int, by: int, bz: int) -> int {
    fxmul(ay, bz) - fxmul(az, by)
}

pub open spec fn fxcross_y(ax: int, az: int, bx: int, bz: int) -> int {
    fxmul(az, bx) - fxmul(ax, bz)
}

pub open spec fn fxcross_z(ax: int, ay: int, bx: int, by: int) -> int {
    fxmul(ax, by) - fxmul(ay, bx)
}

/// The tail of the Moeller-Trumbore solver, once the four dot products
/// are known: reject parallel rays (`|a| < eps`), barycentric
/// coordinates outside the triangle, and ray parameters outside the
/// `(eps, maxd)` window; otherwise the candidate is the parameter `t`.
pub open spec fn mt_finish_spec(a: int, sh: int, dq: int, ebq: int, eps: int, maxd: int) -> int {
    if -eps < a < eps {
        MISS_SENTINEL as int
    } else {
        let f = fxdiv(FX_ONE as int, a);
        let u = qz(f * sh, FX_ONE as int);
        if u < 0 || u > FX_ONE {
            MISS_SENTINEL as int
        } else {
            let v = qz(f * dq, FX_ONE as int);
            if v < 0 || u + v > FX_ONE {
                MISS_SENTINEL as int
            } else {
                let t = qz(f * ebq, FX_ONE as int);
                if t > eps && t < maxd {
                    t
                } else {
                    MISS_SENTINEL as int
                }
            }
        }
    }
}

/// The candidate ray parameter of one triangle (or the miss sentinel):
/// `h = d x e2`, `a = e1 . h`, `s = o - A`, `u = (s . h) / a`,
/// `q = s x e1`, `v = (d . q) / a`, `t = (e2 . q) / a`.
pub open spec fn mt_candidate(va: Vec3, ea: Vec3, eb: Vec3, ray: Ray, eps: int, maxd: int) -> int {
    let h = v_cross(ray.direction, eb);
    let s = v_sub(ray.origin, va);
    let q = v_cross(s, ea);
    mt_finish_spec(
        v_dot(ea, h),
        v_dot(s, h),
        v_dot(ray.direction, q),
        v_dot(eb, q),
        eps,
        maxd,
    )
}

/// The lane `i` of a structure-of-arrays mesh, as a vector.
pub open spec fn lane3(xs: Seq<i64>, ys: Seq<i64>, zs: Seq<i64>, i: int) -> Vec3 {
    v3(xs[i] as int, ys[i] as int, zs[i] as int)
}

/// The candidate of triangle `i` of a structure-of-arrays mesh.
pub open spec fn soa_candidate(
    vertices: [[Seq<i64>; 3]; 3],
    edges: [[Seq<i64>; 3]; 2],
    ray: Ray,
    eps: int,
    maxd: int,
    i: int,
) -> int {
    mt_candidate(
        lane3(vertices[0][0], vertices[0][1], vertices[0][2], i),
        lane3(edges[0][0], edges[0][1], edges[0][2], i),
        lane3(edges[1][0], edges[1][1], edges[1][2], i),
        ray,
        eps,
        maxd,
    )
}

/// The running minimum scan over the first `n` candidates: keep the
/// smallest candidate above `eps`, skipping padding lanes; ties go to
/// the earlier index.
pub open spec fn scan_min(cand: Seq<i64>, pad: Seq<bool>, eps: int, n: int) -> (int, int)
    decreases n,
{
    if n <= 0 {
        (SCAN_START as int, 0)
    } else {
        let p = scan_min(cand, pad, eps, n - 1);
        if cand[n - 1] > eps && cand[n - 1] < p.0 && !pad[n - 1] {
            (cand[n - 1] as int, n - 1)
        } else {
            p
        }
    }
}

/// What the batched scan reports: the nearest accepted candidate and
/// its index, or nothing.
pub open spec fn scan_result(cand: Seq<i64>, pad: Seq<bool>, eps: int, gate: int) -> (
    Option<i64>,
    Option<usize>,
) {
    let m = scan_min(cand, pad, eps, cand.len() as int);
    if m.0 > eps && m.0 < gate {
        (Option::Some(m.0 as i64), Option::Some(m.1 as usize))
    } else {
        (Option::None, Option::None)
    }
}

/// The sequence of all candidates of a mesh.
pub open spec fn soa_candidates(
    vertices: [[Seq<i64>; 3]; 3],
    edges: [[Seq<i64>; 3]; 2],
    ray: Ray,
    eps: int,
    maxd: int,
    n: nat,
) -> Seq<i64> {
    Seq::new(n, |i: int| soa_candidate(vertices, edges, ray, eps, maxd, i) as i64)
}

/// What all three batched kernels return: the scan over the mesh's
/// candidates, gated by `maxd`.
pub open spec fn soa_result(
    vertices: [[Seq<i64>; 3]; 3],
    edges: [[Seq<i64>; 3]; 2],
    pad: Seq<bool>,
    ray: Ray,
    eps: int,
    maxd: int,
) -> (Option<i64>, Option<usize>) {
    scan_result(
        soa_candidates(vertices, edges, ray, eps, maxd, pad.len()),
        pad,
        eps,
        maxd,
    )
}

/// The views of the nine coordinate arrays of a mesh.
pub open spec fn soa_views(vertices: &[[Vec<i64>; 3]; 3], edges: &[[Vec<i64>; 3]; 2]) -> (
    [[Seq<i64>; 3]; 3],
    [[Seq<i64>; 3]; 2],
) {
    (
        [
            [vertices[0][0]@, vertices[0][1]@, vertices[0][2]@],
            [vertices[1][0]@, vertices[1][1]@, vertices[1][2]@],
            [vertices[2][0]@, vertices[2][1]@, vertices[2][2]@],
        ],
        [
            [edges[0][0]@, edges[0][1]@, edges[0][2]@],
            [edges[1][0]@, edges[1][1]@, edges[1][2]@],
        ],
    )
}

/// One coordinate array of length `n` with all entries within `m`.
pub open spec fn coord_arr_wf(s: Seq<i64>, n: int, m: int) -> bool {
    &&& s.len() == n
    &&& forall|i: int| 0 <= i < n ==> -m <= #[trigger] s[i] <= m
}

/// All nine arrays have length `n`, vertex coordinates within the scene
/// domain and edge coordinates within twice of it.
pub open spec fn soa_wf(vertices: [[Seq<i64>; 3]; 3], edges: [[Seq<i64>; 3]; 2], n: int) -> bool {
    let w = crate::WORLD_MAX as int;
    &&& coord_arr_wf(vertices[0][0], n, w)
    &&& coord_arr_wf(vertices[0][1], n, w)
    &&& coord_arr_wf(vertices[0][2], n, w)
    &&& coord_arr_wf(vertices[1][0], n, w)
    &&& coord_arr_wf(vertices[1][1], n, w)
    &&& coord_arr_wf(vertices[1][2], n, w)
    &&& coord_arr_wf(vertices[2][0], n, w)
    &&& coord_arr_wf(vertices[2][1], n, w)
    &&& coord_arr_wf(vertices[2][2], n, w)
    &&& coord_arr_wf(edges[0][0], n, 2 * w)
    &&& coord_arr_wf(edges[0][1], n, 2 * w)
    &&& coord_arr_wf(edges[0][2], n, 2 * w)
    &&& coord_arr_wf(edges[1][0], n, 2 * w)
    &&& coord_arr_wf(edges[1][1], n, 2 * w)
    &&& coord_arr_wf(edges[1][2], n, 2 * w)
}

/// One fixed-point product of lane components, on wide intermediates.
fn lane_mul(a: i128, b: i128) -> (r: i128)
    requires
        -0x1000_0000_0000_0000 <= a <= 0x1000_0000_0000_0000,
        -0x1000_0000_0000_0000 <= b <= 0x1000_0000_0000_0000,
    ensures
        r == fxmul(a as int, b as int),
        -0x1_0000_0000_0000_0000_0000_0000 <= r <= 0x1_0000_0000_0000_0000_0000_0000,
{
    proof {
        lemma_fxmul_bound(a as int, b as int, 0x1000_0000_0000_0000, 0x1000_0000_0000_0000);
    }
    mul_fx(a, b)
}

/// One lane of the dot product.
fn lane_dot(ax: i128, ay: i128, az: i128, bx: i128, by: i128, bz: i128) -> (r: i128)
    requires
        -0x1000_0000_0000_0000 <= ax <= 0x1000_0000_0000_0000,
        -0x1000_0000_0000_0000 <= ay <= 0x1000_0000_0000_0000,
        -0x1000_0000_0000_0000 <= az <= 0x1000_0000_0000_0000,
        -0x1000_0000_0000_0000 <= bx <= 0x1000_0000_0000_0000,
        -0x1000_0000_0000_0000 <= by <= 0x1000_0000_0000_0000,
        -0x1000_0000_0000_0000 <= bz <= 0x1000_0000_0000_0000,
    ensures
        r == fxdot3(ax as int, ay as int, az as int, bx as int, by as int, bz as int),
{
    lane_mul(ax, bx) + lane_mul(ay, by) + lane_mul(az, bz)
}

/// All lanes within magnitude `m`.
pub open spec fn lanes_bounded(v: Seq<i128>, m: int) -> bool {
    forall|i: int| 0 <= i < v.len() ==> -m <= #[trigger] v[i] <= m
}

/// Lane bound supported by the batched helpers: 2^60.
pub const LANE_ARG_MAX: i128 = 0x1000_0000_0000_0000;

/// The dot product of `n` component lanes at once: `r[i]` is the dot
/// product of the vectors `(a_x[i], a_y[i], a_z[i])` and
/// `(b_x[i], b_y[i], b_z[i])`.
pub fn avx_dot_product(
    a_x: &Vec<i128>,
    a_y: &Vec<i128>,
    a_z: &Vec<i128>,
    b_x: &Vec<i128>,
    b_y: &Vec<i128>,
    b_z: &Vec<i128>,
) -> (r: Vec<i128>)
    requires
        a_x@.len() == a_y@.len() == a_z@.len() == b_x@.len() == b_y@.len() == b_z@.len(),
        lanes_bounded(a_x@, LANE_ARG_MAX as int),
        lanes_bounded(a_y@, LANE_ARG_MAX as int),
        lanes_bounded(a_z@, LANE_ARG_MAX as int),
        lanes_bounded(b_x@, LANE_ARG_MAX as int),
        lanes_bounded(b_y@, LANE_ARG_MAX as int),
        lanes_bounded(b_z@, LANE_ARG_MAX as int),
    ensures
        r@.len() == a_x@.len(),
        forall|i: int|
            0 <= i < r@.len() ==> #[trigger] r@[i] == fxdot3(
                a_x@[i] as int,
                a_y@[i] as int,
                a_z@[i] as int,
                b_x@[i] as int,
                b_y@[i] as int,
                b_z@[i] as int,
            ),
{
    let n = a_x.len();
    let mut r: Vec<i128> = Vec::new();
    let mut i: usize = 0;
    while i < n
        invariant
            0 <= i <= n,
            n == a_x@.len() == a_y@.len() == a_z@.len() == b_x@.len() == b_y@.len() == b_z@.len(),
            lanes_bounded(a_x@, LANE_ARG_MAX as int),
            lanes_bounded(a_y@, LANE_ARG_MAX as int),
            lanes_bounded(a_z@, LANE_ARG_MAX as int),
            lanes_bounded(b_x@, LANE_ARG_MAX as int),
            lanes_bounded(b_y@, LANE_ARG_MAX as int),
            lanes_bounded(b_z@, LANE_ARG_MAX as int),
            r@.len() == i,
            forall|j: int|
                0 <= j < i ==> #[trigger] r@[j] == fxdot3(
                    a_x@[j] as int,
                    a_y@[j] as int,
                    a_z@[j] as int,
                    b_x@[j] as int,
                    b_y@[j] as int,
                    b_z@[j] as int,
                ),
        decreases n - i,
    {
        let d = lane_dot(a_x[i], a_y[i], a_z[i], b_x[i], b_y[i], b_z[i]);
        r.push(d);
        i = i + 1;
    }
    r
}

/// The cross product of `n` component lanes at once; the three returned
/// vectors are the x, y and z component lanes of the per-lane cross
/// products.
pub fn avx_cross_product(
    a_x: &Vec<i128>,
    a_y: &Vec<i128>,
    a_z: &Vec<i128>,
    b_x: &Vec<i128>,
    b_y: &Vec<i128>,
    b_z: &Vec<i128>,
) -> (r: (Vec<i128>, Vec<i128>, Vec<i128>))
    requires
        a_x@.len() == a_y@.len() == a_z@.len() == b_x@.len() == b_y@.len() == b_z@.len(),
        lanes_bounded(a_x@, LANE_ARG_MAX as int),
        lanes_bounded(a_y@, LANE_ARG_MAX as int),
        lanes_bounded(a_z@, LANE_ARG_MAX as int),
        lanes_bounded(b_x@, LANE_ARG_MAX as int),
        lanes_bounded(b_y@, LANE_ARG_MAX as int),
        lanes_bounded(b_z@, LANE_ARG_MAX as int),
    ensures
        r.0@.len() == a_x@.len() && r.1@.len() == a_x@.len() && r.2@.len() == a_x@.len(),
        forall|i: int|
            0 <= i < a_x@.len() ==> #[trigger] r.0@[i] == fxcross_x(
                a_y@[i] as int,
                a_z@[i] as int,
                b_y@[i] as int,
                b_z@[i] as int,
            ),
        forall|i: int|
            0 <= i < a_x@.len() ==> #[trigger] r.1@[i] == fxcross_y(
                a_x@[i] as int,
                a_z@[i] as int,
                b_x@[i] as int,
                b_z@[i] as int,
            ),
        forall|i: int|
            0 <= i < a_x@.len() ==> #[trigger] r.2@[i] == fxcross_z(
                a_x@[i] as int,
                a_y@[i] as int,
                b_x@[i] as int,
                b_y@[i] as int,
            ),
{
    let n = a_x.len();
    let mut c_x: Vec<i128> = Vec::new();
    let mut c_y: Vec<i128> = Vec::new();
    let mut c_z: Vec<i128> = Vec::new();
    let mut i: usize = 0;
    while i < n
        invariant
            0 <= i <= n,
            n == a_x@.len() == a_y@.len() == a_z@.len() == b_x@.len() == b_y@.len() == b_z@.len(),
            lanes_bounded(a_x@, LANE_ARG_MAX as int),
            lanes_bounded(a_y@, LANE_ARG_MAX as int),
            lanes_bounded(a_z@, LANE_ARG_MAX as int),
            lanes_bounded(b_x@, LANE_ARG_MAX as int),
            lanes_bounded(b_y@, LANE_ARG_MAX as int),
            lanes_bounded(b_z@, LANE_ARG_MAX as int),
            c_x@.len() == i && c_y@.len() == i && c_z@.len() == i,
            forall|j: int|
                0 <= j < i ==> #[trigger] c_x@[j] == fxcross_x(
                    a_y@[j] as int,
                    a_z@[j] as int,
                    b_y@[j] as int,
                    b_z@[j] as int,
                ),
            forall|j: int|
                0 <= j < i ==> #[trigger] c_y@[j] == fxcross_y(
                    a_x@[j] as int,
                    a_z@[j] as int,
                    b_x@[j] as int,
                    b_z@[j] as int,
                ),
            forall|j: int|
                0 <= j < i ==> #[trigger] c_z@[j] == fxcross_z(
                    a_x@[j] as int,
                    a_y@[j] as int,
                    b_x@[j] as int,
                    b_y@[j] as int,
                ),
        decreases n - i,
    {
        let x = lane_mul(a_y[i], b_z[i]) - lane_mul(a_z[i], b_y[i]);
        let y = lane_mul(a_z[i], b_x[i]) - lane_mul(a_x[i], b_z[i]);
        let z = lane_mul(a_x[i], b_y[i]) - lane_mul(a_y[i], b_x[i]);
        c_x.push(x);
        c_y.push(y);
        c_z.push(z);
        i = i + 1;
    }
    (c_x, c_y, c_z)
}

/// The four-wide lane dot product (the same contract as the eight-wide
/// one; the kernels call it on four lanes at a time).
pub fn sse_dot_product(
    a_x: &Vec<i128>,
    a_y: &Vec<i128>,
    a_z: &Vec<i128>,
    b_x: &Vec<i128>,
    b_y: &Vec<i128>,
    b_z: &Vec<i128>,
) -> (r: Vec<i128>)
    requires
        a_x@.len() == a_y@.len() == a_z@.len() == b_x@.len() == b_y@.len() == b_z@.len(),
        lanes_bounded(a_x@, LANE_ARG_MAX as int),
        lanes_bounded(a_y@, LANE_ARG_MAX as int),
        lanes_bounded(a_z@, LANE_ARG_MAX as int),
        lanes_bounded(b_x@, LANE_ARG_MAX as int),
        lanes_bounded(b_y@, LANE_ARG_MAX as int),
        lanes_bounded(b_z@, LANE_ARG_MAX as int),
    ensures
        r@.len() == a_x@.len(),
        forall|i: int|
            0 <= i < r@.len() ==> #[trigger] r@[i] == fxdot3(
                a_x@[i] as int,
                a_y@[i] as int,
                a_z@[i] as int,
                b_x@[i] as int,
                b_y@[i] as int,
                b_z@[i] as int,
            ),
{
    avx_dot_product(a_x, a_y, a_z, b_x, b_y, b_z)
}

/// The four-wide lane cross product.
pub fn sse_cross_product(
    a_x: &Vec<i128>,
    a_y: &Vec<i128>,
    a_z: &Vec<i128>,
    b_x: &Vec<i128>,
    b_y: &Vec<i128>,
    b_z: &Vec<i128>,
) -> (r: (Vec<i128>, Vec<i128>, Vec<i128>))
    requires
        a_x@.len() == a_y@.len() == a_z@.len() == b_x@.len() == b_y@.len() == b_z@.len(),
        lanes_bounded(a_x@, LANE_ARG_MAX as int),
        lanes_bounded(a_y@, LANE_ARG_MAX as int),
        lanes_bounded(a_z@, LANE_ARG_MAX as int),
        lanes_bounded(b_x@, LANE_ARG_MAX as int),
        lanes_bounded(b_y@, LANE_ARG_MAX as int),
        lanes_bounded(b_z@, LANE_ARG_MAX as int),
    ensures
        r.0@.len() == a_x@.len() && r.1@.len() == a_x@.len() && r.2@.len() == a_x@.len(),
        forall|i: int|
            0 <= i < a_x@.len() ==> #[trigger] r.0@[i] == fxcross_x(
                a_y@[i] as int,
                a_z@[i] as int,
                b_y@[i] as int,
                b_z@[i] as int,
            ),
        forall|i: int|
            0 <= i < a_x@.len() ==> #[trigger] r.1@[i] == fxcross_y(
                a_x@[i] as int,
                a_z@[i] as int,
                b_x@[i] as int,
                b_z@[i] as int,
            ),
        forall|i: int|
            0 <= i < a_x@.len() ==> #[trigger] r.2@[i] == fxcross_z(
                a_x@[i] as int,
                a_y@[i] as int,
                b_x@[i] as int,
                b_y@[i] as int,
            ),
{
    avx_cross_product(a_x, a_y, a_z, b_x, b_y, b_z)
}

/// The Moeller-Trumbore tail on one lane's dot products.
fn mt_finish(a: i128, sh: i128, dq: i128, ebq: i128, eps: i64, maxd: i64) -> (c: i64)
    requires
        1 <= eps,
        -0x1000_0000_0000_0000 <= a <= 0x1000_0000_0000_0000,
        -0x40_0000_0000_0000_0000 <= sh <= 0x40_0000_0000_0000_0000,
        -0x40_0000_0000_0000_0000 <= dq <= 0x40_0000_0000_0000_0000,
        -0x1000_0000_0000_0000_0000 <= ebq <= 0x1000_0000_0000_0000_0000,
    ensures
        c == mt_finish_spec(a as int, sh as int, dq as int, ebq as int, eps as int, maxd as int),
        c == MISS_SENTINEL || eps < c < maxd,
{
    if -(eps as i128) < a && a < eps as i128 {
        return MISS_SENTINEL;
    }
    proof {
        lemma_qz_bound2(
            (FX_ONE as int) * (FX_ONE as int),
            a as int,
            0x1_0000_0000_0000,
            1,
        );
    }
    let f: i128 = crate::fx::div_fx(FX_ONE as i128, a);
    proof {
        lemma_mul_bounds(f as int, sh as int, 0x1_0000_0000_0000, 0x40_0000_0000_0000_0000);
        lemma_mul_bounds(f as int, dq as int, 0x1_0000_0000_0000, 0x40_0000_0000_0000_0000);
        lemma_mul_bounds(f as int, ebq as int, 0x1_0000_0000_0000, 0x1000_0000_0000_0000_0000);
    }
    let u: i128 = crate::fx::div_qz(f * sh, FX_ONE as i128);
    if u < 0 || u > FX_ONE as i128 {
        return MISS_SENTINEL;
    }
    let v: i128 = crate::fx::div_qz(f * dq, FX_ONE as i128);
    if v < 0 || u + v > FX_ONE as i128 {
        return MISS_SENTINEL;
    }
    let t: i128 = crate::fx::div_qz(f * ebq, FX_ONE as i128);
    if t > eps as i128 && t < maxd as i128 {
        t as i64
    } else {
        MISS_SENTINEL
    }
}

/// Component bounds of the intermediate quantities of one lane.
proof fn lemma_mt_lane_bounds(va: Vec3, ea: Vec3, eb: Vec3, ray: Ray)
    requires
        v_bounded(va, crate::WORLD_MAX as int),
        v_bounded(ea, 2 * (crate::WORLD_MAX as int)),
        v_bounded(eb, 2 * (crate::WORLD_MAX as int)),
        ray_in_domain(ray),
    ensures
        ({
            let d = ray.direction;
            let s = v_sub(ray.origin, va);
            let h = v_cross(d, eb);
            let q = v_cross(s, ea);
            &&& -0x1000_0000_0000 <= fxcross_x(d.y as int, d.z as int, eb.y as int, eb.z as int)
                <= 0x1000_0000_0000
            &&& -0x1000_0000_0000 <= fxcross_y(d.x as int, d.z as int, eb.x as int, eb.z as int)
                <= 0x1000_0000_0000
            &&& -0x1000_0000_0000 <= fxcross_z(d.x as int, d.y as int, eb.x as int, eb.y as int)
                <= 0x1000_0000_0000
            &&& -0x400_0000_0000_0000 <= fxcross_x(s.y as int, s.z as int, ea.y as int, ea.z as int)
                <= 0x400_0000_0000_0000
            &&& -0x400_0000_0000_0000 <= fxcross_y(s.x as int, s.z as int, ea.x as int, ea.z as int)
                <= 0x400_0000_0000_0000
            &&& -0x400_0000_0000_0000 <= fxcross_z(s.x as int, s.y as int, ea.x as int, ea.y as int)
                <= 0x400_0000_0000_0000
            &&& v_bounded(s, 0x2000_0000_0000)
            &&& -0x1000_0000_0000_0000 <= v_dot(ea, h) <= 0x1000_0000_0000_0000
            &&& -0x40_0000_0000_0000_0000 <= v_dot(s, h) <= 0x40_0000_0000_0000_0000
            &&& -0x40_0000_0000_0000_0000 <= v_dot(d, q) <= 0x40_0000_0000_0000_0000
            &&& -0x1000_0000_0000_0000_0000 <= v_dot(eb, q) <= 0x1000_0000_0000_0000_0000
        }),
{
    let dm = crate::DIR_MAX as int;
    let em = 2 * (crate::WORLD_MAX as int);
    let sm = 0x2000_0000_0000int;
    let hm = 0x1000_0000_0000int;
    let qm = 0x400_0000_0000_0000int;
    let d = ray.direction;
    let s = v_sub(ray.origin, va);
    lemma_fxmul_bound(d.y as int, eb.z as int, dm, em);
    lemma_fxmul_bound(d.z as int, eb.y as int, dm, em);
    lemma_fxmul_bound(d.z as int, eb.x as int, dm, em);
    lemma_fxmul_bound(d.x as int, eb.z as int, dm, em);
    lemma_fxmul_bound(d.x as int, eb.y as int, dm, em);
    lemma_fxmul_bound(d.y as int, eb.x as int, dm, em);
    let h = v_cross(d, eb);
    lemma_fxmul_bound(ea.x as int, h.x as int, em, hm);
    lemma_fxmul_bound(ea.y as int, h.y as int, em, hm);
    lemma_fxmul_bound(ea.z as int, h.z as int, em, hm);
    lemma_fxmul_bound(s.x as int, h.x as int, sm, hm);
    lemma_fxmul_bound(s.y as int, h.y as int, sm, hm);
    lemma_fxmul_bound(s.z as int, h.z as int, sm, hm);
    lemma_fxmul_bound(s.y as int, ea.z as int, sm, em);
    lemma_fxmul_bound(s.z as int, ea.y as int, sm, em);
    lemma_fxmul_bound(s.z as int, ea.x as int, sm, em);
    lemma_fxmul_bound(s.x as int, ea.z as int, sm, em);
    lemma_fxmul_bound(s.x as int, ea.y as int, sm, em);
    lemma_fxmul_bound(s.y as int, ea.x as int, sm, em);
    let q = v_cross(s, ea);
    lemma_fxmul_bound(d.x as int, q.x as int, dm, qm);
    lemma_fxmul_bound(d.y as int, q.y as int, dm, qm);
    lemma_fxmul_bound(d.z as int, q.z as int, dm, qm);
    lemma_fxmul_bound(eb.x as int, q.x as int, em, qm);
    lemma_fxmul_bound(eb.y as int, q.y as int, em, qm);
    lemma_fxmul_bound(eb.z as int, q.z as int, em, qm);
}

/// The candidate of one triangle, from its lane values.
fn mt_lane(va: Vec3, ea: Vec3, eb: Vec3, ray: &Ray, eps: i64, maxd: i64) -> (c: i64)
    requires
        1 <= eps,
        v_bounded(va, crate::WORLD_MAX as int),
        v_bounded(ea, 2 * (crate::WORLD_MAX as int)),
        v_bounded(eb, 2 * (crate::WORLD_MAX as int)),
        ray_in_domain(*ray),
    ensures
        c == mt_candidate(va, ea, eb, *ray, eps as int, maxd as int),
        c == MISS_SENTINEL || eps < c < maxd,
{
    proof {
        lemma_mt_lane_bounds(va, ea, eb, *ray);
    }
    let d = ray.direction;
    let hx: i128 = lane_mul(d.y as i128, eb.z as i128) - lane_mul(d.z as i128, eb.y as i128);
    let hy: i128 = lane_mul(d.z as i128, eb.x as i128) - lane_mul(d.x as i128, eb.z as i128);
    let hz: i128 = lane_mul(d.x as i128, eb.y as i128) - lane_mul(d.y as i128, eb.x as i128);
    let a: i128 = lane_dot(ea.x as i128, ea.y as i128, ea.z as i128, hx, hy, hz);
    let sx: i128 = (ray.origin.x as i128) - (va.x as i128);
    let sy: i128 = (ray.origin.y as i128) - (va.y as i128);
    let sz: i128 = (ray.origin.z as i128) - (va.z as i128);
    let sh: i128 = lane_dot(sx, sy, sz, hx, hy, hz);
    let qx: i128 = lane_mul(sy, ea.z as i128) - lane_mul(sz, ea.y as i128);
    let qy: i128 = lane_mul(sz, ea.x as i128) - lane_mul(sx, ea.z as i128);
    let qz_: i128 = lane_mul(sx, ea.y as i128) - lane_mul(sy, ea.x as i128);
    let dq: i128 = lane_dot(d.x as i128, d.y as i128, d.z as i128, qx, qy, qz_);
    let ebq: i128 = lane_dot(eb.x as i128, eb.y as i128, eb.z as i128, qx, qy, qz_);
    mt_finish(a, sh, dq, ebq, eps, maxd)
}

/// Scans all candidate parameters for the smallest one above `eps`,
/// skipping padding lanes; reports it with its index when it lies
/// below the cutoff.
pub fn find_smallest_element_bigger_than_eps(
    ray_params: &Vec<i64>,
    is_padding_triangle: &Vec<bool>,
    eps: i64,
) -> (r: (Option<i64>, Option<usize>))
    requires
        ray_params@.len() == is_padding_triangle@.len(),
    ensures
        r == scan_result(ray_params@, is_padding_triangle@, eps as int, SCAN_GATE as int),
{
    let mut min_idx: usize = 0;
    let mut min_param: i64 = SCAN_START;
    let n = ray_params.len();
    let mut idx: usize = 0;
    while idx < n
        invariant
            0 <= idx <= n,
            n == ray_params@.len() == is_padding_triangle@.len(),
            (min_param as int, min_idx as int) == scan_min(
                ray_params@,
                is_padding_triangle@,
                eps as int,
                idx as int,
            ),
        decreases n - idx,
    {
        let ray_param = ray_params[idx];
        if ray_param > eps && ray_param < min_param && !is_padding_triangle[idx] {
            min_param = ray_param;
            min_idx = idx;
        }
        idx = idx + 1;
    }
    if min_param > eps && min_param < SCAN_GATE {
        (Some(min_param), Some(min_idx))
    } else {
        (None, None)
    }
}

/// A scan that found anything found one of the candidates: the
/// reported minimum sits at the reported index, which is in range and
/// not a padding lane.
pub proof fn lemma_scan_min_found(cand: Seq<i64>, pad: Seq<bool>, eps: int, n: int)
    requires
        0 <= n <= cand.len(),
        n <= pad.len(),
    ensures
        scan_min(cand, pad, eps, n).0 == SCAN_START as int || (0 <= scan_min(
            cand,
            pad,
            eps,
            n,
        ).1 < n && cand[scan_min(cand, pad, eps, n).1] == scan_min(cand, pad, eps, n).0 && !pad[
            scan_min(cand, pad, eps, n).1] && eps < scan_min(cand, pad, eps, n).0),
    decreases n,
{
    if n > 0 {
        lemma_scan_min_found(cand, pad, eps, n - 1);
    }
}

/// The scan over a candidate sequence equals the canonical mesh scan
/// when every entry is that mesh's candidate, and a window below the
/// cutoff makes the two final comparisons agree.
proof fn lemma_scan_matches(
    cand: Seq<i64>,
    vertices: [[Seq<i64>; 3]; 3],
    edges: [[Seq<i64>; 3]; 2],
    pad: Seq<bool>,
    ray: Ray,
    eps: int,
    maxd: int,
    n: int,
)
    requires
        0 <= n <= cand.len(),
        n <= pad.len(),
        forall|i: int|
            0 <= i < n ==> #[trigger] cand[i] == soa_candidate(vertices, edges, ray, eps, maxd, i),
        forall|i: int|
            0 <= i < n ==> soa_candidate(vertices, edges, ray, eps, maxd, i) == MISS_SENTINEL
                || eps < #[trigger] soa_candidate(vertices, edges, ray, eps, maxd, i) < maxd,
        1 <= eps,
        maxd <= SCAN_GATE as int,
    ensures
        scan_min(cand, pad, eps, n) == scan_min(
            soa_candidates(vertices, edges, ray, eps, maxd, pad.len()),
            pad,
            eps,
            n,
        ),
        ({
            let m = scan_min(cand, pad, eps, n);
            m.0 == SCAN_START as int || eps < m.0 < maxd
        }),
    decreases n,
{
    if n > 0 {
        lemma_scan_matches(cand, vertices, edges, pad, ray, eps, maxd, n - 1);
        let cs = soa_candidates(vertices, edges, ray, eps, maxd, pad.len());
        assert(cs[n - 1] == soa_candidate(vertices, edges, ray, eps, maxd, n - 1) as i64);
        assert(cand[n - 1] == cs[n - 1]);
    }
}

/// Loads `lanes` consecutive values of a coordinate array into a wide
/// lane vector.
fn load_lanes(v: &Vec<i64>, base: usize, lanes: usize) -> (r: Vec<i128>)
    requires
        base + lanes <= v@.len(),
    ensures
        r@.len() == lanes,
        forall|i: int| 0 <= i < lanes ==> #[trigger] r@[i] == v@[base + i],
{
    let n = v.len();
    let mut r: Vec<i128> = Vec::new();
    let mut i: usize = 0;
    while i < lanes
        invariant
            0 <= i <= lanes,
            n == v@.len(),
            base + lanes <= n,
            r@.len() == i,
            forall|j: int| 0 <= j < i ==> #[trigger] r@[j] == v@[base + j],
        decreases lanes - i,
    {
        r.push(v[base + i] as i128);
        i = i + 1;
    }
    r
}

/// Broadcasts one scalar across `lanes` lanes.
fn splat(x: i64, lanes: usize) -> (r: Vec<i128>)
    ensures
        r@.len() == lanes,
        forall|i: int| 0 <= i < lanes ==> #[trigger] r@[i] == x,
{
    let mut r: Vec<i128> = Vec::new();
    let mut i: usize = 0;
    while i < lanes
        invariant
            0 <= i <= lanes,
            r@.len() == i,
            forall|j: int| 0 <= j < i ==> #[trigger] r@[j] == x,
        decreases lanes - i,
    {
        r.push(x as i128);
        i = i + 1;
    }
    r
}

/// Lane-wise difference of two lane vectors.
fn lanes_sub(a: &Vec<i128>, b: &Vec<i128>) -> (r: Vec<i128>)
    requires
        a@.len() == b@.len(),
        lanes_bounded(a@, 0x1000_0000_0000_0000),
        lanes_bounded(b@, 0x1000_0000_0000_0000),
    ensures
        r@.len() == a@.len(),
        forall|i: int| 0 <= i < r@.len() ==> #[trigger] r@[i] == a@[i] - b@[i],
{
    let n = a.len();
    let mut r: Vec<i128> = Vec::new();
    let mut i: usize = 0;
    while i < n
        invariant
            0 <= i <= n,
            n == a@.len() == b@.len(),
            lanes_bounded(a@, 0x1000_0000_0000_0000),
            lanes_bounded(b@, 0x1000_0000_0000_0000),
            r@.len() == i,
            forall|j: int| 0 <= j < i ==> #[trigger] r@[j] == a@[j] - b@[j],
        decreases n - i,
    {
        r.push(a[i] - b[i]);
        i = i + 1;
    }
    r
}

/// A per-element bound below the helper limit gives `lanes_bounded`.
proof fn lemma_lanes_le(v: Seq<i128>, m: int)
    requires
        0 <= m <= LANE_ARG_MAX as int,
        forall|i: int| 0 <= i < v.len() ==> -m <= #[trigger] v[i] <= m,
    ensures
        lanes_bounded(v, LANE_ARG_MAX as int),
{
    assert forall|i: int| 0 <= i < v.len() implies -(LANE_ARG_MAX as int) <= #[trigger] v[i]
        <= LANE_ARG_MAX as int by {
        assert(-m <= v[i] <= m);
    };
}

/// The lane-batched scan: process `lanes` triangles at a time with the
/// lane cross- and dot-product kernels, collect each lane's candidate
/// (the miss sentinel for masked-out lanes), then pick the smallest
/// accepted candidate.
#[verifier::rlimit(100)]
fn soa_lanes_intersect(
    ray: &Ray,
    vertices: &[[Vec<i64>; 3]; 3],
    edges: &[[Vec<i64>; 3]; 2],
    is_padding_triangle: &Vec<bool>,
    min_dist: i64,
    max_dist: i64,
    lanes: usize,
) -> (r: (Option<i64>, Option<usize>))
    requires
        ray_in_domain(*ray),
        soa_wf(
            soa_views(vertices, edges).0,
            soa_views(vertices, edges).1,
            is_padding_triangle@.len() as int,
        ),
        1 <= min_dist,
        max_dist <= SCAN_GATE,
        1 <= lanes,
        (is_padding_triangle@.len() as int) % (lanes as int) == 0,
    ensures
        r == soa_result(
            soa_views(vertices, edges).0,
            soa_views(vertices, edges).1,
            is_padding_triangle@,
            *ray,
            min_dist as int,
            max_dist as int,
        ),
{
    let eps = min_dist;
    let ghost sv = soa_views(vertices, edges).0;
    let ghost se = soa_views(vertices, edges).1;
    let ghost pad = is_padding_triangle@;
    let ghost cands = soa_candidates(sv, se, *ray, eps as int, max_dist as int, pad.len());
    let n = is_padding_triangle.len();
    let mut ray_params: Vec<i64> = Vec::new();
    let rd_x = splat(ray.direction.x, lanes);
    let rd_y = splat(ray.direction.y, lanes);
    let rd_z = splat(ray.direction.z, lanes);
    let ro_x = splat(ray.origin.x, lanes);
    let ro_y = splat(ray.origin.y, lanes);
    let ro_z = splat(ray.origin.z, lanes);
    let mut base: usize = 0;
    while base < n
        invariant
            0 <= base <= n,
            base % lanes == 0,
            n % lanes == 0,
            1 <= lanes,
            sv == soa_views(vertices, edges).0,
            se == soa_views(vertices, edges).1,
            pad == is_padding_triangle@,
            cands == soa_candidates(sv, se, *ray, eps as int, max_dist as int, pad.len()),
            n == pad.len(),
            soa_wf(sv, se, n as int),
            ray_in_domain(*ray),
            1 <= eps == min_dist,
            max_dist <= SCAN_GATE,
            rd_x@.len() == lanes && rd_y@.len() == lanes && rd_z@.len() == lanes,
            ro_x@.len() == lanes && ro_y@.len() == lanes && ro_z@.len() == lanes,
            forall|i: int| 0 <= i < lanes ==> #[trigger] rd_x@[i] == ray.direction.x,
            forall|i: int| 0 <= i < lanes ==> #[trigger] rd_y@[i] == ray.direction.y,
            forall|i: int| 0 <= i < lanes ==> #[trigger] rd_z@[i] == ray.direction.z,
            forall|i: int| 0 <= i < lanes ==> #[trigger] ro_x@[i] == ray.origin.x,
            forall|i: int| 0 <= i < lanes ==> #[trigger] ro_y@[i] == ray.origin.y,
            forall|i: int| 0 <= i < lanes ==> #[trigger] ro_z@[i] == ray.origin.z,
            ray_params@.len() == base,
            forall|j: int| 0 <= j < base ==> #[trigger] ray_params@[j] == cands[j],
        decreases n - base,
    {
        assert(base + lanes <= n) by {
            assert(base < n);
            assert((base as int) % (lanes as int) == 0 && (n as int) % (lanes as int) == 0);
            crate::fx::lemma_mod_step(base as int, n as int, lanes as int);
        };
        let va_x = load_lanes(&vertices[0][0], base, lanes);
        let va_y = load_lanes(&vertices[0][1], base, lanes);
        let va_z = load_lanes(&vertices[0][2], base, lanes);
        let ea_x = load_lanes(&edges[0][0], base, lanes);
        let ea_y = load_lanes(&edges[0][1], base, lanes);
        let ea_z = load_lanes(&edges[0][2], base, lanes);
        let eb_x = load_lanes(&edges[1][0], base, lanes);
        let eb_y = load_lanes(&edges[1][1], base, lanes);
        let eb_z = load_lanes(&edges[1][2], base, lanes);
        proof {
            let wm = crate::WORLD_MAX as int;
            lemma_lanes_le(va_x@, wm);
            lemma_lanes_le(va_y@, wm);
            lemma_lanes_le(va_z@, wm);
            lemma_lanes_le(ea_x@, 2 * wm);
            lemma_lanes_le(ea_y@, 2 * wm);
            lemma_lanes_le(ea_z@, 2 * wm);
            lemma_lanes_le(eb_x@, 2 * wm);
            lemma_lanes_le(eb_y@, 2 * wm);
            lemma_lanes_le(eb_z@, 2 * wm);
            lemma_lanes_le(rd_x@, crate::DIR_MAX as int);
            lemma_lanes_le(rd_y@, crate::DIR_MAX as int);
            lemma_lanes_le(rd_z@, crate::DIR_MAX as int);
            lemma_lanes_le(ro_x@, crate::ORG_MAX as int);
            lemma_lanes_le(ro_y@, crate::ORG_MAX as int);
            lemma_lanes_le(ro_z@, crate::ORG_MAX as int);
        }
        // h = direction x edge_b, per lane
        let (h_x, h_y, h_z) = avx_cross_product(&rd_x, &rd_y, &rd_z, &eb_x, &eb_y, &eb_z);
        proof {
            let dm = crate::DIR_MAX as int;
            let em = 2 * (crate::WORLD_MAX as int);
            assert forall|i: int| 0 <= i < lanes implies -0x1000_0000_0000 <= #[trigger] h_x@[i]
                <= 0x1000_0000_0000 by {
                lemma_fxmul_bound(rd_y@[i] as int, eb_z@[i] as int, dm, em);
                lemma_fxmul_bound(rd_z@[i] as int, eb_y@[i] as int, dm, em);
            };
            assert forall|i: int| 0 <= i < lanes implies -0x1000_0000_0000 <= #[trigger] h_y@[i]
                <= 0x1000_0000_0000 by {
                lemma_fxmul_bound(rd_z@[i] as int, eb_x@[i] as int, dm, em);
                lemma_fxmul_bound(rd_x@[i] as int, eb_z@[i] as int, dm, em);
            };
            assert forall|i: int| 0 <= i < lanes implies -0x1000_0000_0000 <= #[trigger] h_z@[i]
                <= 0x1000_0000_0000 by {
                lemma_fxmul_bound(rd_x@[i] as int, eb_y@[i] as int, dm, em);
                lemma_fxmul_bound(rd_y@[i] as int, eb_x@[i] as int, dm, em);
            };
            lemma_lanes_le(h_x@, 0x1000_0000_0000);
            lemma_lanes_le(h_y@, 0x1000_0000_0000);
            lemma_lanes_le(h_z@, 0x1000_0000_0000);
        }
        // a = edge_a . h, per lane
        let a_sum = avx_dot_product(&ea_x, &ea_y, &ea_z, &h_x, &h_y, &h_z);
        // s = origin - vertex_a, per lane
        let s_x = lanes_sub(&ro_x, &va_x);
        let s_y = lanes_sub(&ro_y, &va_y);
        let s_z = lanes_sub(&ro_z, &va_z);
        proof {
            lemma_lanes_le(s_x@, 0x2000_0000_0000);
            lemma_lanes_le(s_y@, 0x2000_0000_0000);
            lemma_lanes_le(s_z@, 0x2000_0000_0000);
        }
        // sh = s . h, per lane
        let sh = avx_dot_product(&s_x, &s_y, &s_z, &h_x, &h_y, &h_z);
        // q = s x edge_a, per lane
        let (q_x, q_y, q_z) = avx_cross_product(&s_x, &s_y, &s_z, &ea_x, &ea_y, &ea_z);
        proof {
            let sm = 0x2000_0000_0000int;
            let em = 2 * (crate::WORLD_MAX as int);
            assert forall|i: int| 0 <= i < lanes implies -0x400_0000_0000_0000 <= #[trigger] q_x@[i]
                <= 0x400_0000_0000_0000 by {
                lemma_fxmul_bound(s_y@[i] as int, ea_z@[i] as int, sm, em);
                lemma_fxmul_bound(s_z@[i] as int, ea_y@[i] as int, sm, em);
            };
            assert forall|i: int| 0 <= i < lanes implies -0x400_0000_0000_0000 <= #[trigger] q_y@[i]
                <= 0x400_0000_0000_0000 by {
                lemma_fxmul_bound(s_z@[i] as int, ea_x@[i] as int, sm, em);
                lemma_fxmul_bound(s_x@[i] as int, ea_z@[i] as int, sm, em);
            };
            assert forall|i: int| 0 <= i < lanes implies -0x400_0000_0000_0000 <= #[trigger] q_z@[i]
                <= 0x400_0000_0000_0000 by {
                lemma_fxmul_bound(s_x@[i] as int, ea_y@[i] as int, sm, em);
                lemma_fxmul_bound(s_y@[i] as int, ea_x@[i] as int, sm, em);
            };
            lemma_lanes_le(q_x@, 0x400_0000_0000_0000);
            lemma_lanes_le(q_y@, 0x400_0000_0000_0000);
            lemma_lanes_le(q_z@, 0x400_0000_0000_0000);
        }
        // v and t numerators: direction . q and edge_b . q, per lane
        let dq = avx_dot_product(&rd_x, &rd_y, &rd_z, &q_x, &q_y, &q_z);
        let ebq = avx_dot_product(&eb_x, &eb_y, &eb_z, &q_x, &q_y, &q_z);
        // combine the per-lane masks into candidates
        let mut k: usize = 0;
        while k < lanes
            invariant
                0 <= k <= lanes,
                base + lanes <= n,
                sv == soa_views(vertices, edges).0,
                se == soa_views(vertices, edges).1,
                pad == is_padding_triangle@,
                cands == soa_candidates(sv, se, *ray, eps as int, max_dist as int, pad.len()),
                n == pad.len(),
                soa_wf(sv, se, n as int),
                ray_in_domain(*ray),
                1 <= eps == min_dist,
                max_dist <= SCAN_GATE,
                ray_params@.len() == base + k,
                forall|j: int| 0 <= j < base + k ==> #[trigger] ray_params@[j] == cands[j],
                a_sum@.len() == lanes && sh@.len() == lanes && dq@.len() == lanes && ebq@.len()
                    == lanes,
                h_x@.len() == lanes && h_y@.len() == lanes && h_z@.len() == lanes,
                q_x@.len() == lanes && q_y@.len() == lanes && q_z@.len() == lanes,
                s_x@.len() == lanes && s_y@.len() == lanes && s_z@.len() == lanes,
                va_x@.len() == lanes && va_y@.len() == lanes && va_z@.len() == lanes,
                ea_x@.len() == lanes && ea_y@.len() == lanes && ea_z@.len() == lanes,
                eb_x@.len() == lanes && eb_y@.len() == lanes && eb_z@.len() == lanes,
                forall|i: int| 0 <= i < lanes ==> #[trigger] va_x@[i] == sv[0][0][base + i],
                forall|i: int| 0 <= i < lanes ==> #[trigger] va_y@[i] == sv[0][1][base + i],
                forall|i: int| 0 <= i < lanes ==> #[trigger] va_z@[i] == sv[0][2][base + i],
                forall|i: int| 0 <= i < lanes ==> #[trigger] ea_x@[i] == se[0][0][base + i],
                forall|i: int| 0 <= i < lanes ==> #[trigger] ea_y@[i] == se[0][1][base + i],
                forall|i: int| 0 <= i < lanes ==> #[trigger] ea_z@[i] == se[0][2][base + i],
                forall|i: int| 0 <= i < lanes ==> #[trigger] eb_x@[i] == se[1][0][base + i],
                forall|i: int| 0 <= i < lanes ==> #[trigger] eb_y@[i] == se[1][1][base + i],
                forall|i: int| 0 <= i < lanes ==> #[trigger] eb_z@[i] == se[1][2][base + i],
                forall|i: int| 0 <= i < lanes ==> #[trigger] s_x@[i] == ro_x@[i] - va_x@[i],
                forall|i: int| 0 <= i < lanes ==> #[trigger] s_y@[i] == ro_y@[i] - va_y@[i],
                forall|i: int| 0 <= i < lanes ==> #[trigger] s_z@[i] == ro_z@[i] - va_z@[i],
                forall|i: int| 0 <= i < lanes ==> #[trigger] ro_x@[i] == ray.origin.x,
                forall|i: int| 0 <= i < lanes ==> #[trigger] ro_y@[i] == ray.origin.y,
                forall|i: int| 0 <= i < lanes ==> #[trigger] ro_z@[i] == ray.origin.z,
                forall|i: int| 0 <= i < lanes ==> #[trigger] rd_x@[i] == ray.direction.x,
                forall|i: int| 0 <= i < lanes ==> #[trigger] rd_y@[i] == ray.direction.y,
                forall|i: int| 0 <= i < lanes ==> #[trigger] rd_z@[i] == ray.direction.z,
                forall|i: int|
                    0 <= i < lanes ==> #[trigger] h_x@[i] == fxcross_x(
                        rd_y@[i] as int,
                        rd_z@[i] as int,
                        eb_y@[i] as int,
                        eb_z@[i] as int,
                    ),
                forall|i: int|
                    0 <= i < lanes ==> #[trigger] h_y@[i] == fxcross_y(
                        rd_x@[i] as int,
                        rd_z@[i] as int,
                        eb_x@[i] as int,
                        eb_z@[i] as int,
                    ),
                forall|i: int|
                    0 <= i < lanes ==> #[trigger] h_z@[i] == fxcross_z(
                        rd_x@[i] as int,
                        rd_y@[i] as int,
                        eb_x@[i] as int,
                        eb_y@[i] as int,
                    ),
                forall|i: int|
                    0 <= i < lanes ==> #[trigger] q_x@[i] == fxcross_x(
                        s_y@[i] as int,
                        s_z@[i] as int,
                        ea_y@[i] as int,
                        ea_z@[i] as int,
                    ),
                forall|i: int|
                    0 <= i < lanes ==> #[trigger] q_y@[i] == fxcross_y(
                        s_x@[i] as int,
                        s_z@[i] as int,
                        ea_x@[i] as int,
                        ea_z@[i] as int,
                    ),
                forall|i: int|
                    0 <= i < lanes ==> #[trigger] q_z@[i] == fxcross_z(
                        s_x@[i] as int,
                        s_y@[i] as int,
                        ea_x@[i] as int,
                        ea_y@[i] as int,
                    ),
                forall|i: int| 0 <= i < lanes ==> -0x1000_0000_0000 <= #[trigger] h_x@[i]
                    <= 0x1000_0000_0000,
                forall|i: int| 0 <= i < lanes ==> -0x1000_0000_0000 <= #[trigger] h_y@[i]
                    <= 0x1000_0000_0000,
                forall|i: int| 0 <= i < lanes ==> -0x1000_0000_0000 <= #[trigger] h_z@[i]
                    <= 0x1000_0000_0000,
                forall|i: int| 0 <= i < lanes ==> -0x400_0000_0000_0000 <= #[trigger] q_x@[i]
                    <= 0x400_0000_0000_0000,
                forall|i: int| 0 <= i < lanes ==> -0x400_0000_0000_0000 <= #[trigger] q_y@[i]
                    <= 0x400_0000_0000_0000,
                forall|i: int| 0 <= i < lanes ==> -0x400_0000_0000_0000 <= #[trigger] q_z@[i]
                    <= 0x400_0000_0000_0000,
                forall|i: int|
                    0 <= i < lanes ==> #[trigger] a_sum@[i] == fxdot3(
                        ea_x@[i] as int,
                        ea_y@[i] as int,
                        ea_z@[i] as int,
                        h_x@[i] as int,
                        h_y@[i] as int,
                        h_z@[i] as int,
                    ),
                forall|i: int|
                    0 <= i < lanes ==> #[trigger] sh@[i] == fxdot3(
                        s_x@[i] as int,
                        s_y@[i] as int,
                        s_z@[i] as int,
                        h_x@[i] as int,
                        h_y@[i] as int,
                        h_z@[i] as int,
                    ),
                forall|i: int|
                    0 <= i < lanes ==> #[trigger] dq@[i] == fxdot3(
                        rd_x@[i] as int,
                        rd_y@[i] as int,
                        rd_z@[i] as int,
                        q_x@[i] as int,
                        q_y@[i] as int,
                        q_z@[i] as int,
                    ),
                forall|i: int|
                    0 <= i < lanes ==> #[trigger] ebq@[i] == fxdot3(
                        eb_x@[i] as int,
                        eb_y@[i] as int,
                        eb_z@[i] as int,
                        q_x@[i] as int,
                        q_y@[i] as int,
                        q_z@[i] as int,
                    ),
            decreases lanes - k,
        {
            proof {
                let i = k as int;
                let dm = crate::DIR_MAX as int;
                let em = 2 * (crate::WORLD_MAX as int);
                let sm = 0x2000_0000_0000int;
                let hm = 0x1000_0000_0000int;
                let qm = 0x400_0000_0000_0000int;
                lemma_fxmul_bound(ea_x@[i] as int, h_x@[i] as int, em, hm);
                lemma_fxmul_bound(ea_y@[i] as int, h_y@[i] as int, em, hm);
                lemma_fxmul_bound(ea_z@[i] as int, h_z@[i] as int, em, hm);
                lemma_fxmul_bound(s_x@[i] as int, h_x@[i] as int, sm, hm);
                lemma_fxmul_bound(s_y@[i] as int, h_y@[i] as int, sm, hm);
                lemma_fxmul_bound(s_z@[i] as int, h_z@[i] as int, sm, hm);
                lemma_fxmul_bound(rd_x@[i] as int, q_x@[i] as int, dm, qm);
                lemma_fxmul_bound(rd_y@[i] as int, q_y@[i] as int, dm, qm);
                lemma_fxmul_bound(rd_z@[i] as int, q_z@[i] as int, dm, qm);
                lemma_fxmul_bound(eb_x@[i] as int, q_x@[i] as int, em, qm);
                lemma_fxmul_bound(eb_y@[i] as int, q_y@[i] as int, em, qm);
                lemma_fxmul_bound(eb_z@[i] as int, q_z@[i] as int, em, qm);
            }
            let c = mt_finish(a_sum[k], sh[k], dq[k], ebq[k], eps, max_dist);
            proof {
                let i = (base + k) as int;
                let va = lane3(sv[0][0], sv[0][1], sv[0][2], i);
                let ea = lane3(se[0][0], se[0][1], se[0][2], i);
                let eb = lane3(se[1][0], se[1][1], se[1][2], i);
                let h = v_cross(ray.direction, eb);
                let ss = v_sub(ray.origin, va);
                let q = v_cross(ss, ea);
                assert(h.x as int == h_x@[k as int] && h.y as int == h_y@[k as int] && h.z as int
                    == h_z@[k as int]);
                assert(ss.x as int == s_x@[k as int] && ss.y as int == s_y@[k as int] && ss.z as int
                    == s_z@[k as int]);
                assert(q.x as int == q_x@[k as int] && q.y as int == q_y@[k as int] && q.z as int
                    == q_z@[k as int]);
                assert(a_sum@[k as int] == v_dot(ea, h));
                assert(sh@[k as int] == v_dot(ss, h));
                assert(dq@[k as int] == v_dot(ray.direction, q));
                assert(ebq@[k as int] == v_dot(eb, q));
                assert(c == mt_candidate(va, ea, eb, *ray, eps as int, max_dist as int));
                assert(cands[i] == c);
            }
            ray_params.push(c);
            k = k + 1;
        }
        proof {
            vstd::arithmetic::div_mod::lemma_mod_add_multiples_vanish(
                base as int,
                lanes as int,
            );
        }
        base = base + lanes;
    }
    let r = find_smallest_element_bigger_than_eps(&ray_params, is_padding_triangle, eps);
    proof {
        assert forall|i: int| 0 <= i < n implies soa_candidate(
            sv,
            se,
            *ray,
            eps as int,
            max_dist as int,
            i,
        ) == MISS_SENTINEL || eps < #[trigger] soa_candidate(
            sv,
            se,
            *ray,
            eps as int,
            max_dist as int,
            i,
        ) < max_dist by {
            assert(ray_params@[i] == cands[i]);
        };
        lemma_scan_matches(
            ray_params@,
            sv,
            se,
            pad,
            *ray,
            eps as int,
            max_dist as int,
            n as int,
        );
    }
    r
}

/// The eight-wide lane path of the batched scan.
pub fn triangle_soa_avx_intersect_with_ray(
    ray: &Ray,
    vertices: &[[Vec<i64>; 3]; 3],
    edges: &[[Vec<i64>; 3]; 2],
    is_padding_triangle: &Vec<bool>,
    min_dist: i64,
    max_dist: i64,
) -> (r: (Option<i64>, Option<usize>))
    requires
        ray_in_domain(*ray),
        soa_wf(
            soa_views(vertices, edges).0,
            soa_views(vertices, edges).1,
            is_padding_triangle@.len() as int,
        ),
        1 <= min_dist,
        max_dist <= SCAN_GATE,
        is_padding_triangle@.len() % 8 == 0,
    ensures
        r == soa_result(
            soa_views(vertices, edges).0,
            soa_views(vertices, edges).1,
            is_padding_triangle@,
            *ray,
            min_dist as int,
            max_dist as int,
        ),
{
    soa_lanes_intersect(ray, vertices, edges, is_padding_triangle, min_dist, max_dist, 8)
}

/// The four-wide lane path of the batched scan.
pub fn triangle_soa_sse_intersect_with_ray(
    ray: &Ray,
    vertices: &[[Vec<i64>; 3]; 3],
    edges: &[[Vec<i64>; 3]; 2],
    is_padding_triangle: &Vec<bool>,
    min_dist: i64,
    max_dist: i64,
) -> (r: (Option<i64>, Option<usize>))
    requires
        ray_in_domain(*ray),
        soa_wf(
            soa_views(vertices, edges).0,
            soa_views(vertices, edges).1,
            is_padding_triangle@.len() as int,
        ),
        1 <= min_dist,
        max_dist <= SCAN_GATE,
        is_padding_triangle@.len() % 4 == 0,
    ensures
        r == soa_result(
            soa_views(vertices, edges).0,
            soa_views(vertices, edges).1,
            is_padding_triangle@,
            *ray,
            min_dist as int,
            max_dist as int,
        ),
{
    soa_lanes_intersect(ray, vertices, edges, is_padding_triangle, min_dist, max_dist, 4)
}

/// The scalar fallback of the batched scan: one triangle at a time,
/// tracking the running minimum inline.
pub fn triangle_soa_intersect_with_ray(
    ray: &Ray,
    vertices: &[[Vec<i64>; 3]; 3],
    edges: &[[Vec<i64>; 3]; 2],
    is_padding_triangle: &Vec<bool>,
    min_dist: i64,
    max_dist: i64,
) -> (r: (Option<i64>, Option<usize>))
    requires
        ray_in_domain(*ray),
        soa_wf(
            soa_views(vertices, edges).0,
            soa_views(vertices, edges).1,
            is_padding_triangle@.len() as int,
        ),
        1 <= min_dist,
        max_dist <= SCAN_GATE,
    ensures
        r == soa_result(
            soa_views(vertices, edges).0,
            soa_views(vertices, edges).1,
            is_padding_triangle@,
            *ray,
            min_dist as int,
            max_dist as int,
        ),
{
    let eps = min_dist;
    let ghost sv = soa_views(vertices, edges).0;
    let ghost se = soa_views(vertices, edges).1;
    let ghost pad = is_padding_triangle@;
    let n = is_padding_triangle.len();
    let mut min_idx: usize = 0;
    let mut min_param: i64 = SCAN_START;
    let mut i: usize = 0;
    while i < n
        invariant
            0 <= i <= n,
            sv == soa_views(vertices, edges).0,
            se == soa_views(vertices, edges).1,
            pad == is_padding_triangle@,
            n == pad.len(),
            soa_wf(sv, se, n as int),
            ray_in_domain(*ray),
            1 <= eps == min_dist,
            max_dist <= SCAN_GATE,
            (min_param as int, min_idx as int) == scan_min(
                soa_candidates(sv, se, *ray, eps as int, max_dist as int, pad.len()),
                pad,
                eps as int,
                i as int,
            ),
            min_param == SCAN_START || eps < min_param < max_dist,
        decreases n - i,
    {
        let vertex_a = Vec3::new(vertices[0][0][i], vertices[0][1][i], vertices[0][2][i]);
        let edge_a = Vec3::new(edges[0][0][i], edges[0][1][i], edges[0][2][i]);
        let edge_b = Vec3::new(edges[1][0][i], edges[1][1][i], edges[1][2][i]);
        let t = mt_lane(vertex_a, edge_a, edge_b, ray, eps, max_dist);
        proof {
            assert(soa_candidates(sv, se, *ray, eps as int, max_dist as int, pad.len())[i as int]
                == t);
        }
        if t > eps && t < min_param && !is_padding_triangle[i] {
            min_param = t;
            min_idx = i;
        }
        i = i + 1;
    }
    proof {
        lemma_scan_matches(
            soa_candidates(sv, se, *ray, eps as int, max_dist as int, pad.len()),
            sv,
            se,
            pad,
            *ray,
            eps as int,
            max_dist as int,
            n as int,
        );
    }
    if min_param > eps && min_param < max_dist {
        (Some(min_param), Some(min_idx))
    } else {
        (None, None)
    }
}

/// The ray parameter of the scalar single-triangle solver: the
/// candidate of the Moeller-Trumbore algebra, accepted when the hit
/// point's distance from the ray origin lies inside the window.
pub open spec fn basic_tri_param(
    vertices: [Vec3; 3],
    edges: [Vec3; 2],
    ray: Ray,
    min_dist: int,
    max_dist: int,
) -> Option<i64> {
    let c = mt_candidate(vertices[0], edges[0], edges[1], ray, min_dist, i64::MAX as int);
    if c == MISS_SENTINEL || !(-(crate::sphere::RAY_PARAM_MAX as int) <= c
        <= crate::sphere::RAY_PARAM_MAX as int) {
        Option::None
    } else {
        let p = ray_at(ray, c);
        let dist = v_len(v_sub(ray.origin, p));
        if dist < min_dist || dist > max_dist {
            Option::None
        } else {
            Option::Some(c as i64)
        }
    }
}

/// Intersects the ray with one triangle, returning the ray parameter
/// of the hit.
pub fn basic_triangle_intersect_w_ray(
    ray: &Ray,
    vertices: &[Vec3; 3],
    edges: &[Vec3; 2],
    min_dist: i64,
    max_dist: i64,
) -> (r: Option<i64>)
    requires
        ray_in_domain(*ray),
        v_bounded(vertices[0], crate::WORLD_MAX as int),
        v_bounded(edges[0], 2 * (crate::WORLD_MAX as int)),
        v_bounded(edges[1], 2 * (crate::WORLD_MAX as int)),
        1 <= min_dist,
    ensures
        r == basic_tri_param(*vertices, *edges, *ray, min_dist as int, max_dist as int),
{
    let c = mt_lane(vertices[0], edges[0], edges[1], ray, min_dist, i64::MAX);
    if c == MISS_SENTINEL || c < -crate::sphere::RAY_PARAM_MAX || c
        > crate::sphere::RAY_PARAM_MAX {
        return None;
    }
    proof {
        lemma_fxmul_bound(
            c as int,
            ray.direction.x as int,
            crate::sphere::RAY_PARAM_MAX as int,
            crate::DIR_MAX as int,
        );
        lemma_fxmul_bound(
            c as int,
            ray.direction.y as int,
            crate::sphere::RAY_PARAM_MAX as int,
            crate::DIR_MAX as int,
        );
        lemma_fxmul_bound(
            c as int,
            ray.direction.z as int,
            crate::sphere::RAY_PARAM_MAX as int,
            crate::DIR_MAX as int,
        );
    }
    let hit_point = ray.point_at(c);
    let dist: i64 = ray.origin.sub(hit_point).length();
    if dist < min_dist || dist > max_dist {
        None
    } else {
        Some(c)
    }
}

/// Computes the unit normal of a counter-clockwise triangle.
pub fn get_triangle_normal(corners: &[Vec3; 3]) -> (r: Vec3)
    requires
        v_bounded(corners[0], crate::WORLD_MAX as int),
        v_bounded(corners[1], crate::WORLD_MAX as int),
        v_bounded(corners[2], crate::WORLD_MAX as int),
    ensures
        r == triangle_normal(corners[0], corners[1], corners[2]),
        v_bounded(r, FX_ONE as int),
{
    let edge1 = corners[1].sub(corners[0]);
    let edge2 = corners[2].sub(corners[0]);
    proof {
        let em = 0x10_0000_0000int;
        lemma_fxmul_bound(edge1.y as int, edge2.z as int, em, em);
        lemma_fxmul_bound(edge1.z as int, edge2.y as int, em, em);
        lemma_fxmul_bound(edge1.z as int, edge2.x as int, em, em);
        lemma_fxmul_bound(edge1.x as int, edge2.z as int, em, em);
        lemma_fxmul_bound(edge1.x as int, edge2.y as int, em, em);
        lemma_fxmul_bound(edge1.y as int, edge2.x as int, em, em);
    }
    edge1.cross_product(&edge2).normalize()
}

/// The full single-triangle hit: the solver's ray parameter, turned
/// into a hit record when the distance window accepts it twice (the
/// solver already checked it; the caller checks it again).
pub open spec fn tri_hit(t: BasicTriangle, ray: Ray, min_dist: int, max_dist: int) -> Option<
    HitInformation,
> {
    match basic_tri_param(t.corners, t.edges, ray, min_dist, max_dist) {
        Option::None => Option::None,
        Option::Some(tp) => {
            let p = ray_at(ray, tp as int);
            let dist = v_len(v_sub(ray.origin, p));
            if dist < min_dist || dist > max_dist {
                Option::None
            } else {
                Option::Some(
                    HitInformation {
                        hit_point: p,
                        hit_normal: t.normal,
                        hit_material: t.material,
                        dist_from_ray_orig: dist as i64,
                    },
                )
            }
        },
    }
}

impl BasicTriangle {
    pub fn new(corners: [Vec3; 3], material: Material) -> (r: BasicTriangle)
        requires
            v_bounded(corners[0], crate::WORLD_MAX as int),
            v_bounded(corners[1], crate::WORLD_MAX as int),
            v_bounded(corners[2], crate::WORLD_MAX as int),
        ensures
            r.corners == corners,
            r.normal == triangle_normal(corners[0], corners[1], corners[2]),
            r.edges[0] == v_sub(corners[1], corners[0]),
            r.edges[1] == v_sub(corners[2], corners[0]),
            r.material == material,
    {
        let normal = get_triangle_normal(&corners);
        let e0 = corners[1].sub(corners[0]);
        let e1 = corners[2].sub(corners[0]);
        BasicTriangle { corners, normal, material, edges: [e0, e1] }
    }

    /// Computes the unit normal from the corners (the same value the
    /// constructor caches in `normal`).
    pub fn get_normal(&self) -> (r: Vec3)
        requires
            v_bounded(self.corners[0], crate::WORLD_MAX as int),
            v_bounded(self.corners[1], crate::WORLD_MAX as int),
            v_bounded(self.corners[2], crate::WORLD_MAX as int),
        ensures
            r == triangle_normal(self.corners[0], self.corners[1], self.corners[2]),
    {
        get_triangle_normal(&self.corners)
    }

    /// Intersects the ray with the triangle, reporting the full hit
    /// record (normal of the triangle's winding, not flipped toward
    /// the ray).
    pub fn intersect_with_ray(&self, ray: &Ray, min_dist: i64, max_dist: i64) -> (r: Option<
        HitInformation,
    >)
        requires
            ray_in_domain(*ray),
            v_bounded(self.corners[0], crate::WORLD_MAX as int),
            v_bounded(self.edges[0], 2 * (crate::WORLD_MAX as int)),
            v_bounded(self.edges[1], 2 * (crate::WORLD_MAX as int)),
            v_bounded(self.normal, FX_ONE as int),
            1 <= min_dist,
        ensures
            r == tri_hit(*self, *ray, min_dist as int, max_dist as int),
            r is Some ==> min_dist <= r->Some_0.dist_from_ray_orig <= max_dist,
            r is Some ==> v_bounded(r->Some_0.hit_point, crate::HIT_MAX as int) && v_bounded(
                r->Some_0.hit_normal,
                crate::HIT_MAX as int,
            ),
            r is Some ==> r->Some_0.hit_material == self.material,
            r is Some ==> v_bounded(
                v_sub(r->Some_0.hit_point, ray.origin),
                max_dist as int,
            ),
    {
        let ray_param_op = basic_triangle_intersect_w_ray(
            ray,
            &self.corners,
            &self.edges,
            min_dist,
            max_dist,
        );
        match ray_param_op {
            Some(t) => {
                proof {
                    lemma_fxmul_bound(
                        t as int,
                        ray.direction.x as int,
                        crate::sphere::RAY_PARAM_MAX as int,
                        crate::DIR_MAX as int,
                    );
                    lemma_fxmul_bound(
                        t as int,
                        ray.direction.y as int,
                        crate::sphere::RAY_PARAM_MAX as int,
                        crate::DIR_MAX as int,
                    );
                    lemma_fxmul_bound(
                        t as int,
                        ray.direction.z as int,
                        crate::sphere::RAY_PARAM_MAX as int,
                        crate::DIR_MAX as int,
                    );
                }
                let hit_point = ray.point_at(t);
                let delta = ray.origin.sub(hit_point);
                let dist: i64 = delta.length();
                if dist < min_dist || dist > max_dist {
                    None
                } else {
                    proof {
                        crate::vec3::lemma_comp_le_len(delta);
                    }
                    Some(
                        HitInformation {
                            hit_point,
                            hit_normal: self.normal,
                            hit_material: self.material,
                            dist_from_ray_orig: dist,
                        },
                    )
                }
            },
            None => None,
        }
    }
}

/// Reversing the winding of a triangle flips the sign of its normal.
pub proof fn lemma_triangle_normal_winding(a: Vec3, b: Vec3, c: Vec3)
    requires
        v_bounded(a, crate::WORLD_MAX as int),
        v_bounded(b, crate::WORLD_MAX as int),
        v_bounded(c, crate::WORLD_MAX as int),
    ensures
        triangle_normal(a, c, b) == v3(
            -triangle_normal(a, b, c).x,
            -triangle_normal(a, b, c).y,
            -triangle_normal(a, b, c).z,
        ),
{
    let e1 = v_sub(b, a);
    let e2 = v_sub(c, a);
    lemma_cross_antisym(e2, e1);
    lemma_norm_neg(v_cross(e1, e2));
}

/// The cross product is antisymmetric (exactly, under truncation).
proof fn lemma_cross_antisym(u: Vec3, w: Vec3)
    requires
        v_bounded(u, 0x10_0000_0000),
        v_bounded(w, 0x10_0000_0000),
    ensures
        v_cross(u, w) == v3(
            -v_cross(w, u).x as int,
            -v_cross(w, u).y as int,
            -v_cross(w, u).z as int,
        ),
        v_bounded(v_cross(w, u), 0x2_0000_0000_0000),
        v_bounded(v_cross(u, w), 0x2_0000_0000_0000),
{
    lemma_fxmul_comm(u.y as int, w.z as int);
    lemma_fxmul_comm(u.z as int, w.y as int);
    lemma_fxmul_comm(u.z as int, w.x as int);
    lemma_fxmul_comm(u.x as int, w.z as int);
    lemma_fxmul_comm(u.x as int, w.y as int);
    lemma_fxmul_comm(u.y as int, w.x as int);
    let cm = 0x10_0000_0000int;
    lemma_fxmul_bound(u.y as int, w.z as int, cm, cm);
    lemma_fxmul_bound(u.z as int, w.y as int, cm, cm);
    lemma_fxmul_bound(u.z as int, w.x as int, cm, cm);
    lemma_fxmul_bound(u.x as int, w.z as int, cm, cm);
    lemma_fxmul_bound(u.x as int, w.y as int, cm, cm);
    lemma_fxmul_bound(u.y as int, w.x as int, cm, cm);
    lemma_fxmul_bound(w.y as int, u.z as int, cm, cm);
    lemma_fxmul_bound(w.z as int, u.y as int, cm, cm);
    lemma_fxmul_bound(w.z as int, u.x as int, cm, cm);
    lemma_fxmul_bound(w.x as int, u.z as int, cm, cm);
    lemma_fxmul_bound(w.x as int, u.y as int, cm, cm);
    lemma_fxmul_bound(w.y as int, u.x as int, cm, cm);
}

/// Fixed-point multiplication commutes.
proof fn lemma_fxmul_comm(a: int, b: int)
    ensures
        fxmul(a, b) == fxmul(b, a),
{
    assert(a * b == b * a) by (nonlinear_arith);
}

/// Normalizing a negated vector negates the normalization.
proof fn lemma_norm_neg(w: Vec3)
    requires
        v_bounded(w, crate::vec3::VEC_ARG_MAX as int),
    ensures
        v_norm(v3(-w.x as int, -w.y as int, -w.z as int)) == v3(
            -v_norm(w).x as int,
            -v_norm(w).y as int,
            -v_norm(w).z as int,
        ),
{
    let nw = v3(-w.x as int, -w.y as int, -w.z as int);
    assert((nw.x as int) * (nw.x as int) == (w.x as int) * (w.x as int)) by (nonlinear_arith)
        requires
            nw.x as int == -(w.x as int),
    ;
    assert((nw.y as int) * (nw.y as int) == (w.y as int) * (w.y as int)) by (nonlinear_arith)
        requires
            nw.y as int == -(w.y as int),
    ;
    assert((nw.z as int) * (nw.z as int) == (w.z as int) * (w.z as int)) by (nonlinear_arith)
        requires
            nw.z as int == -(w.z as int),
    ;
    assert(v_len(nw) == v_len(w));
    let l = v_len(w);
    if l != 0 {
        crate::fx::lemma_sqrti_bracket(
            (w.x * w.x + w.y * w.y + w.z * w.z) as nat,
        );
        lemma_qz_neg((w.x as int) * (FX_ONE as int), l);
        lemma_qz_neg((w.y as int) * (FX_ONE as int), l);
        lemma_qz_neg((w.z as int) * (FX_ONE as int), l);
        assert((nw.x as int) * (FX_ONE as int) == -((w.x as int) * (FX_ONE as int)))
            by (nonlinear_arith)
            requires
                nw.x as int == -(w.x as int),
        ;
        assert((nw.y as int) * (FX_ONE as int) == -((w.y as int) * (FX_ONE as int)))
            by (nonlinear_arith)
            requires
                nw.y as int == -(w.y as int),
        ;
        assert((nw.z as int) * (FX_ONE as int) == -((w.z as int) * (FX_ONE as int)))
            by (nonlinear_arith)
            requires
                nw.z as int == -(w.z as int),
        ;
        crate::vec3::lemma_norm_bounded(w);
        crate::vec3::lemma_norm_bounded(nw);
    }
}

/// Negating the numerator negates the truncated quotient.
proof fn lemma_qz_neg(a: int, b: int)
    requires
        b != 0,
    ensures
        qz(-a, b) == -qz(a, b),
{
}

} // verus!
