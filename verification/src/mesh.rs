//! Triangle meshes in structure-of-arrays layout.
//!
//! The nine coordinate arrays are padded to a multiple of the widest
//! lane count; the padding lanes duplicate triangle zero and are
//! flagged, so they can never win the nearest-hit scan.  Which of the
//! three scan paths runs is a strategy chosen once at startup (from
//! the machine's capabilities) and injected as a [`LaneMode`]; all
//! three paths carry the same contract.

use crate::aabbox::{bbox_hit, compute_min_max_3d, mesh_lower, mesh_upper, BoundingBox};
use crate::materials::{material_wf, Material};
use crate::ray::{ray_at, ray_in_domain, Ray};
use crate::sphere::RAY_PARAM_MAX;
use crate::triangle::{
    get_triangle_normal, soa_result, soa_views, soa_wf, triangle_normal,
    triangle_soa_avx_intersect_with_ray, triangle_soa_intersect_with_ray,
    triangle_soa_sse_intersect_with_ray, SCAN_GATE,
};
use crate::vec3::{v3, v_bounded, v_len, v_sub, Vec3};
use crate::HitInformation;
use vstd::arithmetic::div_mod::{lemma_fundamental_div_mod, lemma_mod_multiples_basic};
use vstd::prelude::*;

verus! {

/// The widest lane count; array lengths are rounded up to a multiple
/// of it, so that every scan path can run on the same mesh.
pub const LANE_WIDTH: usize = 8;

/// Which batched scan path runs: the eight-wide lanes, the four-wide
/// lanes, or the scalar fallback.
#[derive(Copy, Clone, PartialEq, Eq, Structural, Debug)]
pub enum LaneMode {
    Eight,
    Four,
    Scalar,
}

pub struct TriangleMesh {
    /// 3 vertices with 3 coords (x,y,z) each
    pub vertices: [[Vec<i64>; 3]; 3],
    /// 2 edges with 3 coords (x,y,z) each
    pub edges: [[Vec<i64>; 3]; 2],
    /// 1 normal with 3 coords (x,y,z) each
    pub normals: [Vec<i64>; 3],
    /// 1 flag to set padding elements
    pub is_padding_triangle: Vec<bool>,
    /// axis aligned bounding box of the mesh
    pub bbox: BoundingBox,
    /// one material for the whole mesh
    pub material: Material,
}

/// The array length after rounding `n` up to the next multiple of the
/// lane width.
pub open spec fn padded_len(n: int) -> int {
    n + ((LANE_WIDTH as int) - n % (LANE_WIDTH as int)) % (LANE_WIDTH as int)
}

/// The source index of slot `i`: itself for real triangles, zero for
/// padding slots.
pub open spec fn src_at(n: int, i: int) -> int {
    if i < n {
        i
    } else {
        0
    }
}

/// The mesh invariant: all arrays share one length, a multiple of the
/// lane width; coordinates lie in the scene domain; normals are unit
/// sized; the box and the material are well formed.
pub open spec fn mesh_wf(m: TriangleMesh) -> bool {
    let n = m.is_padding_triangle@.len() as int;
    &&& soa_wf(soa_views(&m.vertices, &m.edges).0, soa_views(&m.vertices, &m.edges).1, n)
    &&& n % (LANE_WIDTH as int) == 0
    &&& crate::triangle::coord_arr_wf(m.normals[0]@, n, crate::fx::FX_ONE as int)
    &&& crate::triangle::coord_arr_wf(m.normals[1]@, n, crate::fx::FX_ONE as int)
    &&& crate::triangle::coord_arr_wf(m.normals[2]@, n, crate::fx::FX_ONE as int)
    &&& v_bounded(m.bbox.lower_bound, crate::WORLD_MAX as int)
    &&& v_bounded(m.bbox.upper_bound, crate::WORLD_MAX as int)
    &&& material_wf(m.material)
}

/// Lays out triangle data as padded structure-of-arrays: one array per
/// coordinate, padded to the lane width with copies of element zero.
#[verifier::rlimit(100)]
pub fn convert_to_soa_mesh(
    pre_vertices: &Vec<[Vec3; 3]>,
    pre_edges: &Vec<[Vec3; 2]>,
    pre_normals: &Vec<Vec3>,
) -> (r: ([[Vec<i64>; 3]; 3], [[Vec<i64>; 3]; 2], [Vec<i64>; 3], Vec<bool>))
    requires
        pre_vertices@.len() == pre_edges@.len() == pre_normals@.len(),
        pre_vertices@.len() + (LANE_WIDTH as int) <= usize::MAX,
    ensures
        r.3@.len() == padded_len(pre_vertices@.len() as int),
        forall|i: int|
            0 <= i < r.3@.len() ==> #[trigger] r.3@[i] == (i >= pre_vertices@.len()),
        r.0[0][0]@.len() == r.3@.len() && r.0[0][1]@.len() == r.3@.len() && r.0[0][2]@.len()
            == r.3@.len(),
        r.0[1][0]@.len() == r.3@.len() && r.0[1][1]@.len() == r.3@.len() && r.0[1][2]@.len()
            == r.3@.len(),
        r.0[2][0]@.len() == r.3@.len() && r.0[2][1]@.len() == r.3@.len() && r.0[2][2]@.len()
            == r.3@.len(),
        r.1[0][0]@.len() == r.3@.len() && r.1[0][1]@.len() == r.3@.len() && r.1[0][2]@.len()
            == r.3@.len(),
        r.1[1][0]@.len() == r.3@.len() && r.1[1][1]@.len() == r.3@.len() && r.1[1][2]@.len()
            == r.3@.len(),
        r.2[0]@.len() == r.3@.len() && r.2[1]@.len() == r.3@.len() && r.2[2]@.len() == r.3@.len(),
        forall|i: int|
            0 <= i < padded_len(pre_vertices@.len() as int) ==> #[trigger] r.0[0][0]@[i] == pre_vertices@[src_at(pre_vertices@.len() as int, i)][0].x,
        forall|i: int|
            0 <= i < padded_len(pre_vertices@.len() as int) ==> #[trigger] r.0[0][1]@[i] == pre_vertices@[src_at(pre_vertices@.len() as int, i)][0].y,
        forall|i: int|
            0 <= i < padded_len(pre_vertices@.len() as int) ==> #[trigger] r.0[0][2]@[i] == pre_vertices@[src_at(pre_vertices@.len() as int, i)][0].z,
        forall|i: int|
            0 <= i < padded_len(pre_vertices@.len() as int) ==> #[trigger] r.0[1][0]@[i] == pre_vertices@[src_at(pre_vertices@.len() as int, i)][1].x,
        forall|i: int|
            0 <= i < padded_len(pre_vertices@.len() as int) ==> #[trigger] r.0[1][1]@[i] == pre_vertices@[src_at(pre_vertices@.len() as int, i)][1].y,
        forall|i: int|
            0 <= i < padded_len(pre_vertices@.len() as int) ==> #[trigger] r.0[1][2]@[i] == pre_vertices@[src_at(pre_vertices@.len() as int, i)][1].z,
        forall|i: int|
            0 <= i < padded_len(pre_vertices@.len() as int) ==> #[trigger] r.0[2][0]@[i] == pre_vertices@[src_at(pre_vertices@.len() as int, i)][2].x,
        forall|i: int|
            0 <= i < padded_len(pre_vertices@.len() as int) ==> #[trigger] r.0[2][1]@[i] == pre_vertices@[src_at(pre_vertices@.len() as int, i)][2].y,
        forall|i: int|
            0 <= i < padded_len(pre_vertices@.len() as int) ==> #[trigger] r.0[2][2]@[i] == pre_vertices@[src_at(pre_vertices@.len() as int, i)][2].z,
        forall|i: int|
            0 <= i < padded_len(pre_vertices@.len() as int) ==> #[trigger] r.1[0][0]@[i] == pre_edges@[src_at(pre_vertices@.len() as int, i)][0].x,
        forall|i: int|
            0 <= i < padded_len(pre_vertices@.len() as int) ==> #[trigger] r.1[0][1]@[i] == pre_edges@[src_at(pre_vertices@.len() as int, i)][0].y,
        forall|i: int|
            0 <= i < padded_len(pre_vertices@.len() as int) ==> #[trigger] r.1[0][2]@[i] == pre_edges@[src_at(pre_vertices@.len() as int, i)][0].z,
        forall|i: int|
            0 <= i < padded_len(pre_vertices@.len() as int) ==> #[trigger] r.1[1][0]@[i] == pre_edges@[src_at(pre_vertices@.len() as int, i)][1].x,
        forall|i: int|
            0 <= i < padded_len(pre_vertices@.len() as int) ==> #[trigger] r.1[1][1]@[i] == pre_edges@[src_at(pre_vertices@.len() as int, i)][1].y,
        forall|i: int|
            0 <= i < padded_len(pre_vertices@.len() as int) ==> #[trigger] r.1[1][2]@[i] == pre_edges@[src_at(pre_vertices@.len() as int, i)][1].z,
        forall|i: int|
            0 <= i < padded_len(pre_vertices@.len() as int) ==> #[trigger] r.2[0]@[i] == pre_normals@[src_at(pre_vertices@.len() as int, i)].x,
        forall|i: int|
            0 <= i < padded_len(pre_vertices@.len() as int) ==> #[trigger] r.2[1]@[i] == pre_normals@[src_at(pre_vertices@.len() as int, i)].y,
        forall|i: int|
            0 <= i < padded_len(pre_vertices@.len() as int) ==> #[trigger] r.2[2]@[i] == pre_normals@[src_at(pre_vertices@.len() as int, i)].z,
{
    let n = pre_vertices.len();
    let rem = n % LANE_WIDTH;
    let pad: usize = if rem == 0 {
        0
    } else {
        LANE_WIDTH - rem
    };
    let p = n + pad;
    let mut v00: Vec<i64> = Vec::new();
    let mut v01: Vec<i64> = Vec::new();
    let mut v02: Vec<i64> = Vec::new();
    let mut v10: Vec<i64> = Vec::new();
    let mut v11: Vec<i64> = Vec::new();
    let mut v12: Vec<i64> = Vec::new();
    let mut v20: Vec<i64> = Vec::new();
    let mut v21: Vec<i64> = Vec::new();
    let mut v22: Vec<i64> = Vec::new();
    let mut e00: Vec<i64> = Vec::new();
    let mut e01: Vec<i64> = Vec::new();
    let mut e02: Vec<i64> = Vec::new();
    let mut e10: Vec<i64> = Vec::new();
    let mut e11: Vec<i64> = Vec::new();
    let mut e12: Vec<i64> = Vec::new();
    let mut n0: Vec<i64> = Vec::new();
    let mut n1: Vec<i64> = Vec::new();
    let mut n2: Vec<i64> = Vec::new();
    let mut is_padding_triangle: Vec<bool> = Vec::new();
    let mut i: usize = 0;
    while i < p
        invariant
            0 <= i <= p,
            n == pre_vertices@.len() == pre_edges@.len() == pre_normals@.len(),
            p == padded_len(n as int),
            n <= p,
            v00@.len() == i,
            v01@.len() == i,
            v02@.len() == i,
            v10@.len() == i,
            v11@.len() == i,
            v12@.len() == i,
            v20@.len() == i,
            v21@.len() == i,
            v22@.len() == i,
            e00@.len() == i,
            e01@.len() == i,
            e02@.len() == i,
            e10@.len() == i,
            e11@.len() == i,
            e12@.len() == i,
            n0@.len() == i,
            n1@.len() == i,
            n2@.len() == i,
            is_padding_triangle@.len() == i,
            forall|j: int| 0 <= j < i ==> #[trigger] is_padding_triangle@[j] == (j >= n),
            forall|j: int| 0 <= j < i ==> #[trigger] v00@[j] == pre_vertices@[src_at(n as int, j)][0].x,
            forall|j: int| 0 <= j < i ==> #[trigger] v01@[j] == pre_vertices@[src_at(n as int, j)][0].y,
            forall|j: int| 0 <= j < i ==> #[trigger] v02@[j] == pre_vertices@[src_at(n as int, j)][0].z,
            forall|j: int| 0 <= j < i ==> #[trigger] v10@[j] == pre_vertices@[src_at(n as int, j)][1].x,
            forall|j: int| 0 <= j < i ==> #[trigger] v11@[j] == pre_vertices@[src_at(n as int, j)][1].y,
            forall|j: int| 0 <= j < i ==> #[trigger] v12@[j] == pre_vertices@[src_at(n as int, j)][1].z,
            forall|j: int| 0 <= j < i ==> #[trigger] v20@[j] == pre_vertices@[src_at(n as int, j)][2].x,
            forall|j: int| 0 <= j < i ==> #[trigger] v21@[j] == pre_vertices@[src_at(n as int, j)][2].y,
            forall|j: int| 0 <= j < i ==> #[trigger] v22@[j] == pre_vertices@[src_at(n as int, j)][2].z,
            forall|j: int| 0 <= j < i ==> #[trigger] e00@[j] == pre_edges@[src_at(n as int, j)][0].x,
            forall|j: int| 0 <= j < i ==> #[trigger] e01@[j] == pre_edges@[src_at(n as int, j)][0].y,
            forall|j: int| 0 <= j < i ==> #[trigger] e02@[j] == pre_edges@[src_at(n as int, j)][0].z,
            forall|j: int| 0 <= j < i ==> #[trigger] e10@[j] == pre_edges@[src_at(n as int, j)][1].x,
            forall|j: int| 0 <= j < i ==> #[trigger] e11@[j] == pre_edges@[src_at(n as int, j)][1].y,
            forall|j: int| 0 <= j < i ==> #[trigger] e12@[j] == pre_edges@[src_at(n as int, j)][1].z,
            forall|j: int| 0 <= j < i ==> #[trigger] n0@[j] == pre_normals@[src_at(n as int, j)].x,
            forall|j: int| 0 <= j < i ==> #[trigger] n1@[j] == pre_normals@[src_at(n as int, j)].y,
            forall|j: int| 0 <= j < i ==> #[trigger] n2@[j] == pre_normals@[src_at(n as int, j)].z,
        decreases p - i,
    {
        let src: usize = if i < n {
            i
        } else {
            0
        };
        let tri = pre_vertices[src];
        let edge = pre_edges[src];
        let normal = pre_normals[src];
        v00.push(tri[0].x);
        v01.push(tri[0].y);
        v02.push(tri[0].z);
        v10.push(tri[1].x);
        v11.push(tri[1].y);
        v12.push(tri[1].z);
        v20.push(tri[2].x);
        v21.push(tri[2].y);
        v22.push(tri[2].z);
        e00.push(edge[0].x);
        e01.push(edge[0].y);
        e02.push(edge[0].z);
        e10.push(edge[1].x);
        e11.push(edge[1].y);
        e12.push(edge[1].z);
        n0.push(normal.x);
        n1.push(normal.y);
        n2.push(normal.z);
        is_padding_triangle.push(i >= n);
        i = i + 1;
    }
    let ghost v00s = v00@;
    let ghost v01s = v01@;
    let ghost v02s = v02@;
    let ghost v10s = v10@;
    let ghost v11s = v11@;
    let ghost v12s = v12@;
    let ghost v20s = v20@;
    let ghost v21s = v21@;
    let ghost v22s = v22@;
    let ghost e00s = e00@;
    let ghost e01s = e01@;
    let ghost e02s = e02@;
    let ghost e10s = e10@;
    let ghost e11s = e11@;
    let ghost e12s = e12@;
    let ghost n0s = n0@;
    let ghost n1s = n1@;
    let ghost n2s = n2@;
    let vertices = [[v00, v01, v02], [v10, v11, v12], [v20, v21, v22]];
    let edges = [[e00, e01, e02], [e10, e11, e12]];
    let normals = [n0, n1, n2];
    proof {
        let gn = pre_vertices@.len() as int;
        let gp = padded_len(gn);
        assert(forall|i: int|
            0 <= i < gp ==> #[trigger] vertices[0][0]@[i] == pre_vertices@[src_at(gn, i)][0].x) by {
            assert(vertices[0][0]@ == v00s);
            assert(forall|j: int| 0 <= j < gp ==> #[trigger] v00s[j] == pre_vertices@[src_at(gn, j)][0].x);
        };
        assert(forall|i: int|
            0 <= i < gp ==> #[trigger] vertices[0][1]@[i] == pre_vertices@[src_at(gn, i)][0].y) by {
            assert(vertices[0][1]@ == v01s);
            assert(forall|j: int| 0 <= j < gp ==> #[trigger] v01s[j] == pre_vertices@[src_at(gn, j)][0].y);
        };
        assert(forall|i: int|
            0 <= i < gp ==> #[trigger] vertices[0][2]@[i] == pre_vertices@[src_at(gn, i)][0].z) by {
            assert(vertices[0][2]@ == v02s);
            assert(forall|j: int| 0 <= j < gp ==> #[trigger] v02s[j] == pre_vertices@[src_at(gn, j)][0].z);
        };
        assert(forall|i: int|
            0 <= i < gp ==> #[trigger] vertices[1][0]@[i] == pre_vertices@[src_at(gn, i)][1].x) by {
            assert(vertices[1][0]@ == v10s);
            assert(forall|j: int| 0 <= j < gp ==> #[trigger] v10s[j] == pre_vertices@[src_at(gn, j)][1].x);
        };
        assert(forall|i: int|
            0 <= i < gp ==> #[trigger] vertices[1][1]@[i] == pre_vertices@[src_at(gn, i)][1].y) by {
            assert(vertices[1][1]@ == v11s);
            assert(forall|j: int| 0 <= j < gp ==> #[trigger] v11s[j] == pre_vertices@[src_at(gn, j)][1].y);
        };
        assert(forall|i: int|
            0 <= i < gp ==> #[trigger] vertices[1][2]@[i] == pre_vertices@[src_at(gn, i)][1].z) by {
            assert(vertices[1][2]@ == v12s);
            assert(forall|j: int| 0 <= j < gp ==> #[trigger] v12s[j] == pre_vertices@[src_at(gn, j)][1].z);
        };
        assert(forall|i: int|
            0 <= i < gp ==> #[trigger] vertices[2][0]@[i] == pre_vertices@[src_at(gn, i)][2].x) by {
            assert(vertices[2][0]@ == v20s);
            assert(forall|j: int| 0 <= j < gp ==> #[trigger] v20s[j] == pre_vertices@[src_at(gn, j)][2].x);
        };
        assert(forall|i: int|
            0 <= i < gp ==> #[trigger] vertices[2][1]@[i] == pre_vertices@[src_at(gn, i)][2].y) by {
            assert(vertices[2][1]@ == v21s);
            assert(forall|j: int| 0 <= j < gp ==> #[trigger] v21s[j] == pre_vertices@[src_at(gn, j)][2].y);
        };
        assert(forall|i: int|
            0 <= i < gp ==> #[trigger] vertices[2][2]@[i] == pre_vertices@[src_at(gn, i)][2].z) by {
            assert(vertices[2][2]@ == v22s);
            assert(forall|j: int| 0 <= j < gp ==> #[trigger] v22s[j] == pre_vertices@[src_at(gn, j)][2].z);
        };
        assert(forall|i: int|
            0 <= i < gp ==> #[trigger] edges[0][0]@[i] == pre_edges@[src_at(gn, i)][0].x) by {
            assert(edges[0][0]@ == e00s);
            assert(forall|j: int| 0 <= j < gp ==> #[trigger] e00s[j] == pre_edges@[src_at(gn, j)][0].x);
        };
        assert(forall|i: int|
            0 <= i < gp ==> #[trigger] edges[0][1]@[i] == pre_edges@[src_at(gn, i)][0].y) by {
            assert(edges[0][1]@ == e01s);
            assert(forall|j: int| 0 <= j < gp ==> #[trigger] e01s[j] == pre_edges@[src_at(gn, j)][0].y);
        };
        assert(forall|i: int|
            0 <= i < gp ==> #[trigger] edges[0][2]@[i] == pre_edges@[src_at(gn, i)][0].z) by {
            assert(edges[0][2]@ == e02s);
            assert(forall|j: int| 0 <= j < gp ==> #[trigger] e02s[j] == pre_edges@[src_at(gn, j)][0].z);
        };
        assert(forall|i: int|
            0 <= i < gp ==> #[trigger] edges[1][0]@[i] == pre_edges@[src_at(gn, i)][1].x) by {
            assert(edges[1][0]@ == e10s);
            assert(forall|j: int| 0 <= j < gp ==> #[trigger] e10s[j] == pre_edges@[src_at(gn, j)][1].x);
        };
        assert(forall|i: int|
            0 <= i < gp ==> #[trigger] edges[1][1]@[i] == pre_edges@[src_at(gn, i)][1].y) by {
            assert(edges[1][1]@ == e11s);
            assert(forall|j: int| 0 <= j < gp ==> #[trigger] e11s[j] == pre_edges@[src_at(gn, j)][1].y);
        };
        assert(forall|i: int|
            0 <= i < gp ==> #[trigger] edges[1][2]@[i] == pre_edges@[src_at(gn, i)][1].z) by {
            assert(edges[1][2]@ == e12s);
            assert(forall|j: int| 0 <= j < gp ==> #[trigger] e12s[j] == pre_edges@[src_at(gn, j)][1].z);
        };
        assert(forall|i: int|
            0 <= i < gp ==> #[trigger] normals[0]@[i] == pre_normals@[src_at(gn, i)].x) by {
            assert(normals[0]@ == n0s);
            assert(forall|j: int| 0 <= j < gp ==> #[trigger] n0s[j] == pre_normals@[src_at(gn, j)].x);
        };
        assert(forall|i: int|
            0 <= i < gp ==> #[trigger] normals[1]@[i] == pre_normals@[src_at(gn, i)].y) by {
            assert(normals[1]@ == n1s);
            assert(forall|j: int| 0 <= j < gp ==> #[trigger] n1s[j] == pre_normals@[src_at(gn, j)].y);
        };
        assert(forall|i: int|
            0 <= i < gp ==> #[trigger] normals[2]@[i] == pre_normals@[src_at(gn, i)].z) by {
            assert(normals[2]@ == n2s);
            assert(forall|j: int| 0 <= j < gp ==> #[trigger] n2s[j] == pre_normals@[src_at(gn, j)].z);
        };
    }
    (vertices, edges, normals, is_padding_triangle)
}

/// Runs the batched scan on the path the given strategy selects.  All
/// three paths return the same result, so the choice is invisible in
/// the contract.
pub fn do_intersection_soa(
    ray: &Ray,
    vertices: &[[Vec<i64>; 3]; 3],
    edges: &[[Vec<i64>; 3]; 2],
    is_padding_triangle: &Vec<bool>,
    min_dist: i64,
    max_dist: i64,
    mode: LaneMode,
) -> (r: (Option<i64>, Option<usize>))
    requires
        ray_in_domain(*ray),
        soa_wf(
            soa_views(vertices, edges).0,
            soa_views(vertices, edges).1,
            is_padding_triangle@.len() as int,
        ),
        1 <= min_dist,
        max_dist <= SCAN_GATE,
        (is_padding_triangle@.len() as int) % (LANE_WIDTH as int) == 0,
    ensures
        r == soa_result(
            soa_views(vertices, edges).0,
            soa_views(vertices, edges).1,
            is_padding_triangle@,
            *ray,
            min_dist as int,
            max_dist as int,
        ),
{
    proof {
        let n = is_padding_triangle@.len() as int;
        lemma_fundamental_div_mod(n, 8);
        let q = n / 8;
        assert(n == 4 * (2 * q)) by (nonlinear_arith)
            requires
                n == 8 * q,
        ;
        lemma_mod_multiples_basic(2 * q, 4);
    }
    match mode {
        LaneMode::Eight => triangle_soa_avx_intersect_with_ray(
            ray,
            vertices,
            edges,
            is_padding_triangle,
            min_dist,
            max_dist,
        ),
        LaneMode::Four => triangle_soa_sse_intersect_with_ray(
            ray,
            vertices,
            edges,
            is_padding_triangle,
            min_dist,
            max_dist,
        ),
        LaneMode::Scalar => triangle_soa_intersect_with_ray(
            ray,
            vertices,
            edges,
            is_padding_triangle,
            min_dist,
            max_dist,
        ),
    }
}

/// What the mesh intersection reports: nothing when the bounding box
/// rejects the ray; otherwise the nearest triangle candidate, accepted
/// when its distance lies strictly inside the window.
pub open spec fn mesh_hit(m: TriangleMesh, ray: Ray, min_dist: int, max_dist: int) -> Option<
    HitInformation,
> {
    if !bbox_hit(m.bbox, ray) {
        Option::None
    } else {
        let sr = soa_result(
            soa_views(&m.vertices, &m.edges).0,
            soa_views(&m.vertices, &m.edges).1,
            m.is_padding_triangle@,
            ray,
            min_dist,
            max_dist,
        );
        match sr {
            (Option::Some(t), Option::Some(idx)) => {
                let p = ray_at(ray, t as int);
                let dist = v_len(v_sub(ray.origin, p));
                if dist > min_dist && dist < max_dist {
                    Option::Some(
                        HitInformation {
                            hit_point: p,
                            hit_normal: v3(
                                m.normals[0]@[idx as int] as int,
                                m.normals[1]@[idx as int] as int,
                                m.normals[2]@[idx as int] as int,
                            ),
                            hit_material: m.material,
                            dist_from_ray_orig: dist as i64,
                        },
                    )
                } else {
                    Option::None
                }
            },
            _ => Option::None,
        }
    }
}

impl TriangleMesh {
    /// Builds the padded structure-of-arrays mesh from a triangle
    /// list: edges and unit normals are precomputed per triangle, the
    /// bounding box spans the vertices.
    #[verifier::rlimit(100)]
    pub fn new(triangle_vertices: &Vec<[Vec3; 3]>, material: Material) -> (r: TriangleMesh)
        requires
            1 <= triangle_vertices@.len(),
            triangle_vertices@.len() + (LANE_WIDTH as int) <= usize::MAX,
            forall|i: int, j: int|
                0 <= i < triangle_vertices@.len() && 0 <= j < 3 ==> v_bounded(
                    #[trigger] triangle_vertices@[i][j],
                    crate::WORLD_MAX as int,
                ),
            material_wf(material),
        ensures
            mesh_wf(r),
            r.material == material,
            r.bbox.lower_bound == mesh_lower(triangle_vertices@),
            r.bbox.upper_bound == mesh_upper(triangle_vertices@),
            r.is_padding_triangle@.len() == padded_len(triangle_vertices@.len() as int),
            forall|i: int|
                0 <= i < r.is_padding_triangle@.len() ==> #[trigger] r.is_padding_triangle@[i] == (
                i >= triangle_vertices@.len()),
            forall|i: int|
                0 <= i < r.is_padding_triangle@.len() ==> ({
                    let tri = triangle_vertices@[src_at(triangle_vertices@.len() as int, i)];
                    #[trigger] r.vertices[0][0]@[i] == tri[0].x && r.vertices[0][1]@[i] == tri[0].y
                        && r.vertices[0][2]@[i] == tri[0].z
                }),
            forall|i: int|
                0 <= i < r.is_padding_triangle@.len() ==> ({
                    let tri = triangle_vertices@[src_at(triangle_vertices@.len() as int, i)];
                    let e = v_sub(tri[1], tri[0]);
                    #[trigger] r.edges[0][0]@[i] == e.x && r.edges[0][1]@[i] == e.y
                        && r.edges[0][2]@[i] == e.z
                }),
            forall|i: int|
                0 <= i < r.is_padding_triangle@.len() ==> ({
                    let tri = triangle_vertices@[src_at(triangle_vertices@.len() as int, i)];
                    let e = v_sub(tri[2], tri[0]);
                    #[trigger] r.edges[1][0]@[i] == e.x && r.edges[1][1]@[i] == e.y
                        && r.edges[1][2]@[i] == e.z
                }),
            forall|i: int|
                0 <= i < r.is_padding_triangle@.len() ==> ({
                    let tri = triangle_vertices@[src_at(triangle_vertices@.len() as int, i)];
                    let nm = triangle_normal(tri[0], tri[1], tri[2]);
                    #[trigger] r.normals[0]@[i] == nm.x && r.normals[1]@[i] == nm.y
                        && r.normals[2]@[i] == nm.z
                }),
    {
        let n = triangle_vertices.len();
        let mut pre_normals: Vec<Vec3> = Vec::new();
        let mut pre_edges: Vec<[Vec3; 2]> = Vec::new();
        let mut i: usize = 0;
        while i < n
            invariant
                0 <= i <= n,
                n == triangle_vertices@.len(),
                forall|k: int, j: int|
                    0 <= k < n && 0 <= j < 3 ==> v_bounded(
                        #[trigger] triangle_vertices@[k][j],
                        crate::WORLD_MAX as int,
                    ),
                pre_normals@.len() == i,
                pre_edges@.len() == i,
                forall|j: int|
                    0 <= j < i ==> #[trigger] pre_normals@[j] == triangle_normal(
                        triangle_vertices@[j][0],
                        triangle_vertices@[j][1],
                        triangle_vertices@[j][2],
                    ),
                forall|j: int|
                    0 <= j < i ==> v_bounded(
                        #[trigger] pre_normals@[j],
                        crate::fx::FX_ONE as int,
                    ),
                forall|j: int|
                    0 <= j < i ==> #[trigger] pre_edges@[j][0] == v_sub(
                        triangle_vertices@[j][1],
                        triangle_vertices@[j][0],
                    ),
                forall|j: int|
                    0 <= j < i ==> #[trigger] pre_edges@[j][1] == v_sub(
                        triangle_vertices@[j][2],
                        triangle_vertices@[j][0],
                    ),
            decreases n - i,
        {
            let tri = triangle_vertices[i];
            pre_normals.push(get_triangle_normal(&tri));
            pre_edges.push([tri[1].sub(tri[0]), tri[2].sub(tri[0])]);
            i = i + 1;
        }
        let extents = compute_min_max_3d(triangle_vertices);
        proof {
            crate::aabbox::lemma_mesh_bounds(triangle_vertices@, crate::WORLD_MAX as int);
        }
        let (vertices, edges, normals, is_padding_triangle) = convert_to_soa_mesh(
            triangle_vertices,
            &pre_edges,
            &pre_normals,
        );
        proof {
            let gn = triangle_vertices@.len() as int;
            let gp = padded_len(gn);
            let w = crate::WORLD_MAX as int;
            assert(crate::triangle::coord_arr_wf(vertices[0][0]@, gp, w));
            assert(crate::triangle::coord_arr_wf(vertices[0][1]@, gp, w));
            assert(crate::triangle::coord_arr_wf(vertices[0][2]@, gp, w));
            assert(crate::triangle::coord_arr_wf(vertices[1][0]@, gp, w));
            assert(crate::triangle::coord_arr_wf(vertices[1][1]@, gp, w));
            assert(crate::triangle::coord_arr_wf(vertices[1][2]@, gp, w));
            assert(crate::triangle::coord_arr_wf(vertices[2][0]@, gp, w));
            assert(crate::triangle::coord_arr_wf(vertices[2][1]@, gp, w));
            assert(crate::triangle::coord_arr_wf(vertices[2][2]@, gp, w));
            assert(crate::triangle::coord_arr_wf(edges[0][0]@, gp, 2 * w));
            assert(crate::triangle::coord_arr_wf(edges[0][1]@, gp, 2 * w));
            assert(crate::triangle::coord_arr_wf(edges[0][2]@, gp, 2 * w));
            assert(crate::triangle::coord_arr_wf(edges[1][0]@, gp, 2 * w));
            assert(crate::triangle::coord_arr_wf(edges[1][1]@, gp, 2 * w));
            assert(crate::triangle::coord_arr_wf(edges[1][2]@, gp, 2 * w));
            assert(crate::triangle::coord_arr_wf(normals[0]@, gp, crate::fx::FX_ONE as int));
            assert(crate::triangle::coord_arr_wf(normals[1]@, gp, crate::fx::FX_ONE as int));
            assert(crate::triangle::coord_arr_wf(normals[2]@, gp, crate::fx::FX_ONE as int));
            assert(gp % (LANE_WIDTH as int) == 0) by {
                vstd::arithmetic::div_mod::lemma_mod_bound(gn, LANE_WIDTH as int);
                vstd::arithmetic::div_mod::lemma_fundamental_div_mod(gn, LANE_WIDTH as int);
                let rr = gn % (LANE_WIDTH as int);
                if rr == 0 {
                } else {
                    assert(gp == gn + (LANE_WIDTH as int) - rr);
                    assert(gp == (LANE_WIDTH as int) * (gn / (LANE_WIDTH as int)) + (
                    LANE_WIDTH as int));
                    assert(gp == (LANE_WIDTH as int) * (gn / (LANE_WIDTH as int) + 1))
                        by (nonlinear_arith)
                        requires
                            gp == (LANE_WIDTH as int) * (gn / (LANE_WIDTH as int)) + (
                            LANE_WIDTH as int),
                    ;
                    lemma_mod_multiples_basic(gn / (LANE_WIDTH as int) + 1, LANE_WIDTH as int);
                    assert((gn / (LANE_WIDTH as int) + 1) * (LANE_WIDTH as int) == (
                    LANE_WIDTH as int) * (gn / (LANE_WIDTH as int) + 1)) by (nonlinear_arith);
                }
            };
        }
        TriangleMesh {
            is_padding_triangle,
            vertices,
            normals,
            edges,
            bbox: BoundingBox::new(extents.0, extents.1),
            material,
        }
    }

    /// Intersects the ray with the mesh: the bounding box gates the
    /// per-triangle scan, and the nearest candidate is accepted when
    /// its distance lies strictly inside the window.
    pub fn intersect_with_ray(&self, ray: &Ray, min_dist: i64, max_dist: i64, mode: LaneMode) -> (
        r: Option<HitInformation>)
        requires
            mesh_wf(*self),
            ray_in_domain(*ray),
            1 <= min_dist,
            max_dist <= RAY_PARAM_MAX,
        ensures
            r == mesh_hit(*self, *ray, min_dist as int, max_dist as int),
            r is Some ==> min_dist <= r->Some_0.dist_from_ray_orig <= max_dist,
            r is Some ==> r->Some_0.hit_material == self.material,
            r is Some ==> v_bounded(r->Some_0.hit_point, crate::HIT_MAX as int) && v_bounded(
                r->Some_0.hit_normal,
                crate::HIT_MAX as int,
            ),
            r is Some ==> v_bounded(
                v_sub(r->Some_0.hit_point, ray.origin),
                max_dist as int,
            ),
    {
        if !self.bbox.hit(ray) {
            return None;
        }
        let sr = do_intersection_soa(
            ray,
            &self.vertices,
            &self.edges,
            &self.is_padding_triangle,
            min_dist,
            max_dist,
            mode,
        );
        proof {
            crate::triangle::lemma_scan_min_found(
                crate::triangle::soa_candidates(
                    soa_views(&self.vertices, &self.edges).0,
                    soa_views(&self.vertices, &self.edges).1,
                    *ray,
                    min_dist as int,
                    max_dist as int,
                    self.is_padding_triangle@.len(),
                ),
                self.is_padding_triangle@,
                min_dist as int,
                self.is_padding_triangle@.len() as int,
            );
        }
        match sr {
            (Some(ray_param_cand), Some(hit_idx)) => {
                proof {
                    crate::fx::lemma_fxmul_bound(
                        ray_param_cand as int,
                        ray.direction.x as int,
                        RAY_PARAM_MAX as int,
                        crate::DIR_MAX as int,
                    );
                    crate::fx::lemma_fxmul_bound(
                        ray_param_cand as int,
                        ray.direction.y as int,
                        RAY_PARAM_MAX as int,
                        crate::DIR_MAX as int,
                    );
                    crate::fx::lemma_fxmul_bound(
                        ray_param_cand as int,
                        ray.direction.z as int,
                        RAY_PARAM_MAX as int,
                        crate::DIR_MAX as int,
                    );
                }
                let hit_point = ray.point_at(ray_param_cand);
                let delta = ray.origin.sub(hit_point);
                let dist_from_ray_orig: i64 = delta.length();
                if dist_from_ray_orig > min_dist && dist_from_ray_orig < max_dist {
                    proof {
                        crate::vec3::lemma_comp_le_len(delta);
                    }
                    Some(
                        HitInformation {
                            hit_point,
                            hit_normal: Vec3::new(
                                self.normals[0][hit_idx],
                                self.normals[1][hit_idx],
                                self.normals[2][hit_idx],
                            ),
                            hit_material: self.material,
                            dist_from_ray_orig,
                        },
                    )
                } else {
                    None
                }
            },
            _ => None,
        }
    }
}

} // verus!
