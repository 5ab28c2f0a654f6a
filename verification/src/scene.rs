//! The scene: every intersectable object, behind one nearest-hit query.

use crate::materials::material_wf;
use crate::mesh::{mesh_hit, mesh_wf, LaneMode, TriangleMesh};
use crate::ray::{ray_in_domain, Ray};
use crate::sphere::{sphere_hit, Sphere, RAY_PARAM_MAX};
use crate::triangle::{tri_hit, BasicTriangle};
use crate::vec3::{v_bounded, v_sub, Vec3};
use crate::HitInformation;
use vstd::prelude::*;

verus! {

/// A point light (an unused placeholder, kept with the scene).
pub struct Light {
    pub position: Vec3,
    pub color: Vec3,
}

/// A standalone intersectable: a sphere or a single triangle.
pub enum Element {
    Sphere(Sphere),
    Triangle(BasicTriangle),
}

/// The coordinate and material ranges an element must respect.
pub open spec fn element_wf(e: Element) -> bool {
    match e {
        Element::Sphere(s) => {
            &&& v_bounded(s.center, crate::WORLD_MAX as int)
            &&& 0 <= s.radius <= crate::WORLD_MAX
            &&& material_wf(s.material)
        },
        Element::Triangle(t) => {
            &&& v_bounded(t.corners[0], crate::WORLD_MAX as int)
            &&& v_bounded(t.edges[0], 2 * (crate::WORLD_MAX as int))
            &&& v_bounded(t.edges[1], 2 * (crate::WORLD_MAX as int))
            &&& v_bounded(t.normal, crate::fx::FX_ONE as int)
            &&& material_wf(t.material)
        },
    }
}

/// What intersecting one element reports.
pub open spec fn element_hit(e: Element, ray: Ray, min_dist: int, max_dist: int) -> Option<
    HitInformation,
> {
    match e {
        Element::Sphere(s) => sphere_hit(s, ray, min_dist, max_dist),
        Element::Triangle(t) => tri_hit(t, ray, min_dist, max_dist),
    }
}

/// The facts every reported hit satisfies: the distance lies in the
/// window, the record's coordinates lie in the supported domain, the
/// hit stays within `max_dist` of the ray origin, and the material is
/// well formed.
pub open spec fn hit_props(h: HitInformation, ray: Ray, min_dist: int, max_dist: int) -> bool {
    &&& min_dist <= h.dist_from_ray_orig <= max_dist
    &&& v_bounded(h.hit_point, crate::HIT_MAX as int)
    &&& v_bounded(h.hit_normal, crate::HIT_MAX as int)
    &&& v_bounded(v_sub(h.hit_point, ray.origin), max_dist)
    &&& material_wf(h.hit_material)
}

impl Element {
    pub fn intersect_with_ray(&self, ray: &Ray, min_dist: i64, max_dist: i64) -> (r: Option<
        HitInformation,
    >)
        requires
            element_wf(*self),
            ray_in_domain(*ray),
            1 <= min_dist,
            max_dist <= RAY_PARAM_MAX,
        ensures
            r == element_hit(*self, *ray, min_dist as int, max_dist as int),
            r is Some ==> hit_props(r->Some_0, *ray, min_dist as int, max_dist as int),
    {
        match self {
            Element::Sphere(s) => s.intersect_with_ray(ray, min_dist, max_dist),
            Element::Triangle(t) => t.intersect_with_ray(ray, min_dist, max_dist),
        }
    }
}

/// Of two optional hits, the one nearer to the ray origin; the current
/// one wins ties.
pub open spec fn closer_hit(cur: Option<HitInformation>, cand: Option<HitInformation>) -> Option<
    HitInformation,
> {
    match cand {
        Option::None => cur,
        Option::Some(h) => match cur {
            Option::None => Option::Some(h),
            Option::Some(c) => if h.dist_from_ray_orig < c.dist_from_ray_orig {
                Option::Some(h)
            } else {
                cur
            },
        },
    }
}

/// The nearest hit among the first `n` standalone elements.
pub open spec fn elements_best(
    elems: Seq<Element>,
    ray: Ray,
    min_dist: int,
    max_dist: int,
    n: int,
) -> Option<HitInformation>
    decreases n,
{
    if n <= 0 {
        Option::None
    } else {
        closer_hit(
            elements_best(elems, ray, min_dist, max_dist, n - 1),
            element_hit(elems[n - 1], ray, min_dist, max_dist),
        )
    }
}

/// The nearest hit among the first `n` meshes, starting from `acc`.
pub open spec fn meshes_best(
    acc: Option<HitInformation>,
    meshes: Seq<TriangleMesh>,
    ray: Ray,
    min_dist: int,
    max_dist: int,
    n: int,
) -> Option<HitInformation>
    decreases n,
{
    if n <= 0 {
        acc
    } else {
        closer_hit(
            meshes_best(acc, meshes, ray, min_dist, max_dist, n - 1),
            mesh_hit(meshes[n - 1], ray, min_dist, max_dist),
        )
    }
}

/// The scene's nearest-hit query: the closest hit over all standalone
/// elements and all meshes.
pub open spec fn scene_best_hit(s: Scene, ray: Ray, min_dist: int, max_dist: int) -> Option<
    HitInformation,
> {
    meshes_best(
        elements_best(s.elements@, ray, min_dist, max_dist, s.elements@.len() as int),
        s.triangle_meshes@,
        ray,
        min_dist,
        max_dist,
        s.triangle_meshes@.len() as int,
    )
}


/// The element fold returns a smallest hit: whatever any element
/// reports, the fold reports something at most as distant, and what
/// it reports is one of the elements' hits.
proof fn lemma_elements_best_min(elems: Seq<Element>, ray: Ray, min_dist: int, max_dist: int, n: int)
    requires
        0 <= n <= elems.len(),
    ensures
        forall|k: int|
            0 <= k < n && #[trigger] element_hit(elems[k], ray, min_dist, max_dist) is Some
                ==> elements_best(elems, ray, min_dist, max_dist, n) is Some && elements_best(
                elems,
                ray,
                min_dist,
                max_dist,
                n,
            )->Some_0.dist_from_ray_orig <= element_hit(
                elems[k],
                ray,
                min_dist,
                max_dist,
            )->Some_0.dist_from_ray_orig,
        elements_best(elems, ray, min_dist, max_dist, n) is Some ==> exists|k: int|
            0 <= k < n && #[trigger] element_hit(elems[k], ray, min_dist, max_dist)
                == elements_best(elems, ray, min_dist, max_dist, n),
    decreases n,
{
    if n > 0 {
        lemma_elements_best_min(elems, ray, min_dist, max_dist, n - 1);
    }
}

/// The mesh fold returns a smallest hit among its start value and all
/// mesh hits.
proof fn lemma_meshes_best_min(
    acc: Option<HitInformation>,
    meshes: Seq<TriangleMesh>,
    ray: Ray,
    min_dist: int,
    max_dist: int,
    n: int,
)
    requires
        0 <= n <= meshes.len(),
    ensures
        forall|k: int|
            0 <= k < n && #[trigger] mesh_hit(meshes[k], ray, min_dist, max_dist) is Some
                ==> meshes_best(acc, meshes, ray, min_dist, max_dist, n) is Some && meshes_best(
                acc,
                meshes,
                ray,
                min_dist,
                max_dist,
                n,
            )->Some_0.dist_from_ray_orig <= mesh_hit(
                meshes[k],
                ray,
                min_dist,
                max_dist,
            )->Some_0.dist_from_ray_orig,
        acc is Some ==> meshes_best(acc, meshes, ray, min_dist, max_dist, n) is Some
            && meshes_best(
            acc,
            meshes,
            ray,
            min_dist,
            max_dist,
            n,
        )->Some_0.dist_from_ray_orig <= acc->Some_0.dist_from_ray_orig,
        meshes_best(acc, meshes, ray, min_dist, max_dist, n) is Some ==> meshes_best(
            acc,
            meshes,
            ray,
            min_dist,
            max_dist,
            n,
        ) == acc || exists|k: int|
            0 <= k < n && #[trigger] mesh_hit(meshes[k], ray, min_dist, max_dist) == meshes_best(
                acc,
                meshes,
                ray,
                min_dist,
                max_dist,
                n,
            ),
    decreases n,
{
    if n > 0 {
        lemma_meshes_best_min(acc, meshes, ray, min_dist, max_dist, n - 1);
    }
}

/// The nearest-hit query really is nearest: every hit any object
/// reports is at least as distant as the reported one, and the
/// reported hit is one of the objects' hits.  In particular, the query
/// returns nothing only when no object reports a hit.
pub proof fn lemma_scene_hit_nearest(s: Scene, ray: Ray, min_dist: int, max_dist: int)
    ensures
        forall|k: int|
            0 <= k < s.elements@.len() && #[trigger] element_hit(
                s.elements@[k],
                ray,
                min_dist,
                max_dist,
            ) is Some ==> scene_best_hit(s, ray, min_dist, max_dist) is Some && scene_best_hit(
                s,
                ray,
                min_dist,
                max_dist,
            )->Some_0.dist_from_ray_orig <= element_hit(
                s.elements@[k],
                ray,
                min_dist,
                max_dist,
            )->Some_0.dist_from_ray_orig,
        forall|k: int|
            0 <= k < s.triangle_meshes@.len() && #[trigger] mesh_hit(
                s.triangle_meshes@[k],
                ray,
                min_dist,
                max_dist,
            ) is Some ==> scene_best_hit(s, ray, min_dist, max_dist) is Some && scene_best_hit(
                s,
                ray,
                min_dist,
                max_dist,
            )->Some_0.dist_from_ray_orig <= mesh_hit(
                s.triangle_meshes@[k],
                ray,
                min_dist,
                max_dist,
            )->Some_0.dist_from_ray_orig,
        scene_best_hit(s, ray, min_dist, max_dist) is Some ==> (exists|k: int|
            0 <= k < s.elements@.len() && #[trigger] element_hit(
                s.elements@[k],
                ray,
                min_dist,
                max_dist,
            ) == scene_best_hit(s, ray, min_dist, max_dist)) || (exists|k: int|
            0 <= k < s.triangle_meshes@.len() && #[trigger] mesh_hit(
                s.triangle_meshes@[k],
                ray,
                min_dist,
                max_dist,
            ) == scene_best_hit(s, ray, min_dist, max_dist)),
{
    let acc = elements_best(s.elements@, ray, min_dist, max_dist, s.elements@.len() as int);
    lemma_elements_best_min(s.elements@, ray, min_dist, max_dist, s.elements@.len() as int);
    lemma_meshes_best_min(
        acc,
        s.triangle_meshes@,
        ray,
        min_dist,
        max_dist,
        s.triangle_meshes@.len() as int,
    );
}

pub struct Scene {
    pub elements: Vec<Element>,
    pub triangle_meshes: Vec<TriangleMesh>,
    pub lights: Vec<Light>,
    /// the batched-scan strategy, chosen once at startup
    pub lane_mode: LaneMode,
}

/// Every object of the scene respects the coordinate and material
/// ranges.
pub open spec fn scene_wf(s: Scene) -> bool {
    &&& forall|i: int| 0 <= i < s.elements@.len() ==> element_wf(#[trigger] s.elements@[i])
    &&& forall|i: int|
        0 <= i < s.triangle_meshes@.len() ==> mesh_wf(#[trigger] s.triangle_meshes@[i])
}

impl Scene {
    /// Scans every element and every mesh, keeping the hit with the
    /// smallest distance; earlier objects win ties.
    pub fn hit(&self, ray: &Ray, min_dist: i64, max_dist: i64) -> (r: Option<HitInformation>)
        requires
            scene_wf(*self),
            ray_in_domain(*ray),
            1 <= min_dist,
            max_dist <= RAY_PARAM_MAX,
        ensures
            r == scene_best_hit(*self, *ray, min_dist as int, max_dist as int),
            r is Some ==> hit_props(r->Some_0, *ray, min_dist as int, max_dist as int),
    {
        let mut closest_hit_rec: Option<HitInformation> = None;
        let ne = self.elements.len();
        let mut i: usize = 0;
        while i < ne
            invariant
                0 <= i <= ne,
                ne == self.elements@.len(),
                scene_wf(*self),
                ray_in_domain(*ray),
                1 <= min_dist,
                max_dist <= RAY_PARAM_MAX,
                closest_hit_rec == elements_best(
                    self.elements@,
                    *ray,
                    min_dist as int,
                    max_dist as int,
                    i as int,
                ),
                closest_hit_rec is Some ==> hit_props(
                    closest_hit_rec->Some_0,
                    *ray,
                    min_dist as int,
                    max_dist as int,
                ),
            decreases ne - i,
        {
            let hit_info_op = self.elements[i].intersect_with_ray(ray, min_dist, max_dist);
            if let Some(hit_rec) = hit_info_op {
                let replace: bool = match &closest_hit_rec {
                    Some(cur) => hit_rec.dist_from_ray_orig < cur.dist_from_ray_orig,
                    None => true,
                };
                if replace {
                    closest_hit_rec = Some(hit_rec);
                }
            }
            i = i + 1;
        }
        let nm = self.triangle_meshes.len();
        let ghost after_elems = closest_hit_rec;
        let mut j: usize = 0;
        while j < nm
            invariant
                0 <= j <= nm,
                nm == self.triangle_meshes@.len(),
                scene_wf(*self),
                ray_in_domain(*ray),
                1 <= min_dist,
                max_dist <= RAY_PARAM_MAX,
                after_elems == elements_best(
                    self.elements@,
                    *ray,
                    min_dist as int,
                    max_dist as int,
                    self.elements@.len() as int,
                ),
                closest_hit_rec == meshes_best(
                    after_elems,
                    self.triangle_meshes@,
                    *ray,
                    min_dist as int,
                    max_dist as int,
                    j as int,
                ),
                closest_hit_rec is Some ==> hit_props(
                    closest_hit_rec->Some_0,
                    *ray,
                    min_dist as int,
                    max_dist as int,
                ),
            decreases nm - j,
        {
            let hit_info_op = self.triangle_meshes[j].intersect_with_ray(
                ray,
                min_dist,
                max_dist,
                self.lane_mode,
            );
            proof {
                assert(mesh_wf(self.triangle_meshes@[j as int]));
            }
            if let Some(hit_rec) = hit_info_op {
                let replace: bool = match &closest_hit_rec {
                    Some(cur) => hit_rec.dist_from_ray_orig < cur.dist_from_ray_orig,
                    None => true,
                };
                if replace {
                    closest_hit_rec = Some(hit_rec);
                }
            }
            j = j + 1;
        }
        closest_hit_rec
    }
}

} // verus!
