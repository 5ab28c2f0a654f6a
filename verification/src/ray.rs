//! Rays: an origin and a (not necessarily unit) direction.

use crate::vec3::{v3, v_add, v_bounded, v_scale, Vec3};
use vstd::prelude::*;

verus! {

#[derive(Copy, Clone, Debug, PartialEq, Eq, Structural)]
pub struct Ray {
    pub origin: Vec3,
    pub direction: Vec3,
}

/// The point `origin + t * direction`.
pub open spec fn ray_at(r: Ray, t: int) -> Vec3 {
    v_add(r.origin, v_scale(t, r.direction))
}

/// The ray lies in the coordinate domain the kernels support: the origin
/// within the travel budget, the direction of roughly unit size.
pub open spec fn ray_in_domain(r: Ray) -> bool {
    &&& v_bounded(r.origin, crate::ORG_MAX as int)
    &&& v_bounded(r.direction, crate::DIR_MAX as int)
}

impl Ray {
    pub fn point_at(&self, ray_param: i64) -> (p: Vec3)
        requires
            v_bounded(self.origin, 0x1000_0000_0000_0000),
            v_bounded(self.direction, crate::DIR_MAX as int),
            -0x10_0000_0000 <= ray_param <= 0x10_0000_0000,
        ensures
            p == ray_at(*self, ray_param as int),
            v_bounded(p, 0x1000_0800_0000_0000),
    {
        proof {
            crate::fx::lemma_fxmul_bound(
                ray_param as int,
                self.direction.x as int,
                0x10_0000_0000,
                crate::DIR_MAX as int,
            );
            crate::fx::lemma_fxmul_bound(
                ray_param as int,
                self.direction.y as int,
                0x10_0000_0000,
                crate::DIR_MAX as int,
            );
            crate::fx::lemma_fxmul_bound(
                ray_param as int,
                self.direction.z as int,
                0x10_0000_0000,
                crate::DIR_MAX as int,
            );
        }
        let step: Vec3 = self.direction.scale(ray_param);
        self.origin.add(step)
    }

    pub fn zero() -> (r: Ray)
        ensures
            r == (Ray { origin: v3(0, 0, 0), direction: v3(0, 0, 0) }),
    {
        Ray { origin: Vec3::zero(), direction: Vec3::zero() }
    }
}

} // verus!
