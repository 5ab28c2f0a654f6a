//! Axis-aligned bounding boxes and the slab test.
//!
//! The ray crosses the two planes of each axis slab at the parameters
//! `(lower - origin) / d` and `(upper - origin) / d`.  Instead of
//! dividing, the test compares these rationals exactly: after flipping
//! signs so the denominator `|d|` is positive, the entry numerator,
//! exit numerator and denominator of each axis are compared pairwise by
//! cross-multiplication.  The box is hit exactly when the parametric
//! intersection interval is nonempty (`t_min <= t_max`) and not
//! entirely behind the origin (`t_max >= 0`); a ray grazing one face
//! (`t_min == t_max`) counts as a hit.

use crate::fx::{absi, lemma_mul_bounds};
use crate::ray::Ray;
use crate::vec3::{v3, v_bounded, Vec3};
use vstd::prelude::*;

verus! {

/// Axis aligned bounding box.
pub struct BoundingBox {
    pub lower_bound: Vec3,
    pub upper_bound: Vec3,
}

/// The larger of two coordinates, for readability.
pub fn max(a: i64, b: i64) -> (r: i64)
    ensures
        r == vstd::math::max(a as int, b as int),
{
    if a >= b {
        a
    } else {
        b
    }
}

/// The smaller of two coordinates, for readability.
pub fn min(a: i64, b: i64) -> (r: i64)
    ensures
        r == vstd::math::min(a as int, b as int),
{
    if a <= b {
        a
    } else {
        b
    }
}

/// Entry numerator of an axis slab over the positive denominator
/// `|d|` (zero when the axis is unconstrained, `d == 0`).
pub open spec fn slab_lo(l: int, u: int, o: int, d: int) -> int {
    if d > 0 {
        l - o
    } else if d < 0 {
        o - u
    } else {
        0
    }
}

/// Exit numerator of an axis slab over the positive denominator `|d|`.
pub open spec fn slab_hi(l: int, u: int, o: int, d: int) -> int {
    if d > 0 {
        u - o
    } else if d < 0 {
        o - l
    } else {
        0
    }
}

/// A ray parallel to an axis slab misses the box when its origin lies
/// outside that slab.
pub open spec fn slab_blocks(l: int, u: int, o: int, d: int) -> bool {
    d == 0 && (o < l || o > u)
}

/// The entry parameter of axis `i` exceeds the exit parameter of axis
/// `j`: `lo_i / den_i > hi_j / den_j`, compared by cross-multiplication.
pub open spec fn entry_after_exit(lo_i: int, den_i: int, hi_j: int, den_j: int) -> bool {
    den_i > 0 && den_j > 0 && lo_i * den_j > hi_j * den_i
}

/// The exact slab test.
pub open spec fn bbox_hit(b: BoundingBox, r: Ray) -> bool {
    let lx = b.lower_bound.x as int;
    let ly = b.lower_bound.y as int;
    let lz = b.lower_bound.z as int;
    let ux = b.upper_bound.x as int;
    let uy = b.upper_bound.y as int;
    let uz = b.upper_bound.z as int;
    let ox = r.origin.x as int;
    let oy = r.origin.y as int;
    let oz = r.origin.z as int;
    let dx = r.direction.x as int;
    let dy = r.direction.y as int;
    let dz = r.direction.z as int;
    let lo_x = slab_lo(lx, ux, ox, dx);
    let hi_x = slab_hi(lx, ux, ox, dx);
    let lo_y = slab_lo(ly, uy, oy, dy);
    let hi_y = slab_hi(ly, uy, oy, dy);
    let lo_z = slab_lo(lz, uz, oz, dz);
    let hi_z = slab_hi(lz, uz, oz, dz);
    let den_x = absi(dx);
    let den_y = absi(dy);
    let den_z = absi(dz);
    if slab_blocks(lx, ux, ox, dx) || slab_blocks(ly, uy, oy, dy) || slab_blocks(
        lz,
        uz,
        oz,
        dz,
    ) {
        false
    } else if (den_x > 0 && hi_x < 0) || (den_y > 0 && hi_y < 0) || (den_z > 0 && hi_z < 0) {
        // the exit of some slab lies behind the origin: t_max < 0
        false
    } else if entry_after_exit(lo_x, den_x, hi_x, den_x) || entry_after_exit(
        lo_x,
        den_x,
        hi_y,
        den_y,
    ) || entry_after_exit(lo_x, den_x, hi_z, den_z) || entry_after_exit(
        lo_y,
        den_y,
        hi_x,
        den_x,
    ) || entry_after_exit(lo_y, den_y, hi_y, den_y) || entry_after_exit(
        lo_y,
        den_y,
        hi_z,
        den_z,
    ) || entry_after_exit(lo_z, den_z, hi_x, den_x) || entry_after_exit(
        lo_z,
        den_z,
        hi_y,
        den_y,
    ) || entry_after_exit(lo_z, den_z, hi_z, den_z) {
        // the interval is empty: t_min > t_max
        false
    } else {
        true
    }
}

/// Sign-normalized slab bounds of one axis: entry and exit numerator
/// over the positive denominator `|d|`; all zero when `d == 0`.
fn axis_bounds(l: i64, u: i64, o: i64, d: i64) -> (r: (i128, i128, i128))
    requires
        -(crate::WORLD_MAX as int) <= l <= crate::WORLD_MAX as int,
        -(crate::WORLD_MAX as int) <= u <= crate::WORLD_MAX as int,
        -(crate::ORG_MAX as int) <= o <= crate::ORG_MAX as int,
        -(crate::DIR_MAX as int) <= d <= crate::DIR_MAX as int,
    ensures
        r.0 == slab_lo(l as int, u as int, o as int, d as int),
        r.1 == slab_hi(l as int, u as int, o as int, d as int),
        r.2 == absi(d as int),
        -0x4000_0000_0000 <= r.0 <= 0x4000_0000_0000,
        -0x4000_0000_0000 <= r.1 <= 0x4000_0000_0000,
        0 <= r.2 <= crate::DIR_MAX as int,
{
    if d > 0 {
        ((l as i128) - (o as i128), (u as i128) - (o as i128), d as i128)
    } else if d < 0 {
        ((o as i128) - (u as i128), (o as i128) - (l as i128), -(d as i128))
    } else {
        (0, 0, 0)
    }
}

/// Whether the entry parameter `lo_i / den_i` exceeds the exit
/// parameter `hi_j / den_j`.
fn entry_exceeds_exit(lo_i: i128, den_i: i128, hi_j: i128, den_j: i128) -> (r: bool)
    requires
        -0x4000_0000_0000 <= lo_i <= 0x4000_0000_0000,
        -0x4000_0000_0000 <= hi_j <= 0x4000_0000_0000,
        0 <= den_i <= crate::DIR_MAX as int,
        0 <= den_j <= crate::DIR_MAX as int,
    ensures
        r == entry_after_exit(lo_i as int, den_i as int, hi_j as int, den_j as int),
{
    proof {
        lemma_mul_bounds(lo_i as int, den_j as int, 0x4000_0000_0000, crate::DIR_MAX as int);
        lemma_mul_bounds(hi_j as int, den_i as int, 0x4000_0000_0000, crate::DIR_MAX as int);
    }
    den_i > 0 && den_j > 0 && lo_i * den_j > hi_j * den_i
}

impl BoundingBox {
    pub fn new(lower_bound: Vec3, upper_bound: Vec3) -> (r: BoundingBox)
        ensures
            r.lower_bound == lower_bound,
            r.upper_bound == upper_bound,
    {
        BoundingBox { lower_bound, upper_bound }
    }

    /// The slab test: true exactly when the ray's parametric
    /// intersection interval with the box is nonempty and not entirely
    /// behind the origin.
    pub fn hit(&self, ray: &Ray) -> (r: bool)
        requires
            v_bounded(self.lower_bound, crate::WORLD_MAX as int),
            v_bounded(self.upper_bound, crate::WORLD_MAX as int),
            crate::ray::ray_in_domain(*ray),
        ensures
            r == bbox_hit(*self, *ray),
    {
        // a ray parallel to a slab it never enters misses outright
        if ray.direction.x == 0 && (ray.origin.x < self.lower_bound.x || ray.origin.x
            > self.upper_bound.x) {
            return false;
        }
        if ray.direction.y == 0 && (ray.origin.y < self.lower_bound.y || ray.origin.y
            > self.upper_bound.y) {
            return false;
        }
        if ray.direction.z == 0 && (ray.origin.z < self.lower_bound.z || ray.origin.z
            > self.upper_bound.z) {
            return false;
        }
        let bx = axis_bounds(self.lower_bound.x, self.upper_bound.x, ray.origin.x, ray.direction.x);
        let by = axis_bounds(self.lower_bound.y, self.upper_bound.y, ray.origin.y, ray.direction.y);
        let bz = axis_bounds(self.lower_bound.z, self.upper_bound.z, ray.origin.z, ray.direction.z);
        // intersection, but opposite to the ray direction: t_max < 0
        if bx.2 > 0 && bx.1 < 0 {
            return false;
        }
        if by.2 > 0 && by.1 < 0 {
            return false;
        }
        if bz.2 > 0 && bz.1 < 0 {
            return false;
        }
        // the biggest entry exceeds the smallest exit: t_min > t_max
        if entry_exceeds_exit(bx.0, bx.2, bx.1, bx.2) {
            return false;
        }
        if entry_exceeds_exit(bx.0, bx.2, by.1, by.2) {
            return false;
        }
        if entry_exceeds_exit(bx.0, bx.2, bz.1, bz.2) {
            return false;
        }
        if entry_exceeds_exit(by.0, by.2, bx.1, bx.2) {
            return false;
        }
        if entry_exceeds_exit(by.0, by.2, by.1, by.2) {
            return false;
        }
        if entry_exceeds_exit(by.0, by.2, bz.1, bz.2) {
            return false;
        }
        if entry_exceeds_exit(bz.0, bz.2, bx.1, bx.2) {
            return false;
        }
        if entry_exceeds_exit(bz.0, bz.2, by.1, by.2) {
            return false;
        }
        if entry_exceeds_exit(bz.0, bz.2, bz.1, bz.2) {
            return false;
        }
        true
    }
}


/// The rational ray parameter `tn / td` (with `td > 0`) keeps the ray
/// inside the axis slab `[l, u]`: `l <= o + (tn/td) d <= u`, cleared
/// of the denominator.
pub open spec fn in_slab(l: int, u: int, o: int, d: int, tn: int, td: int) -> bool {
    l * td <= o * td + tn * d <= u * td
}

/// Multiplying both sides of an inequality by a positive factor.
proof fn lemma_mul_le(a: int, b: int, c: int)
    by (nonlinear_arith)
    requires
        a <= b,
        c > 0,
    ensures
        a * c <= b * c,
{
}

/// Cancelling a positive factor from both sides of an inequality.
proof fn lemma_mul_cancel(a: int, b: int, c: int)
    by (nonlinear_arith)
    requires
        a * c <= b * c,
        c > 0,
    ensures
        a <= b,
{
}

/// For a constrained axis, membership in the slab is the normalized
/// two-sided bound on `tn * |d|`.
proof fn lemma_in_slab_normalized(l: int, u: int, o: int, d: int, tn: int, td: int)
    by (nonlinear_arith)
    requires
        td > 0,
        d != 0,
    ensures
        in_slab(l, u, o, d, tn, td) <==> (slab_lo(l, u, o, d) * td <= tn * absi(d) && tn * absi(d)
            <= slab_hi(l, u, o, d) * td),
{
}

/// Soundness of the slab test: when some rational parameter `tn / td`
/// at or in front of the origin lies inside all three slabs, the test
/// reports a hit.
pub proof fn lemma_bbox_hit_complete(b: BoundingBox, r: Ray, tn: int, td: int)
    requires
        td > 0,
        tn >= 0,
        in_slab(
            b.lower_bound.x as int,
            b.upper_bound.x as int,
            r.origin.x as int,
            r.direction.x as int,
            tn,
            td,
        ),
        in_slab(
            b.lower_bound.y as int,
            b.upper_bound.y as int,
            r.origin.y as int,
            r.direction.y as int,
            tn,
            td,
        ),
        in_slab(
            b.lower_bound.z as int,
            b.upper_bound.z as int,
            r.origin.z as int,
            r.direction.z as int,
            tn,
            td,
        ),
    ensures
        bbox_hit(b, r),
{
    let lx = b.lower_bound.x as int;
    let ly = b.lower_bound.y as int;
    let lz = b.lower_bound.z as int;
    let ux = b.upper_bound.x as int;
    let uy = b.upper_bound.y as int;
    let uz = b.upper_bound.z as int;
    let ox = r.origin.x as int;
    let oy = r.origin.y as int;
    let oz = r.origin.z as int;
    let dx = r.direction.x as int;
    let dy = r.direction.y as int;
    let dz = r.direction.z as int;
    lemma_axis_not_blocked(lx, ux, ox, dx, tn, td);
    lemma_axis_not_blocked(ly, uy, oy, dy, tn, td);
    lemma_axis_not_blocked(lz, uz, oz, dz, tn, td);
    lemma_axis_exit_ahead(lx, ux, ox, dx, tn, td);
    lemma_axis_exit_ahead(ly, uy, oy, dy, tn, td);
    lemma_axis_exit_ahead(lz, uz, oz, dz, tn, td);
    lemma_axes_overlap(lx, ux, ox, dx, lx, ux, ox, dx, tn, td);
    lemma_axes_overlap(lx, ux, ox, dx, ly, uy, oy, dy, tn, td);
    lemma_axes_overlap(lx, ux, ox, dx, lz, uz, oz, dz, tn, td);
    lemma_axes_overlap(ly, uy, oy, dy, lx, ux, ox, dx, tn, td);
    lemma_axes_overlap(ly, uy, oy, dy, ly, uy, oy, dy, tn, td);
    lemma_axes_overlap(ly, uy, oy, dy, lz, uz, oz, dz, tn, td);
    lemma_axes_overlap(lz, uz, oz, dz, lx, ux, ox, dx, tn, td);
    lemma_axes_overlap(lz, uz, oz, dz, ly, uy, oy, dy, tn, td);
    lemma_axes_overlap(lz, uz, oz, dz, lz, uz, oz, dz, tn, td);
}

/// A slab containing a ray point cannot be a blocking parallel slab.
proof fn lemma_axis_not_blocked(l: int, u: int, o: int, d: int, tn: int, td: int)
    requires
        td > 0,
        in_slab(l, u, o, d, tn, td),
    ensures
        !slab_blocks(l, u, o, d),
{
    if d == 0 {
        lemma_mul_cancel(l, o, td);
        lemma_mul_cancel(o, u, td);
    }
}

/// A slab containing a forward ray point has its exit at or in front
/// of the origin.
proof fn lemma_axis_exit_ahead(l: int, u: int, o: int, d: int, tn: int, td: int)
    requires
        td > 0,
        tn >= 0,
        in_slab(l, u, o, d, tn, td),
    ensures
        d != 0 ==> slab_hi(l, u, o, d) >= 0,
{
    if d != 0 {
        lemma_in_slab_normalized(l, u, o, d, tn, td);
        assert(tn * absi(d) >= 0) by (nonlinear_arith)
            requires
                tn >= 0,
                absi(d) >= 0,
        ;
        lemma_mul_cancel(0, slab_hi(l, u, o, d), td);
    }
}

/// Two slabs containing one common ray point cannot have the entry of
/// one after the exit of the other.
proof fn lemma_axes_overlap(
    l1: int,
    u1: int,
    o1: int,
    d1: int,
    l2: int,
    u2: int,
    o2: int,
    d2: int,
    tn: int,
    td: int,
)
    requires
        td > 0,
        in_slab(l1, u1, o1, d1, tn, td),
        in_slab(l2, u2, o2, d2, tn, td),
    ensures
        !entry_after_exit(slab_lo(l1, u1, o1, d1), absi(d1), slab_hi(l2, u2, o2, d2), absi(d2)),
{
    if d1 != 0 && d2 != 0 {
        lemma_in_slab_normalized(l1, u1, o1, d1, tn, td);
        lemma_in_slab_normalized(l2, u2, o2, d2, tn, td);
        let lo1 = slab_lo(l1, u1, o1, d1);
        let hi2 = slab_hi(l2, u2, o2, d2);
        let n1 = absi(d1);
        let n2 = absi(d2);
        // lo1 * td <= tn * n1  and  tn * n2 <= hi2 * td
        assert(lo1 * td * n2 <= tn * n1 * n2) by (nonlinear_arith)
            requires
                lo1 * td <= tn * n1,
                n2 > 0,
        ;
        assert(tn * n1 * n2 <= hi2 * td * n1) by (nonlinear_arith)
            requires
                tn * n2 <= hi2 * td,
                n1 > 0,
        ;
        assert(lo1 * n2 * td <= hi2 * n1 * td) by (nonlinear_arith)
            requires
                lo1 * td * n2 <= hi2 * td * n1,
        ;
        lemma_mul_cancel(lo1 * n2, hi2 * n1, td);
    }
}


/// Comparison of nonnegative-denominator rationals by
/// cross-multiplication is transitive.
proof fn lemma_rat_le_trans(a: int, b: int, c: int, d: int, e: int, f: int)
    requires
        b > 0,
        d > 0,
        f > 0,
        a * d <= c * b,
        c * f <= e * d,
    ensures
        a * f <= e * b,
{
    assert((a * d) * f <= (c * b) * f) by (nonlinear_arith)
        requires
            a * d <= c * b,
            f > 0,
    ;
    assert((c * f) * b <= (e * d) * b) by (nonlinear_arith)
        requires
            c * f <= e * d,
            b > 0,
    ;
    assert((c * b) * f == (c * f) * b) by (nonlinear_arith);
    assert((a * d) * f == (a * f) * d) by (nonlinear_arith);
    assert((e * d) * b == (e * b) * d) by (nonlinear_arith);
    lemma_mul_cancel(a * f, e * b, d);
}

/// A parameter inside the normalized bounds of every constrained
/// axis, and whose slab the origin occupies on every unconstrained
/// axis, lies in all three slabs.
proof fn lemma_witness_in_slabs(b: BoundingBox, r: Ray, tn: int, td: int)
    requires
        td > 0,
        ({
            let l = b.lower_bound.x as int;
            let u = b.upper_bound.x as int;
            let o = r.origin.x as int;
            let d = r.direction.x as int;
            &&& d != 0 ==> slab_lo(l, u, o, d) * td <= tn * absi(d) && tn * absi(d) <= slab_hi(
                l,
                u,
                o,
                d,
            ) * td
            &&& d == 0 ==> l <= o <= u
        }),
        ({
            let l = b.lower_bound.y as int;
            let u = b.upper_bound.y as int;
            let o = r.origin.y as int;
            let d = r.direction.y as int;
            &&& d != 0 ==> slab_lo(l, u, o, d) * td <= tn * absi(d) && tn * absi(d) <= slab_hi(
                l,
                u,
                o,
                d,
            ) * td
            &&& d == 0 ==> l <= o <= u
        }),
        ({
            let l = b.lower_bound.z as int;
            let u = b.upper_bound.z as int;
            let o = r.origin.z as int;
            let d = r.direction.z as int;
            &&& d != 0 ==> slab_lo(l, u, o, d) * td <= tn * absi(d) && tn * absi(d) <= slab_hi(
                l,
                u,
                o,
                d,
            ) * td
            &&& d == 0 ==> l <= o <= u
        }),
    ensures
        in_slab(b.lower_bound.x as int, b.upper_bound.x as int, r.origin.x as int, r.direction.x as int, tn, td),
        in_slab(b.lower_bound.y as int, b.upper_bound.y as int, r.origin.y as int, r.direction.y as int, tn, td),
        in_slab(b.lower_bound.z as int, b.upper_bound.z as int, r.origin.z as int, r.direction.z as int, tn, td),
{
    lemma_one_axis_witness(b.lower_bound.x as int, b.upper_bound.x as int, r.origin.x as int, r.direction.x as int, tn, td);
    lemma_one_axis_witness(b.lower_bound.y as int, b.upper_bound.y as int, r.origin.y as int, r.direction.y as int, tn, td);
    lemma_one_axis_witness(b.lower_bound.z as int, b.upper_bound.z as int, r.origin.z as int, r.direction.z as int, tn, td);
}

proof fn lemma_one_axis_witness(l: int, u: int, o: int, d: int, tn: int, td: int)
    requires
        td > 0,
        d != 0 ==> slab_lo(l, u, o, d) * td <= tn * absi(d) && tn * absi(d) <= slab_hi(l, u, o, d)
            * td,
        d == 0 ==> l <= o <= u,
    ensures
        in_slab(l, u, o, d, tn, td),
{
    if d != 0 {
        lemma_in_slab_normalized(l, u, o, d, tn, td);
    } else {
        lemma_mul_le(l, o, td);
        lemma_mul_le(o, u, td);
        assert(tn * d == 0) by (nonlinear_arith)
            requires
                d == 0,
        ;
    }
}

/// Completeness of the slab test: when the test reports a hit, some
/// rational parameter `tn / td` at or in front of the origin lies
/// inside all three slabs (for a positive entry parameter the witness
/// is the largest slab entry; otherwise the origin itself works).
pub proof fn lemma_bbox_hit_sound(b: BoundingBox, r: Ray)
    requires
        bbox_hit(b, r),
    ensures
        exists|tn: int, td: int|
            td > 0 && tn >= 0 && #[trigger] in_slab(
                b.lower_bound.x as int,
                b.upper_bound.x as int,
                r.origin.x as int,
                r.direction.x as int,
                tn,
                td,
            ) && in_slab(
                b.lower_bound.y as int,
                b.upper_bound.y as int,
                r.origin.y as int,
                r.direction.y as int,
                tn,
                td,
            ) && in_slab(
                b.lower_bound.z as int,
                b.upper_bound.z as int,
                r.origin.z as int,
                r.direction.z as int,
                tn,
                td,
            ),
{
    let lx = b.lower_bound.x as int;
    let ly = b.lower_bound.y as int;
    let lz = b.lower_bound.z as int;
    let ux = b.upper_bound.x as int;
    let uy = b.upper_bound.y as int;
    let uz = b.upper_bound.z as int;
    let ox = r.origin.x as int;
    let oy = r.origin.y as int;
    let oz = r.origin.z as int;
    let dx = r.direction.x as int;
    let dy = r.direction.y as int;
    let dz = r.direction.z as int;
    let lox = slab_lo(lx, ux, ox, dx);
    let hix = slab_hi(lx, ux, ox, dx);
    let loy = slab_lo(ly, uy, oy, dy);
    let hiy = slab_hi(ly, uy, oy, dy);
    let loz = slab_lo(lz, uz, oz, dz);
    let hiz = slab_hi(lz, uz, oz, dz);
    let denx = absi(dx);
    let deny = absi(dy);
    let denz = absi(dz);
    let cx = dx != 0;
    let cy = dy != 0;
    let cz = dz != 0;
    if !cx && !cy && !cz {
        lemma_witness_in_slabs(b, r, 0, 1);
        assert(in_slab(lx, ux, ox, dx, 0, 1));
    } else {
        // the largest entry parameter over the constrained axes
        let (l1, d1): (int, int) = if cx {
            (lox, denx)
        } else if cy {
            (loy, deny)
        } else {
            (loz, denz)
        };
        let (l2, d2): (int, int) = if cy && l1 * deny < loy * d1 {
            (loy, deny)
        } else {
            (l1, d1)
        };
        let (l3, d3): (int, int) = if cz && l2 * denz < loz * d2 {
            (loz, denz)
        } else {
            (l2, d2)
        };
        assert(d1 > 0);
        assert(cx ==> lox * d1 <= l1 * denx);
        assert(cy ==> loy * d1 <= l1 * deny || (l2 == loy && d2 == deny) || (cy && l1 * deny
            < loy * d1));
        if cy && l1 * deny < loy * d1 {
            if cx {
                lemma_rat_le_trans(lox, denx, l1, d1, loy, deny);
            }
        }
        assert(cx ==> lox * d2 <= l2 * denx);
        assert(cy ==> loy * d2 <= l2 * deny);
        if cz && l2 * denz < loz * d2 {
            if cx {
                lemma_rat_le_trans(lox, denx, l2, d2, loz, denz);
            }
            if cy {
                lemma_rat_le_trans(loy, deny, l2, d2, loz, denz);
            }
        }
        assert(cx ==> lox * d3 <= l3 * denx);
        assert(cy ==> loy * d3 <= l3 * deny);
        assert(cz ==> loz * d3 <= l3 * denz);
        assert(d3 > 0);
        // the chosen maximum is one of the constrained axes, so the
        // pairwise overlap facts bound it by every exit parameter
        assert((cx && l3 == lox && d3 == denx) || (cy && l3 == loy && d3 == deny) || (cz && l3
            == loz && d3 == denz));
        assert(cx ==> l3 * denx <= hix * d3);
        assert(cy ==> l3 * deny <= hiy * d3);
        assert(cz ==> l3 * denz <= hiz * d3);
        if l3 > 0 {
            lemma_witness_in_slabs(b, r, l3, d3);
            assert(in_slab(lx, ux, ox, dx, l3, d3));
        } else {
            // every entry lies at or behind the origin: t = 0 works
            assert(cx ==> lox <= 0 && 0 <= hix) by {
                if cx {
                    assert(l3 * denx <= 0) by (nonlinear_arith)
                        requires
                            l3 <= 0,
                            denx > 0,
                    ;
                    lemma_mul_cancel(lox, 0, d3);
                }
            };
            assert(cy ==> loy <= 0 && 0 <= hiy) by {
                if cy {
                    assert(l3 * deny <= 0) by (nonlinear_arith)
                        requires
                            l3 <= 0,
                            deny > 0,
                    ;
                    lemma_mul_cancel(loy, 0, d3);
                }
            };
            assert(cz ==> loz <= 0 && 0 <= hiz) by {
                if cz {
                    assert(l3 * denz <= 0) by (nonlinear_arith)
                        requires
                            l3 <= 0,
                            denz > 0,
                    ;
                    lemma_mul_cancel(loz, 0, d3);
                }
            };
            assert(cx ==> lox * 1 <= 0 * denx && 0 * denx <= hix * 1) by (nonlinear_arith)
                requires
                    cx ==> lox <= 0 && 0 <= hix,
            ;
            assert(cy ==> loy * 1 <= 0 * deny && 0 * deny <= hiy * 1) by (nonlinear_arith)
                requires
                    cy ==> loy <= 0 && 0 <= hiy,
            ;
            assert(cz ==> loz * 1 <= 0 * denz && 0 * denz <= hiz * 1) by (nonlinear_arith)
                requires
                    cz ==> loz <= 0 && 0 <= hiz,
            ;
            lemma_witness_in_slabs(b, r, 0, 1);
            assert(in_slab(lx, ux, ox, dx, 0, 1));
        }
    }
}

/// The smaller of two coordinates, as a spec value.
pub open spec fn min2(a: int, b: int) -> int {
    if a <= b {
        a
    } else {
        b
    }
}

/// The larger of two coordinates, as a spec value.
pub open spec fn max2(a: int, b: int) -> int {
    if a >= b {
        a
    } else {
        b
    }
}

/// The component-wise minimum over all vertices of a triangle list,
/// starting from `i64::MAX` (so an empty list yields the sentinel).
pub open spec fn mesh_lower(tris: Seq<[Vec3; 3]>) -> Vec3
    decreases tris.len(),
{
    if tris.len() == 0 {
        v3(i64::MAX as int, i64::MAX as int, i64::MAX as int)
    } else {
        let p = mesh_lower(tris.drop_last());
        let t = tris.last();
        v3(
            min2(min2(min2(p.x as int, t[0].x as int), t[1].x as int), t[2].x as int),
            min2(min2(min2(p.y as int, t[0].y as int), t[1].y as int), t[2].y as int),
            min2(min2(min2(p.z as int, t[0].z as int), t[1].z as int), t[2].z as int),
        )
    }
}

/// The component-wise maximum over all vertices of a triangle list,
/// starting from `i64::MIN`.
pub open spec fn mesh_upper(tris: Seq<[Vec3; 3]>) -> Vec3
    decreases tris.len(),
{
    if tris.len() == 0 {
        v3(i64::MIN as int, i64::MIN as int, i64::MIN as int)
    } else {
        let p = mesh_upper(tris.drop_last());
        let t = tris.last();
        v3(
            max2(max2(max2(p.x as int, t[0].x as int), t[1].x as int), t[2].x as int),
            max2(max2(max2(p.y as int, t[0].y as int), t[1].y as int), t[2].y as int),
            max2(max2(max2(p.z as int, t[0].z as int), t[1].z as int), t[2].z as int),
        )
    }
}

/// Computes the axis-aligned bounding box extents of a triangle list.
pub fn compute_min_max_3d(triangle_mesh: &Vec<[Vec3; 3]>) -> (r: (Vec3, Vec3))
    ensures
        r.0 == mesh_lower(triangle_mesh@),
        r.1 == mesh_upper(triangle_mesh@),
{
    let mut lower_bound_tmp = Vec3 { x: i64::MAX, y: i64::MAX, z: i64::MAX };
    let mut upper_bound_tmp = Vec3 { x: i64::MIN, y: i64::MIN, z: i64::MIN };
    let n = triangle_mesh.len();
    let mut i: usize = 0;
    while i < n
        invariant
            0 <= i <= n,
            n == triangle_mesh.len(),
            lower_bound_tmp == mesh_lower(triangle_mesh@.take(i as int)),
            upper_bound_tmp == mesh_upper(triangle_mesh@.take(i as int)),
        decreases n - i,
    {
        proof {
            assert(triangle_mesh@.take(i as int + 1).drop_last() =~= triangle_mesh@.take(i as int));
            assert(triangle_mesh@.take(i as int + 1).last() == triangle_mesh@[i as int]);
        }
        let tri: [Vec3; 3] = triangle_mesh[i];
        let mut j: usize = 0;
        while j < 3
            invariant
                0 <= j <= 3,
                tri == triangle_mesh@[i as int],
                lower_bound_tmp.x == min_pfx_x(mesh_lower(triangle_mesh@.take(i as int)).x as int, tri, j as int),
                lower_bound_tmp.y == min_pfx_y(mesh_lower(triangle_mesh@.take(i as int)).y as int, tri, j as int),
                lower_bound_tmp.z == min_pfx_z(mesh_lower(triangle_mesh@.take(i as int)).z as int, tri, j as int),
                upper_bound_tmp.x == max_pfx_x(mesh_upper(triangle_mesh@.take(i as int)).x as int, tri, j as int),
                upper_bound_tmp.y == max_pfx_y(mesh_upper(triangle_mesh@.take(i as int)).y as int, tri, j as int),
                upper_bound_tmp.z == max_pfx_z(mesh_upper(triangle_mesh@.take(i as int)).z as int, tri, j as int),
            decreases 3 - j,
        {
            let vertex: Vec3 = tri[j];
            if vertex.x < lower_bound_tmp.x {
                lower_bound_tmp.x = vertex.x;
            }
            if vertex.y < lower_bound_tmp.y {
                lower_bound_tmp.y = vertex.y;
            }
            if vertex.z < lower_bound_tmp.z {
                lower_bound_tmp.z = vertex.z;
            }
            if vertex.x > upper_bound_tmp.x {
                upper_bound_tmp.x = vertex.x;
            }
            if vertex.y > upper_bound_tmp.y {
                upper_bound_tmp.y = vertex.y;
            }
            if vertex.z > upper_bound_tmp.z {
                upper_bound_tmp.z = vertex.z;
            }
            j = j + 1;
        }
        proof {
            reveal_with_fuel(min_pfx_x, 4);
            reveal_with_fuel(min_pfx_y, 4);
            reveal_with_fuel(min_pfx_z, 4);
            reveal_with_fuel(max_pfx_x, 4);
            reveal_with_fuel(max_pfx_y, 4);
            reveal_with_fuel(max_pfx_z, 4);
            assert(lower_bound_tmp == mesh_lower(triangle_mesh@.take(i as int + 1)));
            assert(upper_bound_tmp == mesh_upper(triangle_mesh@.take(i as int + 1)));
        }
        i = i + 1;
    }
    proof {
        assert(triangle_mesh@.take(n as int) =~= triangle_mesh@);
    }
    (lower_bound_tmp, upper_bound_tmp)
}

/// With at least one triangle of bounded vertices, the computed
/// extents are bounded by the same coordinate limit.
pub proof fn lemma_mesh_bounds(tris: Seq<[Vec3; 3]>, m: int)
    requires
        tris.len() >= 1,
        m >= 0,
        forall|i: int, j: int|
            0 <= i < tris.len() && 0 <= j < 3 ==> v_bounded(#[trigger] tris[i][j], m),
    ensures
        v_bounded(mesh_lower(tris), m),
        v_bounded(mesh_upper(tris), m),
    decreases tris.len(),
{
    let t = tris.last();
    assert(v_bounded(t[0], m) && v_bounded(t[1], m) && v_bounded(t[2], m));
    if tris.len() == 1 {
        assert(mesh_lower(tris.drop_last()) == v3(i64::MAX as int, i64::MAX as int, i64::MAX as int));
        assert(mesh_upper(tris.drop_last()) == v3(i64::MIN as int, i64::MIN as int, i64::MIN as int));
    } else {
        lemma_mesh_bounds(tris.drop_last(), m);
    }
}

/// Running minimum of the x coordinates of the first `j` vertices of a
/// triangle, seeded with `acc`.
pub open spec fn min_pfx_x(acc: int, t: [Vec3; 3], j: int) -> int
    decreases j,
{
    if j <= 0 {
        acc
    } else {
        min2(min_pfx_x(acc, t, j - 1), t[j - 1].x as int)
    }
}

pub open spec fn min_pfx_y(acc: int, t: [Vec3; 3], j: int) -> int
    decreases j,
{
    if j <= 0 {
        acc
    } else {
        min2(min_pfx_y(acc, t, j - 1), t[j - 1].y as int)
    }
}

pub open spec fn min_pfx_z(acc: int, t: [Vec3; 3], j: int) -> int
    decreases j,
{
    if j <= 0 {
        acc
    } else {
        min2(min_pfx_z(acc, t, j - 1), t[j - 1].z as int)
    }
}

pub open spec fn max_pfx_x(acc: int, t: [Vec3; 3], j: int) -> int
    decreases j,
{
    if j <= 0 {
        acc
    } else {
        max2(max_pfx_x(acc, t, j - 1), t[j - 1].x as int)
    }
}

pub open spec fn max_pfx_y(acc: int, t: [Vec3; 3], j: int) -> int
    decreases j,
{
    if j <= 0 {
        acc
    } else {
        max2(max_pfx_y(acc, t, j - 1), t[j - 1].y as int)
    }
}

pub open spec fn max_pfx_z(acc: int, t: [Vec3; 3], j: int) -> int
    decreases j,
{
    if j <= 0 {
        acc
    } else {
        max2(max_pfx_z(acc, t, j - 1), t[j - 1].z as int)
    }
}

} // verus!
