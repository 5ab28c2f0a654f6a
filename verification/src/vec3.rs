//! Three-component fixed-point vectors.
//!
//! Each operation carries an exact contract: the result equals the spec
//! function of the same name applied to the arguments, with products and
//! quotients truncated as [`crate::fx`] defines.  The magnitude bounds in
//! the `requires` clauses keep every intermediate inside `i64`/`i128`.

use crate::fx::{
    absi, div_qz, fxdiv, fxmul, isqrt, lemma_mul_bounds, lemma_qz_bound2, mul_fx, qz, sqrti,
    FX_ONE,
};
use vstd::prelude::*;

verus! {

/// Magnitude bound for the arguments of the widening operations
/// (`dot`, `length`, `normalize`): 2^50.
pub const VEC_ARG_MAX: i64 = 0x4_0000_0000_0000;

/// Magnitude bound for the arguments of `cross_product`: 2^42.
pub const CROSS_ARG_MAX: i64 = 0x400_0000_0000;

#[derive(Copy, Clone, Debug, PartialEq, Eq, Structural)]
pub struct Vec3 {
    pub x: i64,
    pub y: i64,
    pub z: i64,
}

/// The vector with the given (in-range) components.
pub open spec fn v3(x: int, y: int, z: int) -> Vec3 {
    Vec3 { x: x as i64, y: y as i64, z: z as i64 }
}

/// Every component has magnitude at most `m`.
pub open spec fn v_bounded(v: Vec3, m: int) -> bool {
    &&& -m <= v.x <= m
    &&& -m <= v.y <= m
    &&& -m <= v.z <= m
}

pub open spec fn v_add(a: Vec3, b: Vec3) -> Vec3 {
    v3(a.x + b.x, a.y + b.y, a.z + b.z)
}

pub open spec fn v_sub(a: Vec3, b: Vec3) -> Vec3 {
    v3(a.x - b.x, a.y - b.y, a.z - b.z)
}

/// Component-wise fixed-point product.
pub open spec fn v_mul(a: Vec3, b: Vec3) -> Vec3 {
    v3(fxmul(a.x as int, b.x as int), fxmul(a.y as int, b.y as int), fxmul(a.z as int, b.z as int))
}

/// The vector scaled by the fixed-point factor `s`.
pub open spec fn v_scale(s: int, a: Vec3) -> Vec3 {
    v3(fxmul(s, a.x as int), fxmul(s, a.y as int), fxmul(s, a.z as int))
}

pub open spec fn v_sum(a: Vec3) -> int {
    a.x + a.y + a.z
}

/// The fixed-point dot product: the sum of the component-wise
/// fixed-point products, as the component-wise product and `sum` give it.
pub open spec fn v_dot(a: Vec3, b: Vec3) -> int {
    fxmul(a.x as int, b.x as int) + fxmul(a.y as int, b.y as int) + fxmul(a.z as int, b.z as int)
}

/// The Euclidean length: the integer square root of the raw (scale 2^48)
/// sum of squares, which lands back on scale 2^24.
pub open spec fn v_len(a: Vec3) -> int {
    sqrti((a.x * a.x + a.y * a.y + a.z * a.z) as nat) as int
}

/// The unit vector in the direction of `a` (zero when `a` is zero).
pub open spec fn v_norm(a: Vec3) -> Vec3 {
    let l = v_len(a);
    if l == 0 {
        v3(0, 0, 0)
    } else {
        v3(
            qz(a.x * (FX_ONE as int), l),
            qz(a.y * (FX_ONE as int), l),
            qz(a.z * (FX_ONE as int), l),
        )
    }
}

/// The rotated point, over the precomputed sines and cosines of the
/// three axis angles.
pub open spec fn v_rotate(p: Vec3, sn: Vec3, cs: Vec3) -> Vec3 {
    let sx = sn.x as int;
    let sy = sn.y as int;
    let sz = sn.z as int;
    let cx = cs.x as int;
    let cy = cs.y as int;
    let cz = cs.z as int;
    let x = p.x as int;
    let y = p.y as int;
    let z = p.z as int;
    v3(
        fxmul(fxmul(cx, cz) - fxmul(fxmul(cy, sx), sz), x) - fxmul(
            fxmul(cx, sz) + fxmul(fxmul(cy, cz), sx),
            y,
        ) + fxmul(fxmul(sx, sy), z),
        fxmul(fxmul(cz, sx) + fxmul(fxmul(cx, cy), sz), x) + fxmul(
            fxmul(fxmul(cx, cy), cz) - fxmul(sx, sz),
            y,
        ) - fxmul(fxmul(cx, sy), z),
        fxmul(fxmul(sy, sz), x) + fxmul(fxmul(cz, sy), y) + fxmul(cy, z),
    )
}

pub open spec fn v_cross(a: Vec3, b: Vec3) -> Vec3 {
    v3(
        fxmul(a.y as int, b.z as int) - fxmul(a.z as int, b.y as int),
        fxmul(a.z as int, b.x as int) - fxmul(a.x as int, b.z as int),
        fxmul(a.x as int, b.y as int) - fxmul(a.y as int, b.x as int),
    )
}

impl Vec3 {
    pub fn new(x: i64, y: i64, z: i64) -> (r: Vec3)
        ensures
            r == (Vec3 { x, y, z }),
    {
        Vec3 { x, y, z }
    }

    pub fn zero() -> (r: Vec3)
        ensures
            r == v3(0, 0, 0),
    {
        Vec3 { x: 0, y: 0, z: 0 }
    }

    pub fn add(self, other: Vec3) -> (r: Vec3)
        requires
            v_bounded(self, 0x4000_0000_0000_0000),
            v_bounded(other, 0x3fff_ffff_ffff_ffff),
        ensures
            r == v_add(self, other),
    {
        Vec3 { x: self.x + other.x, y: self.y + other.y, z: self.z + other.z }
    }

    pub fn sub(self, other: Vec3) -> (r: Vec3)
        requires
            v_bounded(self, 0x4000_0000_0000_0000),
            v_bounded(other, 0x3fff_ffff_ffff_ffff),
        ensures
            r == v_sub(self, other),
    {
        Vec3 { x: self.x - other.x, y: self.y - other.y, z: self.z - other.z }
    }

    pub fn add_assign(&mut self, other: Vec3)
        requires
            v_bounded(*old(self), 0x3fff_ffff_ffff_ffff),
            v_bounded(other, 0x3fff_ffff_ffff_ffff),
        ensures
            *final(self) == v_add(*old(self), other),
    {
        self.x = self.x + other.x;
        self.y = self.y + other.y;
        self.z = self.z + other.z;
    }

    /// Component-wise fixed-point product.
    pub fn mul(self, other: Vec3) -> (r: Vec3)
        requires
            v_bounded(self, 0x800_0000_0000),
            v_bounded(other, 0x800_0000_0000),
        ensures
            r == v_mul(self, other),
            v_bounded(r, 0x4000_0000_0000_0000),
    {
        proof {
            lemma_fx_prod_in_range(self.x as int, other.x as int);
            lemma_fx_prod_in_range(self.y as int, other.y as int);
            lemma_fx_prod_in_range(self.z as int, other.z as int);
        }
        let x: i64 = mul_fx(self.x as i128, other.x as i128) as i64;
        let y: i64 = mul_fx(self.y as i128, other.y as i128) as i64;
        let z: i64 = mul_fx(self.z as i128, other.z as i128) as i64;
        Vec3 { x, y, z }
    }

    /// The vector scaled by the fixed-point factor `s`.
    pub fn scale(self, s: i64) -> (r: Vec3)
        requires
            v_bounded(self, 0x800_0000_0000),
            -0x800_0000_0000 <= s <= 0x800_0000_0000,
        ensures
            r == v_scale(s as int, self),
            v_bounded(r, 0x4000_0000_0000_0000),
    {
        proof {
            lemma_fx_prod_in_range(s as int, self.x as int);
            lemma_fx_prod_in_range(s as int, self.y as int);
            lemma_fx_prod_in_range(s as int, self.z as int);
        }
        let x: i64 = mul_fx(s as i128, self.x as i128) as i64;
        let y: i64 = mul_fx(s as i128, self.y as i128) as i64;
        let z: i64 = mul_fx(s as i128, self.z as i128) as i64;
        Vec3 { x, y, z }
    }

    pub fn sum(self) -> (r: i64)
        requires
            v_bounded(self, 0x1000_0000_0000_0000),
        ensures
            r == v_sum(self),
    {
        self.x + self.y + self.z
    }

    /// The fixed-point dot product, on a wide accumulator.
    pub fn dot(&self, other: &Vec3) -> (r: i128)
        requires
            v_bounded(*self, VEC_ARG_MAX as int),
            v_bounded(*other, VEC_ARG_MAX as int),
        ensures
            r == v_dot(*self, *other),
            -0x3000_0000_0000_0000_0000 <= r <= 0x3000_0000_0000_0000_0000,
    {
        proof {
            lemma_fxmul_wide_bound(self.x as int, other.x as int);
            lemma_fxmul_wide_bound(self.y as int, other.y as int);
            lemma_fxmul_wide_bound(self.z as int, other.z as int);
        }
        let px: i128 = mul_fx(self.x as i128, other.x as i128);
        let py: i128 = mul_fx(self.y as i128, other.y as i128);
        let pz: i128 = mul_fx(self.z as i128, other.z as i128);
        px + py + pz
    }

    pub fn length(&self) -> (r: i64)
        requires
            v_bounded(*self, VEC_ARG_MAX as int),
        ensures
            r == v_len(*self),
            0 <= r < 0x8000_0000_0000_0000,
            r * r <= self.x * self.x + self.y * self.y + self.z * self.z,
            self.x * self.x + self.y * self.y + self.z * self.z < (r + 1) * (r + 1),
    {
        proof {
            lemma_mul_bounds(self.x as int, self.x as int, VEC_ARG_MAX as int, VEC_ARG_MAX as int);
            lemma_mul_bounds(self.y as int, self.y as int, VEC_ARG_MAX as int, VEC_ARG_MAX as int);
            lemma_mul_bounds(self.z as int, self.z as int, VEC_ARG_MAX as int, VEC_ARG_MAX as int);
            lemma_square_nonneg(self.x as int);
            lemma_square_nonneg(self.y as int);
            lemma_square_nonneg(self.z as int);
        }
        let xx: i128 = (self.x as i128) * (self.x as i128);
        let yy: i128 = (self.y as i128) * (self.y as i128);
        let zz: i128 = (self.z as i128) * (self.z as i128);
        let raw: u128 = (xx + yy + zz) as u128;
        let r: u128 = isqrt(raw);
        r as i64
    }

    /// The unit vector in the direction of `self`; the zero vector is
    /// returned unchanged, so the function is total.
    pub fn normalize(&self) -> (r: Vec3)
        requires
            v_bounded(*self, VEC_ARG_MAX as int),
        ensures
            r == v_norm(*self),
            v_bounded(r, FX_ONE as int),
    {
        let l: i64 = self.length();
        if l == 0 {
            proof {
                lemma_norm_zero_comps(*self);
            }
            Vec3 { x: 0, y: 0, z: 0 }
        } else {
            proof {
                lemma_comp_le_len(*self);
                lemma_norm_comp_bound(self.x as int, l as int);
                lemma_norm_comp_bound(self.y as int, l as int);
                lemma_norm_comp_bound(self.z as int, l as int);
            }
            let x: i64 = div_qz((self.x as i128) * (FX_ONE as i128), l as i128) as i64;
            let y: i64 = div_qz((self.y as i128) * (FX_ONE as i128), l as i128) as i64;
            let z: i64 = div_qz((self.z as i128) * (FX_ONE as i128), l as i128) as i64;
            Vec3 { x, y, z }
        }
    }

    pub fn cross_product(&self, other: &Vec3) -> (r: Vec3)
        requires
            v_bounded(*self, CROSS_ARG_MAX as int),
            v_bounded(*other, CROSS_ARG_MAX as int),
        ensures
            r == v_cross(*self, *other),
            v_bounded(r, 0x4000_0000_0000_0000),
    {
        proof {
            lemma_cross_term_bound(self.y as int, other.z as int);
            lemma_cross_term_bound(self.z as int, other.y as int);
            lemma_cross_term_bound(self.z as int, other.x as int);
            lemma_cross_term_bound(self.x as int, other.z as int);
            lemma_cross_term_bound(self.x as int, other.y as int);
            lemma_cross_term_bound(self.y as int, other.x as int);
        }
        let x: i64 = (mul_fx(self.y as i128, other.z as i128) - mul_fx(
            self.z as i128,
            other.y as i128,
        )) as i64;
        let y: i64 = (mul_fx(self.z as i128, other.x as i128) - mul_fx(
            self.x as i128,
            other.z as i128,
        )) as i64;
        let z: i64 = (mul_fx(self.x as i128, other.y as i128) - mul_fx(
            self.y as i128,
            other.x as i128,
        )) as i64;
        Vec3 { x, y, z }
    }

    /// Rotates the point by the three given axis angles (applied as
    /// the classic three-factor rotation), taking the angles as their
    /// precomputed sines and cosines, component `k` of `rot_sin` /
    /// `rot_cos` holding the sine / cosine of the rotation about the
    /// axis `k`.
    pub fn rotate_point(&self, rot_sin: Vec3, rot_cos: Vec3) -> (r: Vec3)
        requires
            v_bounded(*self, 0x800_0000_0000),
            v_bounded(rot_sin, FX_ONE as int),
            v_bounded(rot_cos, FX_ONE as int),
        ensures
            r == v_rotate(*self, rot_sin, rot_cos),
            v_bounded(r, 0x4000_0000_0000),
    {
        let s_x = rot_sin.x;
        let s_y = rot_sin.y;
        let s_z = rot_sin.z;
        let c_x = rot_cos.x;
        let c_y = rot_cos.y;
        let c_z = rot_cos.z;
        let a_x = trig_mul(c_x, c_z) - trig_mul(trig_mul(c_y, s_x), s_z);
        let b_x = trig_mul(c_x, s_z) + trig_mul(trig_mul(c_y, c_z), s_x);
        let d_x = trig_mul(s_x, s_y);
        let a_y = trig_mul(c_z, s_x) + trig_mul(trig_mul(c_x, c_y), s_z);
        let b_y = trig_mul(trig_mul(c_x, c_y), c_z) - trig_mul(s_x, s_z);
        let d_y = trig_mul(c_x, s_y);
        let a_z = trig_mul(s_y, s_z);
        let b_z = trig_mul(c_z, s_y);
        let d_z = c_y;
        Vec3 {
            x: coef_mul(a_x, self.x) - coef_mul(b_x, self.y) + coef_mul(d_x, self.z),
            y: coef_mul(a_y, self.x) + coef_mul(b_y, self.y) - coef_mul(d_y, self.z),
            z: coef_mul(a_z, self.x) + coef_mul(b_z, self.y) + coef_mul(d_z, self.z),
        }
    }

}

/// A product of two rotation-matrix factors (each within one).
fn trig_mul(a: i64, b: i64) -> (r: i64)
    requires
        -(FX_ONE as int) <= a <= FX_ONE as int,
        -(FX_ONE as int) <= b <= FX_ONE as int,
    ensures
        r == fxmul(a as int, b as int),
        -(FX_ONE as int) <= r <= FX_ONE as int,
{
    proof {
        crate::fx::lemma_fxmul_bound(a as int, b as int, FX_ONE as int, FX_ONE as int);
    }
    mul_fx(a as i128, b as i128) as i64
}

/// A rotation coefficient (within two) times a coordinate.
fn coef_mul(coef: i64, v: i64) -> (r: i64)
    requires
        -0x200_0000 <= coef <= 0x200_0000,
        -0x800_0000_0000 <= v <= 0x800_0000_0000,
    ensures
        r == fxmul(coef as int, v as int),
        -0x1000_0000_0000 <= r <= 0x1000_0000_0000,
{
    proof {
        crate::fx::lemma_fxmul_bound(coef as int, v as int, 0x200_0000, 0x800_0000_0000);
    }
    mul_fx(coef as i128, v as i128) as i64
}

/// Fixed-point products of factors below 2^43 stay below 2^62.
proof fn lemma_fx_prod_in_range(a: int, b: int)
    requires
        -0x800_0000_0000 <= a <= 0x800_0000_0000,
        -0x800_0000_0000 <= b <= 0x800_0000_0000,
    ensures
        -0x4000_0000_0000_0000 <= fxmul(a, b) <= 0x4000_0000_0000_0000,
{
    crate::fx::lemma_fxmul_bound(a, b, 0x800_0000_0000, 0x800_0000_0000);
}

/// The same bound, stated for the dot-product accumulation.
proof fn lemma_fxmul_wide_bound(a: int, b: int)
    requires
        -(VEC_ARG_MAX as int) <= a <= VEC_ARG_MAX as int,
        -(VEC_ARG_MAX as int) <= b <= VEC_ARG_MAX as int,
    ensures
        -0x1000_0000_0000_0000_0000 <= fxmul(a, b) <= 0x1000_0000_0000_0000_0000,
{
    crate::fx::lemma_fxmul_bound(a, b, VEC_ARG_MAX as int, VEC_ARG_MAX as int);
}

/// Bound for a single cross-product term with factors below 2^42.
proof fn lemma_cross_term_bound(a: int, b: int)
    requires
        -(CROSS_ARG_MAX as int) <= a <= CROSS_ARG_MAX as int,
        -(CROSS_ARG_MAX as int) <= b <= CROSS_ARG_MAX as int,
    ensures
        -0x2000_0000_0000_0000 <= fxmul(a, b) <= 0x2000_0000_0000_0000,
{
    crate::fx::lemma_fxmul_bound(a, b, CROSS_ARG_MAX as int, CROSS_ARG_MAX as int);
}

proof fn lemma_square_nonneg(a: int)
    ensures
        a * a >= 0,
        a * a == absi(a) * absi(a),
{
    assert(a * a >= 0) by (nonlinear_arith);
    if a < 0 {
        assert(a * a == (-a) * (-a)) by (nonlinear_arith);
    }
}

/// A vector of length zero has all components zero.
proof fn lemma_norm_zero_comps(v: Vec3)
    requires
        v_len(v) == 0,
    ensures
        v.x == 0 && v.y == 0 && v.z == 0,
{
    lemma_square_nonneg(v.x as int);
    lemma_square_nonneg(v.y as int);
    lemma_square_nonneg(v.z as int);
    crate::fx::lemma_sqrti_bracket((v.x * v.x + v.y * v.y + v.z * v.z) as nat);
    let s = sqrti((v.x * v.x + v.y * v.y + v.z * v.z) as nat);
    assert(s == 0);
    assert((s + 1) * (s + 1) == 1) by (nonlinear_arith)
        requires
            s == 0,
    ;
    assert(v.x * v.x + v.y * v.y + v.z * v.z < 1);
    assert(v.x * v.x == 0 && v.y * v.y == 0 && v.z * v.z == 0);
    assert(v.x == 0) by (nonlinear_arith)
        requires
            v.x * v.x == 0,
    ;
    assert(v.y == 0) by (nonlinear_arith)
        requires
            v.y * v.y == 0,
    ;
    assert(v.z == 0) by (nonlinear_arith)
        requires
            v.z * v.z == 0,
    ;
}

/// Every component is at most the length in magnitude.
pub proof fn lemma_comp_le_len(v: Vec3)
    ensures
        absi(v.x as int) <= v_len(v),
        absi(v.y as int) <= v_len(v),
        absi(v.z as int) <= v_len(v),
{
    let raw = v.x * v.x + v.y * v.y + v.z * v.z;
    lemma_square_nonneg(v.x as int);
    lemma_square_nonneg(v.y as int);
    lemma_square_nonneg(v.z as int);
    crate::fx::lemma_sqrti_bracket(raw as nat);
    let l = v_len(v);
    assert(absi(v.x as int) <= l) by (nonlinear_arith)
        requires
            v.x * v.x <= raw,
            raw < (l + 1) * (l + 1),
            l >= 0,
            absi(v.x as int) * absi(v.x as int) == v.x * v.x,
            absi(v.x as int) >= 0,
    ;
    assert(absi(v.y as int) <= l) by (nonlinear_arith)
        requires
            v.y * v.y <= raw,
            raw < (l + 1) * (l + 1),
            l >= 0,
            absi(v.y as int) * absi(v.y as int) == v.y * v.y,
            absi(v.y as int) >= 0,
    ;
    assert(absi(v.z as int) <= l) by (nonlinear_arith)
        requires
            v.z * v.z <= raw,
            raw < (l + 1) * (l + 1),
            l >= 0,
            absi(v.z as int) * absi(v.z as int) == v.z * v.z,
            absi(v.z as int) >= 0,
    ;
}

/// The normalization is bounded by one, and each of its components is
/// exactly the truncated quotient of the component by the length.
pub proof fn lemma_norm_bounded(v: Vec3)
    requires
        v_bounded(v, VEC_ARG_MAX as int),
    ensures
        v_bounded(v_norm(v), FX_ONE as int),
        v_len(v) != 0 ==> v_norm(v).x == qz(v.x * (FX_ONE as int), v_len(v)) && v_norm(v).y == qz(
            v.y * (FX_ONE as int),
            v_len(v),
        ) && v_norm(v).z == qz(v.z * (FX_ONE as int), v_len(v)),
{
    let l = v_len(v);
    if l != 0 {
        lemma_square_nonneg(v.x as int);
        lemma_square_nonneg(v.y as int);
        lemma_square_nonneg(v.z as int);
        lemma_mul_bounds(v.x as int, v.x as int, VEC_ARG_MAX as int, VEC_ARG_MAX as int);
        lemma_mul_bounds(v.y as int, v.y as int, VEC_ARG_MAX as int, VEC_ARG_MAX as int);
        lemma_mul_bounds(v.z as int, v.z as int, VEC_ARG_MAX as int, VEC_ARG_MAX as int);
        crate::fx::lemma_sqrti_bracket((v.x * v.x + v.y * v.y + v.z * v.z) as nat);
        assert(l < 0x8000_0000_0000_0000) by (nonlinear_arith)
            requires
                l >= 0,
                l * l <= v.x * v.x + v.y * v.y + v.z * v.z,
                v.x * v.x + v.y * v.y + v.z * v.z < 0x4000_0000_0000_0000_0000_0000_0000_0000,
        ;
        lemma_comp_le_len(v);
        lemma_norm_comp_bound(v.x as int, l);
        lemma_norm_comp_bound(v.y as int, l);
        lemma_norm_comp_bound(v.z as int, l);
    }
}

/// A component divided by the length stays within one fixed-point unit.
proof fn lemma_norm_comp_bound(x: int, l: int)
    requires
        0 < l < 0x8000_0000_0000_0000,
        absi(x) <= l,
    ensures
        -(FX_ONE as int) <= qz(x * (FX_ONE as int), l) <= FX_ONE as int,
        -0x1000_0000_0000_0000_0000_0000 < x * (FX_ONE as int) < 0x1000_0000_0000_0000_0000_0000,
{
    lemma_mul_bounds(x, FX_ONE as int, l, FX_ONE as int);
    lemma_qz_bound2(x * (FX_ONE as int), l, l * (FX_ONE as int), l);
    vstd::arithmetic::div_mod::lemma_div_multiples_vanish(FX_ONE as int, l);
    assert(l * (FX_ONE as int) / l == FX_ONE as int);
    lemma_mul_bounds(x, FX_ONE as int, 0x8000_0000_0000_0000, FX_ONE as int);
}

} // verus!
