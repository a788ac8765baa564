//! Fixed-point 2D vector algebra.
//!
//! Components are world coordinates scaled by `FP_ONE`.  Rotation takes
//! the rotor as a fixed-point cosine/sine pair; the host supplies those
//! from whatever angle source it has.

use vstd::prelude::*;
use vstd::arithmetic::div_mod::lemma_div_is_ordered;
use crate::FP_ONE;
use crate::num::floor_div;
use crate::num::isqrt;
use crate::num::spec_isqrt;
use crate::num::lemma_isqrt_unique;

verus! {

/// Largest component magnitude accepted by `length`, `normalize` and
/// `dot`: keeps squares and their sums inside `i64`.
pub const VEC_LIMIT: i64 = 0x7FFF_FFFF;

/// Largest component magnitude accepted by `rotate`; results stay within
/// twice this bound.
pub const ROT_LIMIT: i64 = 0x2000_0000;

/// A 2D vector of fixed-point coordinates.
#[derive(Clone, Copy, Debug, PartialEq, Eq, Structural)]
pub struct Vector2 {
    pub x: i64,
    pub y: i64,
}

/// Exact rotation of `(x, y)` by the rotor `(c, s)`, before scaling back
/// down by `FP_ONE`: the x component of the rotated vector.
pub open spec fn spec_rot_x(x: int, y: int, c: int, s: int) -> int {
    x * c - y * s
}

/// Exact rotation of `(x, y)` by the rotor `(c, s)`: the y component.
pub open spec fn spec_rot_y(x: int, y: int, c: int, s: int) -> int {
    x * s + y * c
}

impl Vector2 {
    pub fn new(x: i64, y: i64) -> (v: Vector2)
        ensures
            v.x == x,
            v.y == y,
    {
        Vector2 { x, y }
    }

    pub fn zero() -> (v: Vector2)
        ensures
            v.x == 0,
            v.y == 0,
    {
        Vector2 { x: 0, y: 0 }
    }

    /// Componentwise sum.
    pub fn add(&self, other: &Vector2) -> (v: Vector2)
        requires
            i64::MIN <= self.x + other.x <= i64::MAX,
            i64::MIN <= self.y + other.y <= i64::MAX,
        ensures
            v.x == self.x + other.x,
            v.y == self.y + other.y,
    {
        Vector2 { x: self.x + other.x, y: self.y + other.y }
    }

    /// Componentwise multiplication by a fixed-point factor.
    pub fn scale(&self, factor: i64) -> (v: Vector2)
        requires
            i64::MIN + FP_ONE < self.x * factor <= i64::MAX,
            i64::MIN + FP_ONE < self.y * factor <= i64::MAX,
        ensures
            v.x == (self.x * factor) / (FP_ONE as int),
            v.y == (self.y * factor) / (FP_ONE as int),
    {
        Vector2 { x: floor_div(self.x * factor, FP_ONE), y: floor_div(self.y * factor, FP_ONE) }
    }

    /// Euclidean length, in fixed-point units: the integer square root of
    /// the sum of the squared components.
    pub fn length(&self) -> (r: i64)
        requires
            -VEC_LIMIT <= self.x <= VEC_LIMIT,
            -VEC_LIMIT <= self.y <= VEC_LIMIT,
        ensures
            r == spec_isqrt(self.x * self.x + self.y * self.y),
            0 <= r <= 0xFFFF_FFFF,
            r * r <= self.x * self.x + self.y * self.y,
            self.x * self.x + self.y * self.y < (r + 1) * (r + 1),
    {
        proof {
            lemma_square_bound(self.x as int);
            lemma_square_bound(self.y as int);
        }
        let n: i64 = self.x * self.x + self.y * self.y;
        let r: u64 = isqrt(n as u64);
        proof {
            lemma_isqrt_unique(n as int, r as int);
        }
        r as i64
    }

    /// Scales the vector to unit length (`FP_ONE`).  The zero vector — the
    /// only representable vector shorter than one fixed-point quantum —
    /// normalizes to itself.
    pub fn normalize(&self) -> (v: Vector2)
        requires
            -VEC_LIMIT <= self.x <= VEC_LIMIT,
            -VEC_LIMIT <= self.y <= VEC_LIMIT,
        ensures
            self.x == 0 && self.y == 0 ==> v == (Vector2 { x: 0, y: 0 }),
            !(self.x == 0 && self.y == 0) ==> v.x == (self.x * FP_ONE) / spec_isqrt(
                self.x * self.x + self.y * self.y,
            ),
            !(self.x == 0 && self.y == 0) ==> v.y == (self.y * FP_ONE) / spec_isqrt(
                self.x * self.x + self.y * self.y,
            ),
    {
        let len = self.length();
        if len == 0 {
            proof {
                assert(self.x == 0 && self.y == 0) by (nonlinear_arith)
                    requires
                        len == 0,
                        self.x * self.x + self.y * self.y < (len + 1) * (len + 1),
                ;
            }
            Vector2 { x: 0, y: 0 }
        } else {
            Vector2 {
                x: floor_div(self.x * FP_ONE, len),
                y: floor_div(self.y * FP_ONE, len),
            }
        }
    }

    /// Dot product, scaled back to fixed-point units.
    pub fn dot(&self, other: &Vector2) -> (r: i64)
        requires
            -VEC_LIMIT <= self.x <= VEC_LIMIT,
            -VEC_LIMIT <= self.y <= VEC_LIMIT,
            -VEC_LIMIT <= other.x <= VEC_LIMIT,
            -VEC_LIMIT <= other.y <= VEC_LIMIT,
        ensures
            r == (self.x * other.x + self.y * other.y) / (FP_ONE as int),
    {
        proof {
            lemma_product_bound(self.x as int, other.x as int);
            lemma_product_bound(self.y as int, other.y as int);
        }
        floor_div(self.x * other.x + self.y * other.y, FP_ONE)
    }

    /// Rotates counterclockwise by the rotor `(c, s)`, the fixed-point
    /// cosine and sine of the angle.
    pub fn rotate(&self, c: i64, s: i64) -> (v: Vector2)
        requires
            -ROT_LIMIT <= self.x <= ROT_LIMIT,
            -ROT_LIMIT <= self.y <= ROT_LIMIT,
            -FP_ONE <= c <= FP_ONE,
            -FP_ONE <= s <= FP_ONE,
        ensures
            v.x == spec_rot_x(self.x as int, self.y as int, c as int, s as int) / (
            FP_ONE as int),
            v.y == spec_rot_y(self.x as int, self.y as int, c as int, s as int) / (
            FP_ONE as int),
            -2 * ROT_LIMIT <= v.x <= 2 * ROT_LIMIT,
            -2 * ROT_LIMIT <= v.y <= 2 * ROT_LIMIT,
    {
        proof {
            lemma_rot_term_bounds(self.x as int, self.y as int, c as int, s as int);
        }
        Vector2 {
            x: floor_div(self.x * c - self.y * s, FP_ONE),
            y: floor_div(self.x * s + self.y * c, FP_ONE),
        }
    }

    /// In-place rotation by the rotor `(c, s)`.
    pub fn rotate_mut(&mut self, c: i64, s: i64)
        requires
            -ROT_LIMIT <= old(self).x <= ROT_LIMIT,
            -ROT_LIMIT <= old(self).y <= ROT_LIMIT,
            -FP_ONE <= c <= FP_ONE,
            -FP_ONE <= s <= FP_ONE,
        ensures
            final(self).x == spec_rot_x(
                old(self).x as int,
                old(self).y as int,
                c as int,
                s as int,
            ) / (FP_ONE as int),
            final(self).y == spec_rot_y(
                old(self).x as int,
                old(self).y as int,
                c as int,
                s as int,
            ) / (FP_ONE as int),
            -2 * ROT_LIMIT <= final(self).x <= 2 * ROT_LIMIT,
            -2 * ROT_LIMIT <= final(self).y <= 2 * ROT_LIMIT,
    {
        let v = self.rotate(c, s);
        *self = v;
    }
}

/// Law: rotating two vectors by one rotor scales their dot product by the
/// squared rotor norm.  In particular perpendicular vectors stay exactly
/// perpendicular under any sequence of exact rotations, and (taking the
/// two vectors equal) every squared length scales by the same factor, so a
/// unit rotor preserves lengths.
pub proof fn lemma_rotation_preserves_dot(
    ax: int,
    ay: int,
    bx: int,
    by: int,
    c: int,
    s: int,
)
    ensures
        spec_rot_x(ax, ay, c, s) * spec_rot_x(bx, by, c, s) + spec_rot_y(ax, ay, c, s)
            * spec_rot_y(bx, by, c, s) == (c * c + s * s) * (ax * bx + ay * by),
        ax * bx + ay * by == 0 ==> spec_rot_x(ax, ay, c, s) * spec_rot_x(bx, by, c, s)
            + spec_rot_y(ax, ay, c, s) * spec_rot_y(bx, by, c, s) == 0,
{
    assert((ax * c - ay * s) * (bx * c - by * s) == (ax * c) * (bx * c) - (ax * c) * (by * s)
        - (ay * s) * (bx * c) + (ay * s) * (by * s)) by (nonlinear_arith);
    assert((ax * s + ay * c) * (bx * s + by * c) == (ax * s) * (bx * s) + (ax * s) * (by * c)
        + (ay * c) * (bx * s) + (ay * c) * (by * c)) by (nonlinear_arith);
    assert((ax * c) * (bx * c) == (ax * bx) * (c * c)) by (nonlinear_arith);
    assert((ax * c) * (by * s) == (ax * by) * (c * s)) by (nonlinear_arith);
    assert((ay * s) * (bx * c) == (ay * bx) * (c * s)) by (nonlinear_arith);
    assert((ay * s) * (by * s) == (ay * by) * (s * s)) by (nonlinear_arith);
    assert((ax * s) * (bx * s) == (ax * bx) * (s * s)) by (nonlinear_arith);
    assert((ax * s) * (by * c) == (ax * by) * (c * s)) by (nonlinear_arith);
    assert((ay * c) * (bx * s) == (ay * bx) * (c * s)) by (nonlinear_arith);
    assert((ay * c) * (by * c) == (ay * by) * (c * c)) by (nonlinear_arith);
    assert((c * c + s * s) * (ax * bx + ay * by) == (ax * bx) * (c * c) + (ax * bx) * (s * s)
        + (ay * by) * (c * c) + (ay * by) * (s * s)) by (nonlinear_arith);
}

/// The square of a component within `VEC_LIMIT` fits comfortably in `i64`.
proof fn lemma_square_bound(x: int)
    requires
        -VEC_LIMIT <= x <= VEC_LIMIT,
    ensures
        0 <= x * x <= 0x3FFF_FFFF_0000_0001,
{
    assert(0 <= x * x <= 0x3FFF_FFFF_0000_0001) by (nonlinear_arith)
        requires
            -0x7FFF_FFFF <= x <= 0x7FFF_FFFF,
    ;
}

/// A product of two components within `VEC_LIMIT` fits comfortably in
/// `i64`.
proof fn lemma_product_bound(x: int, y: int)
    requires
        -VEC_LIMIT <= x <= VEC_LIMIT,
        -VEC_LIMIT <= y <= VEC_LIMIT,
    ensures
        -0x3FFF_FFFF_0000_0001 <= x * y <= 0x3FFF_FFFF_0000_0001,
{
    assert(-0x3FFF_FFFF_0000_0001 <= x * y <= 0x3FFF_FFFF_0000_0001) by (nonlinear_arith)
        requires
            -0x7FFF_FFFF <= x <= 0x7FFF_FFFF,
            -0x7FFF_FFFF <= y <= 0x7FFF_FFFF,
    ;
}

/// Bounds for the two exact rotation terms and their fixed-point
/// quotients.
proof fn lemma_rot_term_bounds(x: int, y: int, c: int, s: int)
    requires
        -ROT_LIMIT <= x <= ROT_LIMIT,
        -ROT_LIMIT <= y <= ROT_LIMIT,
        -FP_ONE <= c <= FP_ONE,
        -FP_ONE <= s <= FP_ONE,
    ensures
        -ROT_LIMIT * FP_ONE <= x * c <= ROT_LIMIT * FP_ONE,
        -ROT_LIMIT * FP_ONE <= y * s <= ROT_LIMIT * FP_ONE,
        -ROT_LIMIT * FP_ONE <= x * s <= ROT_LIMIT * FP_ONE,
        -ROT_LIMIT * FP_ONE <= y * c <= ROT_LIMIT * FP_ONE,
        -2 * ROT_LIMIT * FP_ONE <= x * c - y * s <= 2 * ROT_LIMIT * FP_ONE,
        -2 * ROT_LIMIT * FP_ONE <= x * s + y * c <= 2 * ROT_LIMIT * FP_ONE,
        -2 * ROT_LIMIT <= (x * c - y * s) / (FP_ONE as int) <= 2 * ROT_LIMIT,
        -2 * ROT_LIMIT <= (x * s + y * c) / (FP_ONE as int) <= 2 * ROT_LIMIT,
{
    assert(-ROT_LIMIT * FP_ONE <= x * c <= ROT_LIMIT * FP_ONE) by (nonlinear_arith)
        requires
            -ROT_LIMIT <= x <= ROT_LIMIT,
            -FP_ONE <= c <= FP_ONE,
    ;
    assert(-ROT_LIMIT * FP_ONE <= y * s <= ROT_LIMIT * FP_ONE) by (nonlinear_arith)
        requires
            -ROT_LIMIT <= y <= ROT_LIMIT,
            -FP_ONE <= s <= FP_ONE,
    ;
    assert(-ROT_LIMIT * FP_ONE <= x * s <= ROT_LIMIT * FP_ONE) by (nonlinear_arith)
        requires
            -ROT_LIMIT <= x <= ROT_LIMIT,
            -FP_ONE <= s <= FP_ONE,
    ;
    assert(-ROT_LIMIT * FP_ONE <= y * c <= ROT_LIMIT * FP_ONE) by (nonlinear_arith)
        requires
            -ROT_LIMIT <= y <= ROT_LIMIT,
            -FP_ONE <= c <= FP_ONE,
    ;
    lemma_div_is_ordered(-2 * ROT_LIMIT * FP_ONE, x * c - y * s, FP_ONE as int);
    lemma_div_is_ordered(x * c - y * s, 2 * ROT_LIMIT * FP_ONE, FP_ONE as int);
    lemma_div_is_ordered(-2 * ROT_LIMIT * FP_ONE, x * s + y * c, FP_ONE as int);
    lemma_div_is_ordered(x * s + y * c, 2 * ROT_LIMIT * FP_ONE, FP_ONE as int);
    assert(-2 * ROT_LIMIT * FP_ONE / (FP_ONE as int) == -2 * ROT_LIMIT);
    assert(2 * ROT_LIMIT * FP_ONE / (FP_ONE as int) == 2 * ROT_LIMIT);
}

} // verus!
