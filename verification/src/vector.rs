//! Points and displacements in space, with coordinates in thousandths.

use vstd::prelude::*;
use crate::fixed::{
    ceil_sqrt, floor_sqrt, is_floor_sqrt, isqrt, isqrt_up, lemma_ceil_sqrt,
    lemma_floor_sqrt_exists, lemma_saturate_square, lemma_scaled_square, saturate,
    saturate_to_coordinate, scale, scaled, SCALE,
};

verus! {

/// A point or a displacement; each coordinate is a number of thousandths.
#[derive(Clone, Copy, PartialEq, Eq, Structural, Debug)]
pub struct Vec3 {
    pub x: i32,
    pub y: i32,
    pub z: i32,
}

/// The vector whose coordinates are `x`, `y` and `z`, each limited to what a
/// coordinate can hold.
pub open spec fn saturated(x: int, y: int, z: int) -> Vec3 {
    Vec3 { x: saturate(x) as i32, y: saturate(y) as i32, z: saturate(z) as i32 }
}

/// The displacement of `length` that points from `from` to `to`: the
/// difference of the two, scaled by `length` over their distance. The
/// distance is rounded up and each coordinate toward zero, so the result is
/// never longer than `length`; it falls short of it by one part in the
/// distance, counted in thousandths, at most, and by the rounding of the
/// coordinates. Two equal points give the zero vector.
pub open spec fn toward(from: Vec3, to: Vec3, length: int) -> Vec3 {
    let distance = ceil_sqrt(from.dist_sq(to));
    if distance == 0 {
        Vec3 { x: 0, y: 0, z: 0 }
    } else {
        saturated(
            scaled(to.x - from.x, length, distance),
            scaled(to.y - from.y, length, distance),
            scaled(to.z - from.z, length, distance),
        )
    }
}

/// The direction of `heading` as a vector of length one, which is `SCALE`
/// thousandths; the zero vector has no direction and stays as it is.
pub open spec fn unit(heading: Vec3) -> Vec3 {
    toward(Vec3 { x: 0, y: 0, z: 0 }, heading, SCALE as int)
}

/// The square of the difference of two coordinates.
fn squared_difference(a: i32, b: i32) -> (r: u128)
    ensures
        r == (a - b) * (a - b),
        r <= 0xffff_ffff * 0xffff_ffff,
{
    let gap: u64 = if a >= b {
        (a as i64 - b as i64) as u64
    } else {
        (b as i64 - a as i64) as u64
    };
    let wide: u128 = gap as u128;
    assert(wide * wide <= 0xffff_ffff * 0xffff_ffff) by (nonlinear_arith)
        requires
            0 <= wide <= 0xffff_ffff,
    ;
    assert(wide * wide == (a - b) * (a - b)) by (nonlinear_arith)
        requires
            wide == a - b || wide == b - a,
    ;
    wide * wide
}

impl Vec3 {
    /// The square of the distance between two points.
    pub open spec fn dist_sq(self, other: Vec3) -> int {
        (self.x - other.x) * (self.x - other.x) + (self.y - other.y) * (self.y - other.y) + (
        self.z - other.z) * (self.z - other.z)
    }

    /// The square of the length of a displacement.
    pub open spec fn len_sq(self) -> int {
        self.x * self.x + self.y * self.y + self.z * self.z
    }

    /// The sum of two vectors, each coordinate limited to what it can hold.
    pub open spec fn spec_plus(self, other: Vec3) -> Vec3 {
        saturated(self.x + other.x, self.y + other.y, self.z + other.z)
    }

    /// The difference of two vectors, each coordinate limited to what it can
    /// hold.
    pub open spec fn spec_minus(self, other: Vec3) -> Vec3 {
        saturated(self.x - other.x, self.y - other.y, self.z - other.z)
    }

    /// The vector times `numerator / denominator`, each coordinate rounded
    /// toward zero and limited to what it can hold.
    pub open spec fn spec_scaled(self, numerator: int, denominator: int) -> Vec3 {
        saturated(
            scaled(self.x as int, numerator, denominator),
            scaled(self.y as int, numerator, denominator),
            scaled(self.z as int, numerator, denominator),
        )
    }

    /// The vector itself where it is no longer than `max`, else the vector of
    /// that length in the same direction. A `max` below zero counts as zero.
    pub open spec fn spec_clamp_length_max(self, max: int) -> Vec3 {
        let most = if max > 0 {
            max
        } else {
            0
        };
        if self.len_sq() <= most * most {
            self
        } else {
            toward(Vec3 { x: 0, y: 0, z: 0 }, self, most)
        }
    }

    /// The two points are no farther apart than `reach`.
    pub open spec fn within(self, other: Vec3, reach: int) -> bool {
        reach >= 0 && self.dist_sq(other) <= reach * reach
    }

    /// The two points are less than `reach` apart.
    pub open spec fn closer_than(self, other: Vec3, reach: int) -> bool {
        reach > 0 && self.dist_sq(other) < reach * reach
    }

    pub fn new(x: i32, y: i32, z: i32) -> (v: Vec3)
        ensures
            v == (Vec3 { x, y, z }),
    {
        Vec3 { x, y, z }
    }

    pub fn zero() -> (v: Vec3)
        ensures
            v == (Vec3 { x: 0, y: 0, z: 0 }),
    {
        Vec3 { x: 0, y: 0, z: 0 }
    }

    pub fn is_zero(self) -> (b: bool)
        ensures
            b == (self == Vec3 { x: 0, y: 0, z: 0 }),
    {
        self.x == 0 && self.y == 0 && self.z == 0
    }

    /// The sum of two vectors; a coordinate that would leave the range of
    /// `i32` stops at its end.
    pub fn plus(self, other: Vec3) -> (v: Vec3)
        ensures
            v == self.spec_plus(other),
    {
        Vec3 {
            x: saturate_to_coordinate(self.x as i128 + other.x as i128),
            y: saturate_to_coordinate(self.y as i128 + other.y as i128),
            z: saturate_to_coordinate(self.z as i128 + other.z as i128),
        }
    }

    /// The difference of two vectors; a coordinate that would leave the range
    /// of `i32` stops at its end.
    pub fn minus(self, other: Vec3) -> (v: Vec3)
        ensures
            v == self.spec_minus(other),
    {
        Vec3 {
            x: saturate_to_coordinate(self.x as i128 - other.x as i128),
            y: saturate_to_coordinate(self.y as i128 - other.y as i128),
            z: saturate_to_coordinate(self.z as i128 - other.z as i128),
        }
    }

    /// The vector times `numerator / denominator`.
    pub fn scaled_by(self, numerator: i64, denominator: i64) -> (v: Vec3)
        requires
            denominator > 0,
        ensures
            v == self.spec_scaled(numerator as int, denominator as int),
    {
        Vec3 {
            x: saturate_to_coordinate(scale(self.x as i64, numerator, denominator)),
            y: saturate_to_coordinate(scale(self.y as i64, numerator, denominator)),
            z: saturate_to_coordinate(scale(self.z as i64, numerator, denominator)),
        }
    }

    /// The square of the distance between two points, which is exact.
    pub fn distance_squared(self, other: Vec3) -> (r: u128)
        ensures
            r == self.dist_sq(other),
            r <= 3 * (0xffff_ffff * 0xffff_ffff),
    {
        let dx: u128 = squared_difference(self.x, other.x);
        let dy: u128 = squared_difference(self.y, other.y);
        let dz: u128 = squared_difference(self.z, other.z);
        dx + dy + dz
    }

    /// Whether the two points are no farther apart than `reach`; the
    /// comparison is exact.
    pub fn is_within(self, other: Vec3, reach: i64) -> (b: bool)
        ensures
            b == self.within(other, reach as int),
    {
        if reach < 0 {
            return false;
        }
        let wide: u128 = reach as u128;
        assert(wide * wide <= 0x7fff_ffff_ffff_ffff * 0x7fff_ffff_ffff_ffff) by (nonlinear_arith)
            requires
                0 <= wide <= 0x7fff_ffff_ffff_ffff,
        ;
        self.distance_squared(other) <= wide * wide
    }

    /// Whether the two points are less than `reach` apart; the comparison is
    /// exact.
    pub fn is_closer_than(self, other: Vec3, reach: i64) -> (b: bool)
        ensures
            b == self.closer_than(other, reach as int),
    {
        if reach <= 0 {
            return false;
        }
        let wide: u128 = reach as u128;
        assert(wide * wide <= 0x7fff_ffff_ffff_ffff * 0x7fff_ffff_ffff_ffff) by (nonlinear_arith)
            requires
                0 <= wide <= 0x7fff_ffff_ffff_ffff,
        ;
        self.distance_squared(other) < wide * wide
    }

    /// The distance between two points, rounded down.
    pub fn distance(self, other: Vec3) -> (r: i64)
        ensures
            r == floor_sqrt(self.dist_sq(other)),
            0 <= r <= 0x2_0000_0000,
    {
        let squared: u128 = self.distance_squared(other);
        let root: u64 = isqrt(squared);
        proof {
            if root > 0x2_0000_0000 {
                assert(root * root > 3 * (0xffff_ffff * 0xffff_ffff)) by (nonlinear_arith)
                    requires
                        root > 0x2_0000_0000,
                ;
            }
        }
        root as i64
    }

    /// The distance between two points, rounded up.
    pub fn distance_up(self, other: Vec3) -> (r: i64)
        ensures
            r == ceil_sqrt(self.dist_sq(other)),
            0 <= r <= 0x2_0000_0001,
    {
        let squared: u128 = self.distance_squared(other);
        let root: u128 = isqrt_up(squared);
        proof {
            lemma_ceil_sqrt(squared as int);
            lemma_floor_sqrt_exists(squared as int);
            let low = floor_sqrt(squared as int);
            if low > 0x2_0000_0000 {
                assert(low * low > 3 * (0xffff_ffff * 0xffff_ffff)) by (nonlinear_arith)
                    requires
                        low > 0x2_0000_0000,
                ;
            }
        }
        root as i64
    }

    /// The length of a displacement, rounded down.
    pub fn length(self) -> (r: i64)
        ensures
            r == floor_sqrt(self.len_sq()),
            0 <= r <= 0x2_0000_0000,
    {
        let origin = Vec3::zero();
        assert(origin.dist_sq(self) == self.len_sq()) by (nonlinear_arith)
            requires
                origin.x == 0,
                origin.y == 0,
                origin.z == 0,
        ;
        origin.distance(self)
    }

    /// The displacement of `length` that points from `self` to `target`, and
    /// is never longer than `length`; the zero vector where the two are the
    /// same point.
    pub fn step_toward(self, target: Vec3, length: i64) -> (v: Vec3)
        ensures
            v == toward(self, target, length as int),
    {
        let distance: i64 = self.distance_up(target);
        if distance == 0 {
            Vec3::zero()
        } else {
            Vec3 {
                x: saturate_to_coordinate(
                    scale(target.x as i64 - self.x as i64, length, distance),
                ),
                y: saturate_to_coordinate(
                    scale(target.y as i64 - self.y as i64, length, distance),
                ),
                z: saturate_to_coordinate(
                    scale(target.z as i64 - self.z as i64, length, distance),
                ),
            }
        }
    }

    /// The direction of the vector as a vector of length one.
    pub fn normalized(self) -> (v: Vec3)
        ensures
            v == unit(self),
    {
        Vec3::zero().step_toward(self, SCALE)
    }

    /// The vector itself where it is no longer than `max`, else the vector of
    /// that length in the same direction. A `max` below zero counts as zero.
    pub fn clamp_length_max(self, max: i64) -> (v: Vec3)
        ensures
            v == self.spec_clamp_length_max(max as int),
    {
        let most: i64 = if max > 0 {
            max
        } else {
            0
        };
        let origin = Vec3::zero();
        let squared: u128 = origin.distance_squared(self);
        assert(origin.dist_sq(self) == self.len_sq()) by (nonlinear_arith)
            requires
                origin.x == 0,
                origin.y == 0,
                origin.z == 0,
        ;
        let wide: u128 = most as u128;
        assert(wide * wide <= 0x7fff_ffff_ffff_ffff * 0x7fff_ffff_ffff_ffff) by (nonlinear_arith)
            requires
                0 <= wide <= 0x7fff_ffff_ffff_ffff,
        ;
        if squared <= wide * wide {
            self
        } else {
            origin.step_toward(self, most)
        }
    }
}

/// Two points are at distance zero exactly when they are the same point.
pub proof fn lemma_distance_zero(a: Vec3, b: Vec3)
    ensures
        a.dist_sq(b) >= 0,
        floor_sqrt(a.dist_sq(b)) == 0 <==> a == b,
        ceil_sqrt(a.dist_sq(b)) == 0 <==> a == b,
{
    let dx = a.x - b.x;
    let dy = a.y - b.y;
    let dz = a.z - b.z;
    assert(dx * dx >= 0 && (dx != 0 ==> dx * dx >= 1)) by (nonlinear_arith);
    assert(dy * dy >= 0 && (dy != 0 ==> dy * dy >= 1)) by (nonlinear_arith);
    assert(dz * dz >= 0 && (dz != 0 ==> dz * dz >= 1)) by (nonlinear_arith);
    lemma_floor_sqrt_exists(a.dist_sq(b));
    lemma_ceil_sqrt(a.dist_sq(b));
    let r = floor_sqrt(a.dist_sq(b));
    assert(is_floor_sqrt(a.dist_sq(b), r));
    if r >= 1 {
        assert(r * r >= 1) by (nonlinear_arith)
            requires
                r >= 1,
        ;
    } else {
        assert((r + 1) * (r + 1) == 1) by (nonlinear_arith)
            requires
                r == 0,
        ;
        assert(dx == 0 && dy == 0 && dz == 0);
    }
}

/// A step toward a point is never longer than the length asked for.
pub proof fn lemma_toward_length(from: Vec3, to: Vec3, length: int)
    requires
        length >= 0,
    ensures
        toward(from, to, length).len_sq() <= length * length,
{
    let squared = from.dist_sq(to);
    let distance = ceil_sqrt(squared);
    lemma_distance_zero(from, to);
    lemma_ceil_sqrt(squared);
    assert(length * length >= 0) by (nonlinear_arith);
    if distance != 0 {
        let dx = to.x - from.x;
        let dy = to.y - from.y;
        let dz = to.z - from.z;
        let sx = scaled(dx, length, distance);
        let sy = scaled(dy, length, distance);
        let sz = scaled(dz, length, distance);
        lemma_scaled_square(dx, length, distance);
        lemma_scaled_square(dy, length, distance);
        lemma_scaled_square(dz, length, distance);
        lemma_saturate_square(sx);
        lemma_saturate_square(sy);
        lemma_saturate_square(sz);
        let step = toward(from, to, length);
        let total = step.len_sq();
        lemma_len_sq_zero(step);
        let wide = distance * distance;
        let most = length * length;
        assert(squared == dx * dx + dy * dy + dz * dz) by (nonlinear_arith)
            requires
                squared == (from.x - to.x) * (from.x - to.x) + (from.y - to.y) * (from.y - to.y)
                    + (from.z - to.z) * (from.z - to.z),
                dx == to.x - from.x,
                dy == to.y - from.y,
                dz == to.z - from.z,
        ;
        assert(total <= sx * sx + sy * sy + sz * sz);
        assert((sx * sx + sy * sy + sz * sz) * wide <= squared * most) by (nonlinear_arith)
            requires
                sx * sx * wide <= (dx * dx) * most,
                sy * sy * wide <= (dy * dy) * most,
                sz * sz * wide <= (dz * dz) * most,
                squared == dx * dx + dy * dy + dz * dz,
        ;
        assert(total <= most) by (nonlinear_arith)
            requires
                total <= sx * sx + sy * sy + sz * sz,
                (sx * sx + sy * sy + sz * sz) * wide <= squared * most,
                0 <= squared <= wide,
                wide > 0,
                most >= 0,
                total >= 0,
        ;
    }
}

/// A vector limited to a length is no longer than that length.
pub proof fn lemma_clamp_length_max(v: Vec3, max: int)
    ensures
        max >= 0 ==> v.spec_clamp_length_max(max).len_sq() <= max * max,
        max < 0 ==> v.spec_clamp_length_max(max) == (Vec3 { x: 0, y: 0, z: 0 }),
{
    let origin = Vec3 { x: 0, y: 0, z: 0 };
    let most = if max > 0 {
        max
    } else {
        0
    };
    assert(origin.dist_sq(v) == v.len_sq()) by (nonlinear_arith)
        requires
            origin.x == 0,
            origin.y == 0,
            origin.z == 0,
    ;
    lemma_distance_zero(origin, v);
    lemma_toward_length(origin, v, most);
    if max <= 0 {
        assert(most * most == 0);
        lemma_len_sq_zero(v);
        lemma_len_sq_zero(toward(origin, v, 0));
    }
}

/// The square of a length is not negative, and zero for the zero vector
/// alone.
pub proof fn lemma_len_sq_zero(v: Vec3)
    ensures
        v.len_sq() >= 0,
        v.len_sq() == 0 <==> v == (Vec3 { x: 0, y: 0, z: 0 }),
{
    assert(v.x * v.x >= 0 && (v.x != 0 ==> v.x * v.x >= 1)) by (nonlinear_arith);
    assert(v.y * v.y >= 0 && (v.y != 0 ==> v.y * v.y >= 1)) by (nonlinear_arith);
    assert(v.z * v.z >= 0 && (v.z != 0 ==> v.z * v.z >= 1)) by (nonlinear_arith);
}

} // verus!
