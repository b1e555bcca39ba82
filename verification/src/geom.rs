//! Fixed-point vectors and the integer geometry the game decisions rest on.
//!
//! A coordinate is an `i64` count of milliunits (thousandths of a world
//! unit). Squared distances are computed in `i128`, where they cannot
//! overflow as long as every coordinate stays inside the world bound.

use vstd::prelude::*;
use vstd::arithmetic::div_mod::lemma_div_is_ordered;
use vstd::arithmetic::div_mod::lemma_div_is_ordered_by_denominator;
use vstd::arithmetic::div_mod::lemma_div_multiples_vanish;
use vstd::arithmetic::div_mod::lemma_div_pos_is_pos;
use vstd::arithmetic::mul::lemma_mul_inequality;
use vstd::arithmetic::mul::lemma_mul_upper_bound;

verus! {

/// One world unit, in milliunits.
pub const UNIT: i64 = 1000;

/// Largest magnitude a world coordinate may have, in milliunits.
/// Keeping coordinates inside this bound keeps every squared distance
/// well inside `i128`.
pub const COORD_BOUND: i64 = 0x1000_0000_0000_0000;

/// A point or direction in the plane, in milliunits.
#[derive(Clone, Copy, Debug, PartialEq, Eq, Structural)]
pub struct Vec2Fix {
    pub x: i64,
    pub y: i64,
}

/// A point or direction in space, in milliunits.
#[derive(Clone, Copy, Debug, PartialEq, Eq, Structural)]
pub struct Vec3Fix {
    pub x: i64,
    pub y: i64,
    pub z: i64,
}

impl Vec2Fix {
    /// True when both coordinates lie inside the world bound.
    pub open spec fn in_world(self) -> bool {
        -COORD_BOUND <= self.x <= COORD_BOUND && -COORD_BOUND <= self.y <= COORD_BOUND
    }

    pub fn new(x: i64, y: i64) -> (v: Vec2Fix)
        ensures
            v == (Vec2Fix { x, y }),
    {
        Vec2Fix { x, y }
    }
}

impl Vec3Fix {
    /// True when all three coordinates have magnitude at most `b`.
    pub open spec fn bounded(self, b: int) -> bool {
        &&& -b <= self.x <= b
        &&& -b <= self.y <= b
        &&& -b <= self.z <= b
    }

    /// True when all three coordinates lie inside the world bound.
    pub open spec fn in_world(self) -> bool {
        self.bounded(COORD_BOUND as int)
    }

    pub fn new(x: i64, y: i64, z: i64) -> (v: Vec3Fix)
        ensures
            v == (Vec3Fix { x, y, z }),
    {
        Vec3Fix { x, y, z }
    }

    /// The origin.
    pub fn zero() -> (v: Vec3Fix)
        ensures
            v == (Vec3Fix { x: 0, y: 0, z: 0 }),
    {
        Vec3Fix { x: 0, y: 0, z: 0 }
    }
}

/// Squared Euclidean distance between two points, as a mathematical integer.
pub open spec fn dist_sq(a: Vec3Fix, b: Vec3Fix) -> int {
    (a.x - b.x) * (a.x - b.x) + (a.y - b.y) * (a.y - b.y) + (a.z - b.z) * (a.z - b.z)
}

/// Squared Euclidean length of a vector, as a mathematical integer.
pub open spec fn norm_sq(v: Vec3Fix) -> int {
    v.x * v.x + v.y * v.y + v.z * v.z
}

/// The square of a number bounded in magnitude is non-negative and bounded.
pub proof fn lemma_square_bound(x: int, b: int)
    by (nonlinear_arith)
    requires
        -b <= x <= b,
        0 <= b,
    ensures
        0 <= x * x <= b * b,
{
}

/// Squared distance between two in-world points.
pub fn distance_squared(a: Vec3Fix, b: Vec3Fix) -> (r: u128)
    requires
        a.in_world(),
        b.in_world(),
    ensures
        r == dist_sq(a, b),
{
    let dx: i128 = a.x as i128 - b.x as i128;
    let dy: i128 = a.y as i128 - b.y as i128;
    let dz: i128 = a.z as i128 - b.z as i128;
    proof {
        lemma_square_bound(dx as int, 0x2000_0000_0000_0000);
        lemma_square_bound(dy as int, 0x2000_0000_0000_0000);
        lemma_square_bound(dz as int, 0x2000_0000_0000_0000);
    }
    (dx * dx + dy * dy + dz * dz) as u128
}

/// Squared length of a vector whose coordinates are bounded by twice the
/// world bound.
pub fn length_squared(v: Vec3Fix) -> (r: u128)
    requires
        v.bounded(2 * COORD_BOUND),
    ensures
        r == norm_sq(v),
{
    let x = v.x as i128;
    let y = v.y as i128;
    let z = v.z as i128;
    proof {
        lemma_square_bound(x as int, 0x2000_0000_0000_0000);
        lemma_square_bound(y as int, 0x2000_0000_0000_0000);
        lemma_square_bound(z as int, 0x2000_0000_0000_0000);
    }
    (x * x + y * y + z * z) as u128
}

/// The integer square root, rounded down: the unique `r >= 0` with
/// `r * r <= n < (r + 1) * (r + 1)`.
pub open spec fn sqrt_floor(n: int) -> int {
    choose|r: int| 0 <= r && #[trigger] (r * r) <= n < (r + 1) * (r + 1)
}

/// Any `r` that brackets `n` between consecutive squares is the square root.
pub proof fn lemma_sqrt_floor_is(n: int, r: int)
    requires
        0 <= r,
        r * r <= n,
        n < (r + 1) * (r + 1),
    ensures
        sqrt_floor(n) == r,
{
    let c = choose|c: int| 0 <= c && #[trigger] (c * c) <= n < (c + 1) * (c + 1);
    assert(0 <= c && c * c <= n < (c + 1) * (c + 1));
    assert(c == r) by (nonlinear_arith)
        requires
            0 <= r,
            r * r <= n < (r + 1) * (r + 1),
            0 <= c,
            c * c <= n < (c + 1) * (c + 1),
    {
    }
}

/// The integer square root of `n`, rounded down.
pub fn isqrt(n: u128) -> (r: u64)
    ensures
        r == sqrt_floor(n as int),
        r * r <= n < (r + 1) * (r + 1),
{
    let mut lo: u128 = 0;
    let mut hi: u128 = 0xffff_ffff_ffff_ffff;
    while lo < hi
        invariant
            lo <= hi <= 0xffff_ffff_ffff_ffff,
            lo * lo <= n,
            n < (hi + 1) * (hi + 1),
        decreases hi - lo,
    {
        let mid = lo + (hi - lo + 1) / 2;
        proof {
            lemma_mul_upper_bound(mid as int, 0xffff_ffff_ffff_ffff, mid as int, 0xffff_ffff_ffff_ffff);
        }
        if mid * mid <= n {
            lo = mid;
        } else {
            hi = mid - 1;
        }
    }
    proof {
        lemma_sqrt_floor_is(n as int, lo as int);
    }
    lo as u64
}

/// The distance between two in-world points, in milliunits, rounded down.
pub fn distance(a: Vec3Fix, b: Vec3Fix) -> (r: u64)
    requires
        a.in_world(),
        b.in_world(),
    ensures
        r == sqrt_floor(dist_sq(a, b)),
        r * r <= dist_sq(a, b) < (r + 1) * (r + 1),
{
    let d2 = distance_squared(a, b);
    isqrt(d2)
}

/// A floor-bracketed square root compares against a threshold exactly as
/// the squared values do.
pub proof fn lemma_dist_threshold(d: int, ds: int, t: int)
    by (nonlinear_arith)
    requires
        0 <= d,
        0 <= t,
        d * d <= ds,
        ds < (d + 1) * (d + 1),
    ensures
        (d < t) <==> (ds < t * t),
{
}

/// Truncating division (rounding toward zero) for a positive divisor.
pub open spec fn div_trunc(a: int, b: int) -> int {
    if a >= 0 {
        a / b
    } else {
        -((-a) / b)
    }
}

/// One component of a vector scaled down to unit length (in milliunits):
/// `c * UNIT / n`, rounded toward zero, where `n` is the vector's length.
pub open spec fn unit_comp(c: int, n: int) -> int {
    div_trunc(c * (UNIT as int), n)
}

/// A component no larger than the length scales to at most one unit.
proof fn lemma_unit_comp_bound(c: int, n: int)
    requires
        -n <= c <= n,
        0 < n,
    ensures
        -(UNIT as int) <= unit_comp(c, n) <= UNIT as int,
{
    if c >= 0 {
        lemma_mul_inequality(c, n, UNIT as int);
        lemma_div_is_ordered(c * (UNIT as int), n * (UNIT as int), n);
        lemma_div_multiples_vanish(UNIT as int, n);
        lemma_div_pos_is_pos(c * (UNIT as int), n);
        assert(n * (UNIT as int) == (UNIT as int) * n) by (nonlinear_arith) {}
    } else {
        lemma_mul_inequality(-c, n, UNIT as int);
        lemma_div_is_ordered((-c) * (UNIT as int), n * (UNIT as int), n);
        lemma_div_multiples_vanish(UNIT as int, n);
        lemma_div_pos_is_pos((-c) * (UNIT as int), n);
        assert(n * (UNIT as int) == (UNIT as int) * n) by (nonlinear_arith) {}
        assert(c * (UNIT as int) == -((-c) * (UNIT as int))) by (nonlinear_arith) {}
    }
}

/// One scaled component, computed on magnitudes so that the executable
/// division matches `unit_comp` exactly.
fn unit_comp_exec(c: i64, n: u64) -> (r: i64)
    requires
        -2 * COORD_BOUND <= c <= 2 * COORD_BOUND,
        0 < n,
        -(n as int) <= c <= n as int,
    ensures
        r == unit_comp(c as int, n as int),
        -UNIT <= r <= UNIT,
{
    proof {
        lemma_unit_comp_bound(c as int, n as int);
    }
    if c >= 0 {
        let q: i128 = (c as i128) * (UNIT as i128) / (n as i128);
        proof {
            lemma_div_pos_is_pos(c as int * (UNIT as int), n as int);
        }
        q as i64
    } else {
        let q: i128 = (-(c as i128)) * (UNIT as i128) / (n as i128);
        proof {
            lemma_div_pos_is_pos((-(c as int)) * (UNIT as int), n as int);
            assert((-(c as int)) * (UNIT as int) == -(c as int * (UNIT as int))) by (nonlinear_arith) {}
        }
        -(q as i64)
    }
}

/// The length of a bounded vector, in milliunits, rounded down.
pub open spec fn nrm(v: Vec3Fix) -> int {
    sqrt_floor(norm_sq(v))
}

/// A vector of the same direction and (almost) unit length: each component
/// is scaled by `UNIT / length`, rounded toward zero. Returns `None` for the
/// zero vector, which has no direction.
pub fn try_normalize(v: Vec3Fix) -> (r: Option<Vec3Fix>)
    requires
        v.bounded(2 * COORD_BOUND),
    ensures
        r is Some <==> !(v.x == 0 && v.y == 0 && v.z == 0),
        r matches Some(u) ==> {
            &&& u.x == unit_comp(v.x as int, nrm(v))
            &&& u.y == unit_comp(v.y as int, nrm(v))
            &&& u.z == unit_comp(v.z as int, nrm(v))
            &&& -UNIT <= u.x <= UNIT
            &&& -UNIT <= u.y <= UNIT
            &&& -UNIT <= u.z <= UNIT
        },
{
    if v.x == 0 && v.y == 0 && v.z == 0 {
        None
    } else {
        let n2 = length_squared(v);
        let n = isqrt(n2);
        proof {
            lemma_square_bound(v.x as int, 0x2000_0000_0000_0000);
            lemma_square_bound(v.y as int, 0x2000_0000_0000_0000);
            lemma_square_bound(v.z as int, 0x2000_0000_0000_0000);
            assert(norm_sq(v) > 0) by (nonlinear_arith)
                requires
                    !(v.x == 0 && v.y == 0 && v.z == 0),
                    norm_sq(v) == v.x * v.x + v.y * v.y + v.z * v.z,
            {
            }
            assert(n > 0) by (nonlinear_arith)
                requires
                    norm_sq(v) > 0,
                    n as int * (n as int) <= norm_sq(v),
                    norm_sq(v) < (n as int + 1) * (n as int + 1),
                    n >= 0,
            {
            }
            assert(-(n as int) <= v.x <= n as int && -(n as int) <= v.y <= n as int
                && -(n as int) <= v.z <= n as int) by (nonlinear_arith)
                requires
                    norm_sq(v) == v.x * v.x + v.y * v.y + v.z * v.z,
                    n as int * (n as int) <= norm_sq(v),
                    norm_sq(v) < (n as int + 1) * (n as int + 1),
                    n > 0,
            {
            }
        }
        let ux = unit_comp_exec(v.x, n);
        let uy = unit_comp_exec(v.y, n);
        let uz = unit_comp_exec(v.z, n);
        Some(Vec3Fix { x: ux, y: uy, z: uz })
    }
}

/// The componentwise sum of two in-world vectors.
pub fn vadd(a: Vec3Fix, b: Vec3Fix) -> (r: Vec3Fix)
    requires
        a.in_world(),
        b.in_world(),
    ensures
        r == (Vec3Fix { x: (a.x + b.x) as i64, y: (a.y + b.y) as i64, z: (a.z + b.z) as i64 }),
        r.bounded(2 * COORD_BOUND),
{
    Vec3Fix { x: a.x + b.x, y: a.y + b.y, z: a.z + b.z }
}

/// The componentwise difference `a - b` of two in-world vectors.
pub fn vsub(a: Vec3Fix, b: Vec3Fix) -> (r: Vec3Fix)
    requires
        a.in_world(),
        b.in_world(),
    ensures
        r == (Vec3Fix { x: (a.x - b.x) as i64, y: (a.y - b.y) as i64, z: (a.z - b.z) as i64 }),
        r.bounded(2 * COORD_BOUND),
{
    Vec3Fix { x: a.x - b.x, y: a.y - b.y, z: a.z - b.z }
}

/// `c * a * dt / d`, rounded toward zero: the scaled products the movement
/// impulses are made of. `c` is a unit-vector component in milliunits.
pub fn mul_div_trunc(c: i64, a: u64, dt: u64, d: u64) -> (r: i64)
    requires
        -10_000 <= c <= 10_000,
        a <= 1_000_000_000,
        dt <= 60_000_000,
        d >= 1_000_000,
    ensures
        r == div_trunc(c as int * a as int * dt as int, d as int),
{
    let neg = c < 0;
    let mag: u128 = if neg {
        (-(c as i128)) as u128
    } else {
        c as u128
    };
    proof {
        lemma_mul_upper_bound(mag as int, 10_000, a as int, 1_000_000_000);
        lemma_mul_upper_bound(mag as int * a as int, 10_000_000_000_000, dt as int, 60_000_000);
        lemma_div_is_ordered(
            mag as int * a as int * dt as int,
            600_000_000_000_000_000_000,
            d as int,
        );
        lemma_div_is_ordered_by_denominator(600_000_000_000_000_000_000, 1_000_000, d as int);
        lemma_div_pos_is_pos(mag as int * a as int * dt as int, d as int);
    }
    let q: u128 = mag * (a as u128) * (dt as u128) / (d as u128);
    proof {
        if neg {
            assert(mag as int * a as int * dt as int == -(c as int * a as int * dt as int))
                by (nonlinear_arith)
                requires
                    mag as int == -(c as int),
            {
            }
        }
    }
    if neg {
        -(q as i64)
    } else {
        q as i64
    }
}


/// Both factors bounded in magnitude bound the product.
pub proof fn lemma_mul_abs_bound(x: int, bx: int, y: int, by: int)
    by (nonlinear_arith)
    requires
        -bx <= x <= bx,
        -by <= y <= by,
        0 <= bx,
        0 <= by,
    ensures
        -(bx * by) <= x * y <= bx * by,
{
}

/// One coordinate of a point in a local frame: the offset from the frame's
/// origin, projected on one of its (milliunit) axes and scaled back down.
pub open spec fn spec_local_comp(point: Vec3Fix, translation: Vec3Fix, axis: Vec3Fix) -> int {
    div_trunc(
        (point.x - translation.x) * axis.x + (point.y - translation.y) * axis.y + (point.z
            - translation.z) * axis.z,
        UNIT as int,
    )
}

/// Projects the offset of `point` from the frame's origin onto one axis.
fn local_comp(point: Vec3Fix, translation: Vec3Fix, axis: Vec3Fix) -> (r: i64)
    requires
        point.in_world(),
        translation.in_world(),
        axis.bounded(UNIT as int),
    ensures
        r == spec_local_comp(point, translation, axis),
{
    let fx: i128 = point.x as i128 - translation.x as i128;
    let fy: i128 = point.y as i128 - translation.y as i128;
    let fz: i128 = point.z as i128 - translation.z as i128;
    proof {
        lemma_mul_abs_bound(fx as int, 0x2000_0000_0000_0000, axis.x as int, 1000);
        lemma_mul_abs_bound(fy as int, 0x2000_0000_0000_0000, axis.y as int, 1000);
        lemma_mul_abs_bound(fz as int, 0x2000_0000_0000_0000, axis.z as int, 1000);
    }
    let dot: i128 = fx * (axis.x as i128) + fy * (axis.y as i128) + fz * (axis.z as i128);
    if dot >= 0 {
        proof {
            lemma_div_is_ordered(dot as int, 0x1770_0000_0000_0000_0000, 1000);
            lemma_div_pos_is_pos(dot as int, 1000);
        }
        (dot / 1000) as i64
    } else {
        proof {
            lemma_div_is_ordered((-dot) as int, 0x1770_0000_0000_0000_0000, 1000);
            lemma_div_pos_is_pos((-dot) as int, 1000);
        }
        (-((-dot) / 1000)) as i64
    }
}

/// Expresses a world point in a local frame given by its origin and its
/// three (milliunit) axis vectors, as the componentwise projection.
pub fn world_to_local(
    point: Vec3Fix,
    translation: Vec3Fix,
    right: Vec3Fix,
    up: Vec3Fix,
    forward: Vec3Fix,
) -> (local: Vec3Fix)
    requires
        point.in_world(),
        translation.in_world(),
        right.bounded(UNIT as int),
        up.bounded(UNIT as int),
        forward.bounded(UNIT as int),
    ensures
        local.x == spec_local_comp(point, translation, right),
        local.y == spec_local_comp(point, translation, up),
        local.z == spec_local_comp(point, translation, forward),
{
    Vec3Fix {
        x: local_comp(point, translation, right),
        y: local_comp(point, translation, up),
        z: local_comp(point, translation, forward),
    }
}

} // verus!
