//! Plain integer geometry: points, quads, bounds, and the floor-division
//! helpers that the resolution arithmetic is built on.

use vstd::prelude::*;

verus! {

/// Largest magnitude accepted for caller-supplied coordinates and explicit
/// dimensions. Keeping inputs within this bound lets every intermediate
/// product of the resolution arithmetic fit in an `i64`.
pub const COORD_LIMIT: i64 = 536870912;

/// Bound on every coordinate the intermediary mesh can hold: a scaled vertex
/// lies at most one dimension target plus one rounding step away from its
/// centroid, so `2 * COORD_LIMIT + 1` covers all resolved geometry.
pub const MESH_COORD_LIMIT: i64 = 1073741825;

/// A two-dimensional point with integer coordinates.
#[derive(Clone, Copy, Debug, PartialEq, Eq, Structural)]
pub struct Point2 {
    pub x: i64,
    pub y: i64,
}

/// A three-dimensional point with integer coordinates.
#[derive(Clone, Copy, Debug, PartialEq, Eq, Structural)]
pub struct Point3 {
    pub x: i64,
    pub y: i64,
    pub z: i64,
}

/// Four corner points of a quad, in drawing order.
#[derive(Clone, Copy, Debug, PartialEq, Eq, Structural)]
pub struct Quad {
    pub a: Point2,
    pub b: Point2,
    pub c: Point2,
    pub d: Point2,
}

pub open spec fn coord_in_input_range(v: int) -> bool {
    -(COORD_LIMIT as int) <= v <= COORD_LIMIT as int
}

pub open spec fn coord_in_mesh_range(v: int) -> bool {
    -(MESH_COORD_LIMIT as int) <= v <= MESH_COORD_LIMIT as int
}

pub open spec fn point2_in_input_range(p: Point2) -> bool {
    coord_in_input_range(p.x as int) && coord_in_input_range(p.y as int)
}

pub open spec fn point2_in_mesh_range(p: Point2) -> bool {
    coord_in_mesh_range(p.x as int) && coord_in_mesh_range(p.y as int)
}

pub open spec fn point3_in_mesh_range(p: Point3) -> bool {
    coord_in_mesh_range(p.x as int) && coord_in_mesh_range(p.y as int)
        && coord_in_mesh_range(p.z as int)
}

pub open spec fn quad_in_input_range(q: Quad) -> bool {
    point2_in_input_range(q.a) && point2_in_input_range(q.b)
        && point2_in_input_range(q.c) && point2_in_input_range(q.d)
}

impl Point2 {
    /// Build a point from its coordinates.
    pub fn new(x: i64, y: i64) -> (r: Point2)
        ensures
            r.x == x,
            r.y == y,
    {
        Point2 { x, y }
    }
}

impl Point3 {
    /// Build a point from its coordinates.
    pub fn new(x: i64, y: i64, z: i64) -> (r: Point3)
        ensures
            r.x == x,
            r.y == y,
            r.z == z,
    {
        Point3 { x, y, z }
    }
}

impl Quad {
    /// Build a quad from its four corners.
    pub fn new(a: Point2, b: Point2, c: Point2, d: Point2) -> (r: Quad)
        ensures
            r == (Quad { a, b, c, d }),
    {
        Quad { a, b, c, d }
    }
}

/// One of the three coordinate axes.
#[derive(Clone, Copy, Debug, PartialEq, Eq, Structural)]
pub enum Axis {
    X,
    Y,
    Z,
}

/// The coordinate of `p` along `axis`.
pub open spec fn spec_axis_of(p: Point3, axis: Axis) -> int {
    match axis {
        Axis::X => p.x as int,
        Axis::Y => p.y as int,
        Axis::Z => p.z as int,
    }
}

/// Read the coordinate of `p` along `axis`.
pub fn axis_of(p: Point3, axis: Axis) -> (r: i64)
    ensures
        r == spec_axis_of(p, axis),
{
    match axis {
        Axis::X => p.x,
        Axis::Y => p.y,
        Axis::Z => p.z,
    }
}

/// The smaller of two values.
pub fn min2(a: i64, b: i64) -> (r: i64)
    ensures
        r == if a <= b { a } else { b },
{
    if a <= b { a } else { b }
}

/// The larger of two values.
pub fn max2(a: i64, b: i64) -> (r: i64)
    ensures
        r == if a >= b { a } else { b },
{
    if a >= b { a } else { b }
}

pub open spec fn spec_min2(a: int, b: int) -> int {
    if a <= b { a } else { b }
}

pub open spec fn spec_max2(a: int, b: int) -> int {
    if a >= b { a } else { b }
}

pub open spec fn spec_min4(a: int, b: int, c: int, d: int) -> int {
    let m1 = if a <= b { a } else { b };
    let m2 = if c <= d { c } else { d };
    if m1 <= m2 { m1 } else { m2 }
}

pub open spec fn spec_max4(a: int, b: int, c: int, d: int) -> int {
    let m1 = if a >= b { a } else { b };
    let m2 = if c >= d { c } else { d };
    if m1 >= m2 { m1 } else { m2 }
}

/// The smallest of four values.
pub fn min4(a: i64, b: i64, c: i64, d: i64) -> (r: i64)
    ensures
        r == spec_min4(a as int, b as int, c as int, d as int),
{
    min2(min2(a, b), min2(c, d))
}

/// The largest of four values.
pub fn max4(a: i64, b: i64, c: i64, d: i64) -> (r: i64)
    ensures
        r == spec_max4(a as int, b as int, c as int, d as int),
{
    max2(max2(a, b), max2(c, d))
}

/// The scaled offset of a vertex from its centroid: `delta * target / extent`,
/// rounded toward negative infinity.
pub open spec fn spec_scale_offset(delta: int, target: int, extent: int) -> int {
    delta * target / extent
}

/// Scale a centroid offset so that an extent of `extent` maps onto a target
/// dimension of `target`.
pub fn scale_offset(delta: i64, target: i64, extent: i64) -> (r: i64)
    requires
        1 <= extent <= 4 * (MESH_COORD_LIMIT as int),
        0 <= target <= 2 * (MESH_COORD_LIMIT as int),
        -2 * (MESH_COORD_LIMIT as int) <= delta <= 2 * (MESH_COORD_LIMIT as int),
    ensures
        r == spec_scale_offset(delta as int, target as int, extent as int),
{
    proof {
        assert(-4611686027017322500 <= delta as int * target as int
            <= 4611686027017322500) by (nonlinear_arith)
            requires
                -2147483650 <= delta as int <= 2147483650,
                0 <= target as int <= 2147483650;
        assert(-4611686027017322500 <= -(delta as int) * target as int
            <= 4611686027017322500) by (nonlinear_arith)
            requires
                -2147483650 <= delta as int <= 2147483650,
                0 <= target as int <= 2147483650;
    }
    if delta >= 0 {
        (delta * target) / extent
    } else {
        let p: i64 = (-delta) * target;
        let q: i64 = (p + extent - 1) / extent;
        proof {
            lemma_ceil_div_neg(p as int, extent as int);
            assert(delta * target == -(p as int)) by (nonlinear_arith)
                requires p == (-delta) * target;
            vstd::arithmetic::div_mod::lemma_div_is_ordered(
                0, (p + extent - 1) as int, extent as int);
            vstd::arithmetic::div_mod::lemma_div_is_ordered(
                (p + extent - 1) as int,
                4611686027317149700 + 4 * (MESH_COORD_LIMIT as int),
                extent as int);
        }
        -q
    }
}

/// For `p >= 0` and `e >= 1`, negated ceiling division by `e` agrees with
/// floor division of the negated numerator.
proof fn lemma_ceil_div_neg(p: int, e: int)
    requires
        p >= 0,
        e >= 1,
    ensures
        -((p + e - 1) / e) == (-p) / e,
{
    let q = p / e;
    let r0 = p % e;
    vstd::arithmetic::div_mod::lemma_fundamental_div_mod(p, e);
    vstd::arithmetic::div_mod::lemma_mod_bound(p, e);
    if r0 == 0 {
        assert(p + e - 1 == q * e + (e - 1)) by (nonlinear_arith)
            requires p == e * q + r0 && r0 == 0;
        assert(-p == (-q) * e + 0) by (nonlinear_arith)
            requires p == e * q + r0 && r0 == 0;
        vstd::arithmetic::div_mod::lemma_fundamental_div_mod_converse(
            p + e - 1, e, q, e - 1);
        vstd::arithmetic::div_mod::lemma_fundamental_div_mod_converse(-p, e, -q, 0);
    } else {
        assert(p + e - 1 == (q + 1) * e + (r0 - 1)) by (nonlinear_arith)
            requires p == e * q + r0;
        assert(-p == (-q - 1) * e + (e - r0)) by (nonlinear_arith)
            requires p == e * q + r0;
        vstd::arithmetic::div_mod::lemma_fundamental_div_mod_converse(
            p + e - 1, e, q + 1, r0 - 1);
        vstd::arithmetic::div_mod::lemma_fundamental_div_mod_converse(
            -p, e, -q - 1, e - r0);
    }
}

/// A scaled offset never exceeds the target dimension in magnitude, provided
/// the offset lies within the measured extent.
pub proof fn lemma_scale_offset_bound(delta: int, target: int, extent: int)
    requires
        1 <= extent,
        0 <= target,
        -extent <= delta <= extent,
    ensures
        -target <= spec_scale_offset(delta, target, extent) <= target,
{
    vstd::arithmetic::mul::lemma_mul_inequality(delta, extent, target);
    vstd::arithmetic::mul::lemma_mul_inequality(-extent, delta, target);
    assert((-extent) * target <= delta * target <= extent * target);
    vstd::arithmetic::div_mod::lemma_div_is_ordered(
        (-extent) * target, delta * target, extent);
    vstd::arithmetic::div_mod::lemma_div_is_ordered(
        delta * target, extent * target, extent);
    assert(extent * target == target * extent) by (nonlinear_arith);
    assert((-extent) * target == (-target) * extent) by (nonlinear_arith);
    vstd::arithmetic::div_mod::lemma_div_multiples_vanish(target, extent);
    vstd::arithmetic::div_mod::lemma_div_multiples_vanish(-target, extent);
}

/// The floored average of four values lies between their minimum and their
/// maximum.
pub proof fn lemma_avg4_between(a: int, b: int, c: int, d: int)
    ensures
        spec_min4(a, b, c, d) <= (a + b + c + d) / 4 <= spec_max4(a, b, c, d),
{
    let lo = spec_min4(a, b, c, d);
    let hi = spec_max4(a, b, c, d);
    vstd::arithmetic::div_mod::lemma_div_is_ordered(4 * lo, a + b + c + d, 4);
    vstd::arithmetic::div_mod::lemma_div_is_ordered(a + b + c + d, 4 * hi, 4);
    vstd::arithmetic::div_mod::lemma_div_multiples_vanish(lo, 4);
    vstd::arithmetic::div_mod::lemma_div_multiples_vanish(hi, 4);
}


/// The least coordinate along `axis` among the first `n` points (`n >= 1`).
pub open spec fn spec_min_upto(pts: Seq<Point3>, axis: Axis, n: int) -> int
    decreases n,
{
    if n <= 1 {
        spec_axis_of(pts[0], axis)
    } else {
        spec_min2(spec_min_upto(pts, axis, n - 1), spec_axis_of(pts[n - 1], axis))
    }
}

/// The greatest coordinate along `axis` among the first `n` points (`n >= 1`).
pub open spec fn spec_max_upto(pts: Seq<Point3>, axis: Axis, n: int) -> int
    decreases n,
{
    if n <= 1 {
        spec_axis_of(pts[0], axis)
    } else {
        spec_max2(spec_max_upto(pts, axis, n - 1), spec_axis_of(pts[n - 1], axis))
    }
}

/// The extent (greatest minus least coordinate) of a point sequence along an
/// axis; an empty sequence has extent zero.
pub open spec fn spec_extent(pts: Seq<Point3>, axis: Axis) -> int {
    if pts.len() == 0 {
        0
    } else {
        spec_max_upto(pts, axis, pts.len() as int)
            - spec_min_upto(pts, axis, pts.len() as int)
    }
}

/// Measure the extent of a point list along an axis.
pub fn points_extent(points: &Vec<Point3>, axis: Axis) -> (r: i64)
    requires
        forall|i: int| 0 <= i < points@.len()
            ==> point3_in_mesh_range(#[trigger] points@[i]),
    ensures
        r == spec_extent(points@, axis),
        0 <= r <= 2 * (MESH_COORD_LIMIT as int),
{
    if points.len() == 0 {
        return 0;
    }
    let first = axis_of(points[0], axis);
    let mut lo: i64 = first;
    let mut hi: i64 = first;
    let mut i: usize = 1;
    while i < points.len()
        invariant
            1 <= i <= points@.len(),
            forall|k: int| 0 <= k < points@.len()
                ==> point3_in_mesh_range(#[trigger] points@[k]),
            lo == spec_min_upto(points@, axis, i as int),
            hi == spec_max_upto(points@, axis, i as int),
            -(MESH_COORD_LIMIT as int) <= lo <= hi <= MESH_COORD_LIMIT as int,
        decreases points@.len() - i,
    {
        let v = axis_of(points[i], axis);
        lo = min2(lo, v);
        hi = max2(hi, v);
        i = i + 1;
    }
    hi - lo
}

/// Floor division of a four-coordinate sum by four, used for centroids.
pub fn floor_div4(s: i64) -> (r: i64)
    requires
        -4 * (COORD_LIMIT as int) <= s <= 4 * (COORD_LIMIT as int),
    ensures
        r == s as int / 4,
{
    if s >= 0 {
        s / 4
    } else {
        -((-s + 3) / 4)
    }
}

} // verus!
