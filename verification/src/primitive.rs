//! The primitive catalog: property records for the shape families and the
//! pure arithmetic that turns a record into untransformed geometry. Each
//! primitive kind knows how its properties become vertices and indices; the
//! graph, the mesh and the resolution engine never need to change when a kind
//! is added.

use vstd::prelude::*;
use crate::color::Color;
use crate::theme;
use crate::theme::Theme;
use crate::dimension;
use crate::geom;
use crate::geom::{
    Point2, Point3, coord_in_input_range, coord_in_mesh_range, point2_in_input_range,
    quad_in_input_range, spec_min4, spec_max4, spec_scale_offset, COORD_LIMIT,
};
use crate::spatial;
use crate::spatial::position_in_input_range;

verus! {

/// The in-progress property record of a polygon-style drawing: explicit
/// points, color and stroke choices, and the node's spatial placement.
#[derive(Clone, Debug)]
pub struct Polygon {
    pub points: Vec<Point2>,
    pub color: Option<Color>,
    pub stroke_color: Option<Color>,
    pub stroke_weight: Option<i64>,
    pub position: Point3,
    pub orientation: i64,
}

impl Polygon {
    /// All caller-supplied values lie within the accepted input bounds.
    pub open spec fn wf(self) -> bool {
        &&& forall|i: int| 0 <= i < self.points@.len()
            ==> point2_in_input_range(#[trigger] self.points@[i])
        &&& (self.stroke_weight matches Some(w) ==> 0 <= w <= COORD_LIMIT)
        &&& position_in_input_range(self.position)
    }

    /// A record with no properties set: no points, no colors, no offset.
    pub fn new() -> (r: Polygon)
        ensures
            r.points@ =~= Seq::<Point2>::empty(),
            r.color is None,
            r.stroke_color is None,
            r.stroke_weight is None,
            r.position == (Point3 { x: 0i64, y: 0i64, z: 0i64 }),
            r.orientation == 0i64,
            r.wf(),
    {
        Polygon {
            points: Vec::new(),
            color: None,
            stroke_color: None,
            stroke_weight: None,
            position: Point3 { x: 0, y: 0, z: 0 },
            orientation: 0,
        }
    }

    /// Replace the polygon's points.
    pub fn points(self, points: Vec<Point2>) -> (r: Polygon)
        requires
            self.wf(),
            forall|i: int| 0 <= i < points@.len()
                ==> point2_in_input_range(#[trigger] points@[i]),
        ensures
            r == (Polygon { points, ..self }),
            r.wf(),
    {
        Polygon { points, ..self }
    }

    /// Set the fill color.
    pub fn color(self, color: Color) -> (r: Polygon)
        requires
            self.wf(),
        ensures
            r == (Polygon { color: Some(color), ..self }),
            r.wf(),
    {
        Polygon { color: Some(color), ..self }
    }

    /// Set the stroke color.
    pub fn stroke_color(self, color: Color) -> (r: Polygon)
        requires
            self.wf(),
        ensures
            r == (Polygon { stroke_color: Some(color), ..self }),
            r.wf(),
    {
        Polygon { stroke_color: Some(color), ..self }
    }

    /// Set the stroke weight.
    pub fn stroke_weight(self, weight: i64) -> (r: Polygon)
        requires
            self.wf(),
            0 <= weight <= COORD_LIMIT,
        ensures
            r == (Polygon { stroke_weight: Some(weight), ..self }),
            r.wf(),
    {
        Polygon { stroke_weight: Some(weight), ..self }
    }

    /// Set the position offset of the bound node.
    pub fn x_y_z(self, x: i64, y: i64, z: i64) -> (r: Polygon)
        requires
            self.wf(),
            coord_in_input_range(x as int),
            coord_in_input_range(y as int),
            coord_in_input_range(z as int),
        ensures
            r == (Polygon { position: Point3 { x, y, z }, ..self }),
            r.wf(),
    {
        Polygon { position: Point3 { x, y, z }, ..self }
    }

    /// Set the orientation angle, in fixed angle units, around the z axis.
    pub fn rotate(self, angle: i64) -> (r: Polygon)
        requires
            self.wf(),
        ensures
            r == (Polygon { orientation: angle, ..self }),
            r.wf(),
    {
        Polygon { orientation: angle, ..self }
    }
}

impl Default for Polygon {
    /// Same as [`Polygon::new`].
    fn default() -> (r: Polygon)
        ensures
            r.points@ =~= Seq::<Point2>::empty(),
            r.color is None,
            r.stroke_color is None,
            r.stroke_weight is None,
            r.position == (Point3 { x: 0i64, y: 0i64, z: 0i64 }),
            r.orientation == 0i64,
            r.wf(),
    {
        Polygon::new()
    }
}

/// Properties related to drawing a quad: four corner points, the shared
/// polygon-style properties, and the requested dimensions.
#[derive(Clone, Debug)]
pub struct Quad {
    pub quad: geom::Quad,
    pub polygon: Polygon,
    pub dimensions: dimension::Properties,
}

impl Quad {
    /// All caller-supplied values lie within the accepted input bounds.
    pub open spec fn wf(self) -> bool {
        &&& quad_in_input_range(self.quad)
        &&& self.polygon.wf()
        &&& dimension::properties_in_input_range(self.dimensions)
    }

    /// Build a quad record from four corner points, all other properties
    /// unset.
    pub fn from_corners(quad: geom::Quad) -> (r: Quad)
        requires
            quad_in_input_range(quad),
        ensures
            r.quad == quad,
            r.polygon.points@ =~= Seq::<Point2>::empty(),
            r.polygon.color is None,
            r.polygon.stroke_color is None,
            r.polygon.stroke_weight is None,
            r.polygon.position == (Point3 { x: 0i64, y: 0i64, z: 0i64 }),
            r.polygon.orientation == 0i64,
            r.dimensions.x is None,
            r.dimensions.y is None,
            r.dimensions.z is None,
            r.wf(),
    {
        Quad {
            quad,
            polygon: Polygon::new(),
            dimensions: dimension::Properties::unset(),
        }
    }

    /// Stroke the outline with the given color.
    pub fn stroke(self, color: Color) -> (r: Quad)
        requires
            self.wf(),
        ensures
            r == (Quad { polygon: (Polygon { stroke_color: Some(color), ..self.polygon }), ..self }),
            r.wf(),
    {
        let polygon = self.polygon.stroke_color(color);
        Quad { polygon, ..self }
    }

    /// Use the given four points as the vertices (corners) of the quad.
    pub fn points(self, a: Point2, b: Point2, c: Point2, d: Point2) -> (r: Quad)
        requires
            self.wf(),
            point2_in_input_range(a),
            point2_in_input_range(b),
            point2_in_input_range(c),
            point2_in_input_range(d),
        ensures
            r == (Quad { quad: (geom::Quad { a, b, c, d }), ..self }),
            r.wf(),
    {
        Quad { quad: geom::Quad { a, b, c, d }, ..self }
    }

    /// Set the fill color.
    pub fn color(self, color: Color) -> (r: Quad)
        requires
            self.wf(),
        ensures
            r == (Quad { polygon: (Polygon { color: Some(color), ..self.polygon }), ..self }),
            r.wf(),
    {
        let polygon = self.polygon.color(color);
        Quad { polygon, ..self }
    }

    /// Request an explicit width: the resolved geometry is scaled about its
    /// centroid so its bounding box has this width.
    pub fn w(self, w: i64) -> (r: Quad)
        requires
            self.wf(),
            0 <= w <= COORD_LIMIT,
        ensures
            r == (Quad { dimensions: (dimension::Properties {
                x: Some(dimension::Dimension::Absolute(w)), ..self.dimensions }), ..self }),
            r.wf(),
    {
        let dimensions = dimension::Properties {
            x: Some(dimension::Dimension::Absolute(w)),
            ..self.dimensions
        };
        Quad { dimensions, ..self }
    }

    /// Request an explicit height, scaled independently of the width.
    pub fn h(self, h: i64) -> (r: Quad)
        requires
            self.wf(),
            0 <= h <= COORD_LIMIT,
        ensures
            r == (Quad { dimensions: (dimension::Properties {
                y: Some(dimension::Dimension::Absolute(h)), ..self.dimensions }), ..self }),
            r.wf(),
    {
        let dimensions = dimension::Properties {
            y: Some(dimension::Dimension::Absolute(h)),
            ..self.dimensions
        };
        Quad { dimensions, ..self }
    }

    /// Request the width of another node, measured when this quad resolves.
    pub fn w_of(self, node: usize) -> (r: Quad)
        requires
            self.wf(),
        ensures
            r == (Quad { dimensions: (dimension::Properties {
                x: Some(dimension::Dimension::Of(node)), ..self.dimensions }), ..self }),
            r.wf(),
    {
        let dimensions = dimension::Properties {
            x: Some(dimension::Dimension::Of(node)),
            ..self.dimensions
        };
        Quad { dimensions, ..self }
    }

    /// Request the height of another node, measured when this quad resolves.
    pub fn h_of(self, node: usize) -> (r: Quad)
        requires
            self.wf(),
        ensures
            r == (Quad { dimensions: (dimension::Properties {
                y: Some(dimension::Dimension::Of(node)), ..self.dimensions }), ..self }),
            r.wf(),
    {
        let dimensions = dimension::Properties {
            y: Some(dimension::Dimension::Of(node)),
            ..self.dimensions
        };
        Quad { dimensions, ..self }
    }

    /// Set the position offset of the bound node.
    pub fn x_y_z(self, x: i64, y: i64, z: i64) -> (r: Quad)
        requires
            self.wf(),
            coord_in_input_range(x as int),
            coord_in_input_range(y as int),
            coord_in_input_range(z as int),
        ensures
            r == (Quad { polygon: (Polygon {
                position: (Point3 { x, y, z }), ..self.polygon }), ..self }),
            r.wf(),
    {
        let polygon = self.polygon.x_y_z(x, y, z);
        Quad { polygon, ..self }
    }

    /// Set the orientation angle, in fixed angle units, around the z axis.
    pub fn rotate(self, angle: i64) -> (r: Quad)
        requires
            self.wf(),
        ensures
            r == (Quad { polygon: (Polygon {
                orientation: angle, ..self.polygon }), ..self }),
            r.wf(),
    {
        let polygon = self.polygon.rotate(angle);
        Quad { polygon, ..self }
    }
}

impl Default for Quad {
    /// A quad pointing towards zero radians: a square of side 100 centered at
    /// the origin, with every other property unset.
    fn default() -> (r: Quad)
        ensures
            r.quad == (geom::Quad {
                a: Point2 { x: -50i64, y: -50i64 },
                b: Point2 { x: -50i64, y: 50i64 },
                c: Point2 { x: 50i64, y: 50i64 },
                d: Point2 { x: 50i64, y: -50i64 },
            }),
            r.polygon.points@.len() == 0,
            r.polygon.color is None,
            r.polygon.stroke_color is None,
            r.polygon.stroke_weight is None,
            r.polygon.position == (Point3 { x: 0i64, y: 0i64, z: 0i64 }),
            r.polygon.orientation == 0i64,
            r.dimensions.x is None,
            r.dimensions.y is None,
            r.dimensions.z is None,
            r.wf(),
    {
        let a = Point2 { x: -50, y: -50 };
        let b = Point2 { x: -50, y: 50 };
        let c = Point2 { x: 50, y: 50 };
        let d = Point2 { x: 50, y: -50 };
        Quad::from_corners(geom::Quad { a, b, c, d })
    }
}

/// One deferred drawing operation: the tagged union over the primitive
/// catalog.
#[derive(Clone, Debug)]
pub enum Primitive {
    Quad(Quad),
    Polygon(Polygon),
}

impl Primitive {
    /// The record's caller-supplied values lie within the accepted input
    /// bounds.
    pub open spec fn wf(self) -> bool {
        match self {
            Primitive::Quad(q) => q.wf(),
            Primitive::Polygon(p) => p.wf(),
        }
    }
}


// Resolution arithmetic: dimension scaling and fan triangulation.

/// The least x coordinate of the quad's corners.
pub open spec fn spec_quad_min_x(q: geom::Quad) -> int {
    spec_min4(q.a.x as int, q.b.x as int, q.c.x as int, q.d.x as int)
}

/// The greatest x coordinate of the quad's corners.
pub open spec fn spec_quad_max_x(q: geom::Quad) -> int {
    spec_max4(q.a.x as int, q.b.x as int, q.c.x as int, q.d.x as int)
}

/// The least y coordinate of the quad's corners.
pub open spec fn spec_quad_min_y(q: geom::Quad) -> int {
    spec_min4(q.a.y as int, q.b.y as int, q.c.y as int, q.d.y as int)
}

/// The greatest y coordinate of the quad's corners.
pub open spec fn spec_quad_max_y(q: geom::Quad) -> int {
    spec_max4(q.a.y as int, q.b.y as int, q.c.y as int, q.d.y as int)
}

/// The width of the quad's bounding box.
pub open spec fn spec_quad_width(q: geom::Quad) -> int {
    spec_quad_max_x(q) - spec_quad_min_x(q)
}

/// The height of the quad's bounding box.
pub open spec fn spec_quad_height(q: geom::Quad) -> int {
    spec_quad_max_y(q) - spec_quad_min_y(q)
}

/// The x coordinate of the quad's centroid (floored corner average).
pub open spec fn spec_quad_centroid_x(q: geom::Quad) -> int {
    (q.a.x + q.b.x + q.c.x + q.d.x) / 4
}

/// The y coordinate of the quad's centroid (floored corner average).
pub open spec fn spec_quad_centroid_y(q: geom::Quad) -> int {
    (q.a.y + q.b.y + q.c.y + q.d.y) / 4
}

/// One coordinate after dimension scaling about the centroid `c`: when a
/// target length is requested and the extent is positive, the offset from the
/// centroid is scaled by `target / extent`; otherwise the coordinate is left
/// unchanged. A zero extent cannot be scaled, so that axis stays as drawn.
pub open spec fn spec_scaled_coord(v: int, c: int, target: Option<i64>, extent: int) -> int {
    if target is Some && extent > 0 {
        c + spec_scale_offset(v - c, target->Some_0 as int, extent)
    } else {
        v
    }
}

/// Scale one coordinate about the centroid `c`.
fn scale_coord(v: i64, c: i64, target: Option<i64>, extent: i64) -> (r: i64)
    requires
        coord_in_input_range(v as int),
        coord_in_input_range(c as int),
        0 <= extent <= 2 * (COORD_LIMIT as int),
        -(extent as int) <= v - c <= extent as int,
        target matches Some(t) ==> 0 <= t <= COORD_LIMIT,
    ensures
        r == spec_scaled_coord(v as int, c as int, target, extent as int),
        coord_in_mesh_range(r as int),
{
    if extent > 0 {
        if let Some(t) = target {
            let off = geom::scale_offset(v - c, t, extent);
            proof {
                geom::lemma_scale_offset_bound((v - c) as int, t as int, extent as int);
            }
            return c + off;
        }
    }
    v
}

/// Apply the requested dimensions to a quad: each axis with an explicit
/// target is scaled about the quad's centroid so its bounding box takes that
/// length; axes without a target, and axes whose extent is zero, are left
/// unchanged. The two axes scale independently of one another: no aspect
/// ratio is preserved, by design.
pub fn apply_dimensions(quad: geom::Quad, maybe_x: Option<i64>, maybe_y: Option<i64>) -> (r: geom::Quad)
    requires
        quad_in_input_range(quad),
        maybe_x matches Some(t) ==> 0 <= t <= COORD_LIMIT,
        maybe_y matches Some(t) ==> 0 <= t <= COORD_LIMIT,
    ensures
        r.a.x == spec_scaled_coord(quad.a.x as int, spec_quad_centroid_x(quad), maybe_x, spec_quad_width(quad)),
        r.b.x == spec_scaled_coord(quad.b.x as int, spec_quad_centroid_x(quad), maybe_x, spec_quad_width(quad)),
        r.c.x == spec_scaled_coord(quad.c.x as int, spec_quad_centroid_x(quad), maybe_x, spec_quad_width(quad)),
        r.d.x == spec_scaled_coord(quad.d.x as int, spec_quad_centroid_x(quad), maybe_x, spec_quad_width(quad)),
        r.a.y == spec_scaled_coord(quad.a.y as int, spec_quad_centroid_y(quad), maybe_y, spec_quad_height(quad)),
        r.b.y == spec_scaled_coord(quad.b.y as int, spec_quad_centroid_y(quad), maybe_y, spec_quad_height(quad)),
        r.c.y == spec_scaled_coord(quad.c.y as int, spec_quad_centroid_y(quad), maybe_y, spec_quad_height(quad)),
        r.d.y == spec_scaled_coord(quad.d.y as int, spec_quad_centroid_y(quad), maybe_y, spec_quad_height(quad)),
        geom::point2_in_mesh_range(r.a),
        geom::point2_in_mesh_range(r.b),
        geom::point2_in_mesh_range(r.c),
        geom::point2_in_mesh_range(r.d),
{
    let min_x = geom::min4(quad.a.x, quad.b.x, quad.c.x, quad.d.x);
    let max_x = geom::max4(quad.a.x, quad.b.x, quad.c.x, quad.d.x);
    let min_y = geom::min4(quad.a.y, quad.b.y, quad.c.y, quad.d.y);
    let max_y = geom::max4(quad.a.y, quad.b.y, quad.c.y, quad.d.y);
    let w = max_x - min_x;
    let h = max_y - min_y;
    let cx = geom::floor_div4(quad.a.x + quad.b.x + quad.c.x + quad.d.x);
    let cy = geom::floor_div4(quad.a.y + quad.b.y + quad.c.y + quad.d.y);
    proof {
        geom::lemma_avg4_between(
            quad.a.x as int, quad.b.x as int, quad.c.x as int, quad.d.x as int);
        geom::lemma_avg4_between(
            quad.a.y as int, quad.b.y as int, quad.c.y as int, quad.d.y as int);
    }
    let a = Point2 {
        x: scale_coord(quad.a.x, cx, maybe_x, w),
        y: scale_coord(quad.a.y, cy, maybe_y, h),
    };
    let b = Point2 {
        x: scale_coord(quad.b.x, cx, maybe_x, w),
        y: scale_coord(quad.b.y, cy, maybe_y, h),
    };
    let c = Point2 {
        x: scale_coord(quad.c.x, cx, maybe_x, w),
        y: scale_coord(quad.c.y, cy, maybe_y, h),
    };
    let d = Point2 {
        x: scale_coord(quad.d.x, cx, maybe_x, w),
        y: scale_coord(quad.d.y, cy, maybe_y, h),
    };
    geom::Quad { a, b, c, d }
}

/// The index value at position `j` of a triangle-fan index list rooted at
/// `base`: triangles `(base, base + t, base + t + 1)` for `t = 1, 2, ...`.
pub open spec fn spec_fan_value(base: int, j: int) -> int {
    if j % 3 == 0 {
        base
    } else {
        base + j / 3 + j % 3
    }
}

/// Build the index list of a triangle fan over `n` vertices starting at slot
/// `base`. Fewer than three vertices give no triangle and an empty list.
pub fn fan_indices(n: usize, base: usize) -> (r: Vec<usize>)
    requires
        base + n <= usize::MAX,
    ensures
        n < 3 ==> r@.len() == 0,
        n >= 3 ==> r@.len() == 3 * (n - 2),
        forall|j: int| 0 <= j < r@.len() ==> #[trigger] r@[j] == spec_fan_value(base as int, j),
        forall|j: int| 0 <= j < r@.len() ==> base <= #[trigger] r@[j] && r@[j] < base + n,
{
    let mut r: Vec<usize> = Vec::new();
    if n < 3 {
        return r;
    }
    let mut t: usize = 1;
    while t < n - 1
        invariant
            3 <= n,
            base + n <= usize::MAX,
            1 <= t <= n - 1,
            r@.len() == 3 * (t - 1),
            forall|j: int| 0 <= j < r@.len() ==> #[trigger] r@[j] == spec_fan_value(base as int, j),
            forall|j: int| 0 <= j < r@.len() ==> base <= #[trigger] r@[j] && r@[j] < base + n,
        decreases n - t,
    {
        proof {
            let j0 = 3 * (t - 1) as int;
            vstd::arithmetic::div_mod::lemma_fundamental_div_mod_converse(
                j0, 3, (t - 1) as int, 0);
            vstd::arithmetic::div_mod::lemma_fundamental_div_mod_converse(
                j0 + 1, 3, (t - 1) as int, 1);
            vstd::arithmetic::div_mod::lemma_fundamental_div_mod_converse(
                j0 + 2, 3, (t - 1) as int, 2);
        }
        r.push(base);
        r.push(base + t);
        r.push(base + t + 1);
        t = t + 1;
    }
    r
}


/// Scaling is monotone: offsets in the same order scale to quotients in the
/// same order.
proof fn lemma_scale_mono(e: int, t: int, di: int, dj: int)
    requires
        e > 0,
        t >= 0,
    ensures
        di <= dj ==> spec_scale_offset(di, t, e) <= spec_scale_offset(dj, t, e),
        dj <= di ==> spec_scale_offset(dj, t, e) <= spec_scale_offset(di, t, e),
{
    if di <= dj {
        vstd::arithmetic::mul::lemma_mul_inequality(di, dj, t);
        vstd::arithmetic::div_mod::lemma_div_is_ordered(di * t, dj * t, e);
    }
    if dj <= di {
        vstd::arithmetic::mul::lemma_mul_inequality(dj, di, t);
        vstd::arithmetic::div_mod::lemma_div_is_ordered(dj * t, di * t, e);
    }
}

/// Scaling about any center is exact, with no side condition: if a target
/// length `t` is requested along an axis whose extent `e` is positive, the
/// scaled coordinates span exactly `t`, independent of the original extent.
/// The extreme offsets differ by exactly `e`, so their floored quotients
/// differ by exactly `t`: rounding shifts all corners uniformly. Each axis
/// obeys this on its own: no aspect ratio ties the two.
pub proof fn lemma_scaled_extent_exact(
    v1: int, v2: int, v3: int, v4: int, c: int, e: int, t: int)
    requires
        e == spec_max4(v1, v2, v3, v4) - spec_min4(v1, v2, v3, v4),
        e > 0,
        t >= 0,
    ensures
        spec_max4(
            c + spec_scale_offset(v1 - c, t, e),
            c + spec_scale_offset(v2 - c, t, e),
            c + spec_scale_offset(v3 - c, t, e),
            c + spec_scale_offset(v4 - c, t, e),
        ) - spec_min4(
            c + spec_scale_offset(v1 - c, t, e),
            c + spec_scale_offset(v2 - c, t, e),
            c + spec_scale_offset(v3 - c, t, e),
            c + spec_scale_offset(v4 - c, t, e),
        ) == t,
{
    let d1 = v1 - c;
    let d2 = v2 - c;
    let d3 = v3 - c;
    let d4 = v4 - c;
    lemma_scale_mono(e, t, d1, d2);
    lemma_scale_mono(e, t, d1, d3);
    lemma_scale_mono(e, t, d1, d4);
    lemma_scale_mono(e, t, d2, d3);
    lemma_scale_mono(e, t, d2, d4);
    lemma_scale_mono(e, t, d3, d4);
    let small_d = spec_min4(d1, d2, d3, d4);
    let big_d = spec_max4(d1, d2, d3, d4);
    assert(big_d == small_d + e);
    assert(big_d * t == small_d * t + t * e) by (nonlinear_arith)
        requires big_d == small_d + e;
    vstd::arithmetic::div_mod::lemma_hoist_over_denominator(small_d * t, t, e as nat);
    assert(spec_scale_offset(big_d, t, e) == spec_scale_offset(small_d, t, e) + t);
}


// What a record resolves to: points, fill color, spatial properties.

/// One corner of a quad after dimension scaling, lifted into three
/// dimensions.
pub open spec fn spec_scaled_quad_point(
    q: Quad, mx: Option<i64>, my: Option<i64>, corner: Point2) -> Point3 {
    Point3 {
        x: spec_scaled_coord(
            corner.x as int, spec_quad_centroid_x(q.quad), mx, spec_quad_width(q.quad)) as i64,
        y: spec_scaled_coord(
            corner.y as int, spec_quad_centroid_y(q.quad), my, spec_quad_height(q.quad)) as i64,
        z: 0i64,
    }
}

/// The four vertices a quad record resolves to under the given dimension
/// targets.
pub open spec fn spec_quad_points(q: Quad, mx: Option<i64>, my: Option<i64>) -> Seq<Point3> {
    seq![
        spec_scaled_quad_point(q, mx, my, q.quad.a),
        spec_scaled_quad_point(q, mx, my, q.quad.b),
        spec_scaled_quad_point(q, mx, my, q.quad.c),
        spec_scaled_quad_point(q, mx, my, q.quad.d),
    ]
}

/// The vertices a polygon record resolves to: its points, lifted into three
/// dimensions.
pub open spec fn spec_polygon_points(p: Polygon) -> Seq<Point3> {
    Seq::new(p.points@.len(), |k: int| Point3 {
        x: p.points@[k].x,
        y: p.points@[k].y,
        z: 0i64,
    })
}

/// The untransformed vertices any record resolves to. Dimension targets only
/// apply to quads; a polygon's points are committed as given.
pub open spec fn spec_prim_points(
    prim: Primitive, mx: Option<i64>, my: Option<i64>) -> Seq<Point3> {
    match prim {
        Primitive::Quad(q) => spec_quad_points(q, mx, my),
        Primitive::Polygon(p) => spec_polygon_points(p),
    }
}

/// The theme kind of a record.
pub open spec fn spec_prim_kind(prim: Primitive) -> theme::Primitive {
    match prim {
        Primitive::Quad(_) => theme::Primitive::Quad,
        Primitive::Polygon(_) => theme::Primitive::Polygon,
    }
}

/// The fill color a record resolves to: an explicit color wins; otherwise
/// the theme's default for the record's kind.
pub open spec fn spec_prim_fill(prim: Primitive, th: Theme) -> Color {
    let explicit = match prim {
        Primitive::Quad(q) => q.polygon.color,
        Primitive::Polygon(p) => p.color,
    };
    match explicit {
        Some(c) => c,
        None => theme::spec_fill_color(th, spec_prim_kind(prim)),
    }
}

/// The spatial properties a record stores on its node when it resolves.
pub open spec fn spec_prim_spatial(prim: Primitive) -> spatial::Properties {
    let p = match prim {
        Primitive::Quad(q) => q.polygon,
        Primitive::Polygon(p) => p,
    };
    spatial::Properties {
        position: p.position,
        orientation: p.orientation,
        scale: Point3 { x: 1i64, y: 1i64, z: 1i64 },
    }
}

/// The dimension request a record carries for the given axis.
pub open spec fn spec_prim_dim_request(prim: Primitive, axis: crate::geom::Axis) -> Option<crate::dimension::Dimension> {
    match prim {
        Primitive::Quad(q) => match axis {
            crate::geom::Axis::X => q.dimensions.x,
            crate::geom::Axis::Y => q.dimensions.y,
            crate::geom::Axis::Z => q.dimensions.z,
        },
        Primitive::Polygon(_) => None,
    }
}

/// A record whose dimension requests involve no other node: its resolution
/// never triggers another drawing's.
pub open spec fn spec_prim_self_contained(prim: Primitive) -> bool {
    &&& !(spec_prim_dim_request(prim, crate::geom::Axis::X) matches Some(crate::dimension::Dimension::Of(_)))
    &&& !(spec_prim_dim_request(prim, crate::geom::Axis::Y) matches Some(crate::dimension::Dimension::Of(_)))
    &&& !(spec_prim_dim_request(prim, crate::geom::Axis::Z) matches Some(crate::dimension::Dimension::Of(_)))
}

/// The number of indices a fan over `n` vertices takes.
pub open spec fn spec_fan_len(n: int) -> int {
    if n < 3 {
        0
    } else {
        3 * (n - 2)
    }
}


// The setter-overwrite law: how a record looks after any chain of setters.

/// One property-setter call on an open quad drawing, as data.
#[derive(Clone, Copy, Debug)]
pub enum QuadSetting {
    Points(Point2, Point2, Point2, Point2),
    FillColor(Color),
    StrokeColor(Color),
    Width(i64),
    Height(i64),
    WidthOf(usize),
    HeightOf(usize),
    Position(i64, i64, i64),
    Orientation(i64),
}

/// The record a single setter call leaves behind; each call overwrites its
/// own property and touches nothing else.
pub open spec fn spec_apply_setting(q: Quad, s: QuadSetting) -> Quad {
    match s {
        QuadSetting::Points(a, b, c, d) => Quad {
            quad: geom::Quad { a, b, c, d }, ..q },
        QuadSetting::FillColor(c) => Quad {
            polygon: Polygon { color: Some(c), ..q.polygon }, ..q },
        QuadSetting::StrokeColor(c) => Quad {
            polygon: Polygon { stroke_color: Some(c), ..q.polygon }, ..q },
        QuadSetting::Width(w) => Quad {
            dimensions: dimension::Properties {
                x: Some(dimension::Dimension::Absolute(w)), ..q.dimensions }, ..q },
        QuadSetting::Height(h) => Quad {
            dimensions: dimension::Properties {
                y: Some(dimension::Dimension::Absolute(h)), ..q.dimensions }, ..q },
        QuadSetting::WidthOf(n) => Quad {
            dimensions: dimension::Properties {
                x: Some(dimension::Dimension::Of(n)), ..q.dimensions }, ..q },
        QuadSetting::HeightOf(n) => Quad {
            dimensions: dimension::Properties {
                y: Some(dimension::Dimension::Of(n)), ..q.dimensions }, ..q },
        QuadSetting::Position(x, y, z) => Quad {
            polygon: Polygon { position: Point3 { x, y, z }, ..q.polygon }, ..q },
        QuadSetting::Orientation(r) => Quad {
            polygon: Polygon { orientation: r, ..q.polygon }, ..q },
    }
}

/// The record a chain of setter calls leaves behind, applied left to right.
pub open spec fn spec_apply_settings(q: Quad, ops: Seq<QuadSetting>) -> Quad
    decreases ops.len(),
{
    if ops.len() == 0 {
        q
    } else {
        spec_apply_setting(spec_apply_settings(q, ops.drop_last()), ops.last())
    }
}

/// The corner points after a chain: those of the last `Points` call, or the
/// initial ones if no call set them.
pub open spec fn spec_last_corners(q0: geom::Quad, ops: Seq<QuadSetting>) -> geom::Quad
    decreases ops.len(),
{
    if ops.len() == 0 {
        q0
    } else {
        match ops.last() {
            QuadSetting::Points(a, b, c, d) => geom::Quad { a, b, c, d },
            _ => spec_last_corners(q0, ops.drop_last()),
        }
    }
}

/// The fill color after a chain: that of the last `FillColor` call, or the
/// initial one.
pub open spec fn spec_last_fill(c0: Option<Color>, ops: Seq<QuadSetting>) -> Option<Color>
    decreases ops.len(),
{
    if ops.len() == 0 {
        c0
    } else {
        match ops.last() {
            QuadSetting::FillColor(c) => Some(c),
            _ => spec_last_fill(c0, ops.drop_last()),
        }
    }
}

/// The stroke color after a chain.
pub open spec fn spec_last_stroke(c0: Option<Color>, ops: Seq<QuadSetting>) -> Option<Color>
    decreases ops.len(),
{
    if ops.len() == 0 {
        c0
    } else {
        match ops.last() {
            QuadSetting::StrokeColor(c) => Some(c),
            _ => spec_last_stroke(c0, ops.drop_last()),
        }
    }
}

/// The x-dimension request after a chain: from the last `Width` or
/// `WidthOf` call, whichever came later.
pub open spec fn spec_last_dim_x(
    d0: Option<dimension::Dimension>, ops: Seq<QuadSetting>) -> Option<dimension::Dimension>
    decreases ops.len(),
{
    if ops.len() == 0 {
        d0
    } else {
        match ops.last() {
            QuadSetting::Width(w) => Some(dimension::Dimension::Absolute(w)),
            QuadSetting::WidthOf(n) => Some(dimension::Dimension::Of(n)),
            _ => spec_last_dim_x(d0, ops.drop_last()),
        }
    }
}

/// The y-dimension request after a chain: from the last `Height` or
/// `HeightOf` call, whichever came later.
pub open spec fn spec_last_dim_y(
    d0: Option<dimension::Dimension>, ops: Seq<QuadSetting>) -> Option<dimension::Dimension>
    decreases ops.len(),
{
    if ops.len() == 0 {
        d0
    } else {
        match ops.last() {
            QuadSetting::Height(h) => Some(dimension::Dimension::Absolute(h)),
            QuadSetting::HeightOf(n) => Some(dimension::Dimension::Of(n)),
            _ => spec_last_dim_y(d0, ops.drop_last()),
        }
    }
}

/// The position offset after a chain.
pub open spec fn spec_last_position(p0: Point3, ops: Seq<QuadSetting>) -> Point3
    decreases ops.len(),
{
    if ops.len() == 0 {
        p0
    } else {
        match ops.last() {
            QuadSetting::Position(x, y, z) => Point3 { x, y, z },
            _ => spec_last_position(p0, ops.drop_last()),
        }
    }
}

/// The orientation after a chain.
pub open spec fn spec_last_orientation(r0: i64, ops: Seq<QuadSetting>) -> i64
    decreases ops.len(),
{
    if ops.len() == 0 {
        r0
    } else {
        match ops.last() {
            QuadSetting::Orientation(r) => r,
            _ => spec_last_orientation(r0, ops.drop_last()),
        }
    }
}

/// Setters overwrite, they never accumulate: after any chain of setter
/// calls on an open quad drawing, each property of the record equals the
/// value of the last call that set it (or its initial value), regardless of
/// everything set before. The resolved geometry is a function of the record
/// alone, so it too depends only on the last value set for each property.
pub proof fn lemma_setters_last_write_wins(q: Quad, ops: Seq<QuadSetting>)
    ensures
        spec_apply_settings(q, ops).quad == spec_last_corners(q.quad, ops),
        spec_apply_settings(q, ops).polygon.color
            == spec_last_fill(q.polygon.color, ops),
        spec_apply_settings(q, ops).polygon.stroke_color
            == spec_last_stroke(q.polygon.stroke_color, ops),
        spec_apply_settings(q, ops).dimensions.x
            == spec_last_dim_x(q.dimensions.x, ops),
        spec_apply_settings(q, ops).dimensions.y
            == spec_last_dim_y(q.dimensions.y, ops),
        spec_apply_settings(q, ops).dimensions.z == q.dimensions.z,
        spec_apply_settings(q, ops).polygon.position
            == spec_last_position(q.polygon.position, ops),
        spec_apply_settings(q, ops).polygon.orientation
            == spec_last_orientation(q.polygon.orientation, ops),
        spec_apply_settings(q, ops).polygon.points == q.polygon.points,
        spec_apply_settings(q, ops).polygon.stroke_weight == q.polygon.stroke_weight,
    decreases ops.len(),
{
    if ops.len() > 0 {
        lemma_setters_last_write_wins(q, ops.drop_last());
    }
}

/// Two setter chains whose last writes agree resolve to the same geometry,
/// the same fill, and the same spatial properties: call order beyond the
/// last write of each property cannot be observed.
pub proof fn lemma_setter_order_irrelevant(
    q: Quad, ops1: Seq<QuadSetting>, ops2: Seq<QuadSetting>,
    th: Theme, mx: Option<i64>, my: Option<i64>)
    requires
        spec_last_corners(q.quad, ops1) == spec_last_corners(q.quad, ops2),
        spec_last_fill(q.polygon.color, ops1) == spec_last_fill(q.polygon.color, ops2),
        spec_last_position(q.polygon.position, ops1)
            == spec_last_position(q.polygon.position, ops2),
        spec_last_orientation(q.polygon.orientation, ops1)
            == spec_last_orientation(q.polygon.orientation, ops2),
    ensures
        spec_quad_points(spec_apply_settings(q, ops1), mx, my)
            == spec_quad_points(spec_apply_settings(q, ops2), mx, my),
        spec_prim_fill(Primitive::Quad(spec_apply_settings(q, ops1)), th)
            == spec_prim_fill(Primitive::Quad(spec_apply_settings(q, ops2)), th),
        spec_prim_spatial(Primitive::Quad(spec_apply_settings(q, ops1)))
            == spec_prim_spatial(Primitive::Quad(spec_apply_settings(q, ops2))),
{
    lemma_setters_last_write_wins(q, ops1);
    lemma_setters_last_write_wins(q, ops2);
    let r1 = spec_apply_settings(q, ops1);
    let r2 = spec_apply_settings(q, ops2);
    assert(r1.quad == r2.quad);
    assert(spec_quad_points(r1, mx, my) =~= spec_quad_points(r2, mx, my));
}


/// The resolved width of a quad is exactly its requested width, whenever a
/// width target is set and the quad's extent is positive — with no side
/// condition. The height target, set or not, plays no part: the axes are
/// independent.
pub proof fn lemma_quad_resolved_width_exact(q: Quad, t: i64, my: Option<i64>)
    requires
        q.wf(),
        0 <= t <= COORD_LIMIT,
        spec_quad_width(q.quad) > 0,
    ensures
        crate::geom::spec_extent(spec_quad_points(q, Some(t), my), crate::geom::Axis::X) == t,
{
    let c = spec_quad_centroid_x(q.quad);
    let e = spec_quad_width(q.quad);
    geom::lemma_avg4_between(
        q.quad.a.x as int, q.quad.b.x as int, q.quad.c.x as int, q.quad.d.x as int);
    lemma_scaled_extent_exact(
        q.quad.a.x as int, q.quad.b.x as int, q.quad.c.x as int, q.quad.d.x as int,
        c, e, t as int);
    let s1 = c + spec_scale_offset(q.quad.a.x - c, t as int, e);
    let s2 = c + spec_scale_offset(q.quad.b.x - c, t as int, e);
    let s3 = c + spec_scale_offset(q.quad.c.x - c, t as int, e);
    let s4 = c + spec_scale_offset(q.quad.d.x - c, t as int, e);
    geom::lemma_scale_offset_bound(q.quad.a.x - c, t as int, e);
    geom::lemma_scale_offset_bound(q.quad.b.x - c, t as int, e);
    geom::lemma_scale_offset_bound(q.quad.c.x - c, t as int, e);
    geom::lemma_scale_offset_bound(q.quad.d.x - c, t as int, e);
    let pts = spec_quad_points(q, Some(t), my);
    assert(pts[0].x == s1);
    assert(pts[1].x == s2);
    assert(pts[2].x == s3);
    assert(pts[3].x == s4);
    assert(crate::geom::spec_extent(pts, crate::geom::Axis::X)
        == spec_max4(s1, s2, s3, s4) - spec_min4(s1, s2, s3, s4)) by {
        reveal_with_fuel(crate::geom::spec_max_upto, 5);
        reveal_with_fuel(crate::geom::spec_min_upto, 5);
    }
}

/// The resolved height of a quad is exactly its requested height, whenever a
/// height target is set and the quad's extent is positive — with no side
/// condition. The width target, set or not, plays no part.
pub proof fn lemma_quad_resolved_height_exact(q: Quad, t: i64, mx: Option<i64>)
    requires
        q.wf(),
        0 <= t <= COORD_LIMIT,
        spec_quad_height(q.quad) > 0,
    ensures
        crate::geom::spec_extent(spec_quad_points(q, mx, Some(t)), crate::geom::Axis::Y) == t,
{
    let c = spec_quad_centroid_y(q.quad);
    let e = spec_quad_height(q.quad);
    geom::lemma_avg4_between(
        q.quad.a.y as int, q.quad.b.y as int, q.quad.c.y as int, q.quad.d.y as int);
    lemma_scaled_extent_exact(
        q.quad.a.y as int, q.quad.b.y as int, q.quad.c.y as int, q.quad.d.y as int,
        c, e, t as int);
    let s1 = c + spec_scale_offset(q.quad.a.y - c, t as int, e);
    let s2 = c + spec_scale_offset(q.quad.b.y - c, t as int, e);
    let s3 = c + spec_scale_offset(q.quad.c.y - c, t as int, e);
    let s4 = c + spec_scale_offset(q.quad.d.y - c, t as int, e);
    geom::lemma_scale_offset_bound(q.quad.a.y - c, t as int, e);
    geom::lemma_scale_offset_bound(q.quad.b.y - c, t as int, e);
    geom::lemma_scale_offset_bound(q.quad.c.y - c, t as int, e);
    geom::lemma_scale_offset_bound(q.quad.d.y - c, t as int, e);
    let pts = spec_quad_points(q, mx, Some(t));
    assert(pts[0].y == s1);
    assert(pts[1].y == s2);
    assert(pts[2].y == s3);
    assert(pts[3].y == s4);
    assert(crate::geom::spec_extent(pts, crate::geom::Axis::Y)
        == spec_max4(s1, s2, s3, s4) - spec_min4(s1, s2, s3, s4)) by {
        reveal_with_fuel(crate::geom::spec_max_upto, 5);
        reveal_with_fuel(crate::geom::spec_min_upto, 5);
    }
}

} // verus!
