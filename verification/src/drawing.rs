//! Drawing handles: builders bound to one graph node each. A handle's
//! setters mutate the open property record held in the node's slot; finishing
//! the handle (or a dimension query that needs the node) resolves the record
//! into committed geometry.

use vstd::prelude::*;
use crate::color::Color;
use crate::dimension;
use crate::dimension::Dimension;
use crate::draw::{Draw, DrawError, DrawingState, frame_preserved, resolution_result,
    spec_count_pending, lemma_count_pending_push};
use crate::geom;
use crate::geom::{Point2, coord_in_input_range, point2_in_input_range, COORD_LIMIT};
use crate::primitive::{Polygon, Primitive, Quad, spec_prim_self_contained, spec_prim_spatial};

verus! {

/// A drawing handle for a quad, bound to one graph node.
#[derive(Clone, Copy, Debug)]
pub struct DrawingQuad {
    pub node: usize,
}

/// A drawing handle for a polygon, bound to one graph node.
#[derive(Clone, Copy, Debug)]
pub struct DrawingPolygon {
    pub node: usize,
}

/// Node `node` carries an open quad drawing.
pub open spec fn quad_open(d: Draw, node: int) -> bool {
    &&& 0 <= node < d.drawings@.len()
    &&& d.drawings@[node] matches DrawingState::Pending(Primitive::Quad(_))
}

/// The open quad record on node `node`.
pub open spec fn quad_record(d: Draw, node: int) -> Quad {
    d.drawings@[node]->Pending_0->Quad_0
}

/// Node `node` carries an open polygon drawing.
pub open spec fn polygon_open(d: Draw, node: int) -> bool {
    &&& 0 <= node < d.drawings@.len()
    &&& d.drawings@[node] matches DrawingState::Pending(Primitive::Polygon(_))
}

/// The open polygon record on node `node`.
pub open spec fn polygon_record(d: Draw, node: int) -> Polygon {
    d.drawings@[node]->Pending_0->Polygon_0
}

/// A fresh quad record: the default square of side 100 centered at the
/// origin, every other property unset.
pub open spec fn spec_default_quad(q: Quad) -> bool {
    &&& q.quad == (geom::Quad {
        a: Point2 { x: -50i64, y: -50i64 },
        b: Point2 { x: -50i64, y: 50i64 },
        c: Point2 { x: 50i64, y: 50i64 },
        d: Point2 { x: 50i64, y: -50i64 },
    })
    &&& q.polygon.points@.len() == 0
    &&& q.polygon.color is None
    &&& q.polygon.stroke_color is None
    &&& q.polygon.stroke_weight is None
    &&& q.polygon.position == (crate::geom::Point3 { x: 0i64, y: 0i64, z: 0i64 })
    &&& q.polygon.orientation == 0i64
    &&& q.dimensions.x is None
    &&& q.dimensions.y is None
    &&& q.dimensions.z is None
}

/// A fresh polygon record: no points, no colors, no offset.
pub open spec fn spec_default_polygon(p: Polygon) -> bool {
    &&& p.points@.len() == 0
    &&& p.color is None
    &&& p.stroke_color is None
    &&& p.stroke_weight is None
    &&& p.position == (crate::geom::Point3 { x: 0i64, y: 0i64, z: 0i64 })
    &&& p.orientation == 0i64
}

/// What creating a drawing does to the context: one node appended under the
/// root, one open slot appended, everything else untouched.
pub open spec fn drawing_created(pre: Draw, post: Draw, node: int) -> bool {
    &&& node == pre.drawings@.len()
    &&& post.drawings@.len() == pre.drawings@.len() + 1
    &&& forall|i: int| 0 <= i < pre.drawings@.len()
        ==> #[trigger] post.drawings@[i] == pre.drawings@[i]
    &&& post.graph.nodes@.len() == pre.graph.nodes@.len() + 1
    &&& forall|i: int| 0 <= i < pre.graph.nodes@.len()
        ==> #[trigger] post.graph.nodes@[i] == pre.graph.nodes@[i]
    &&& post.graph.nodes@[node].parent == Some(0usize)
    &&& post.mesh == pre.mesh
    &&& post.theme == pre.theme
}

impl Draw {
    /// Begin drawing a quad: create a graph node under the root and bind a
    /// handle to it. The record starts as the default square of side 100
    /// centered at the origin.
    pub fn quad(&mut self) -> (h: DrawingQuad)
        requires
            old(self).wf(),
        ensures
            final(self).wf(),
            drawing_created(*old(self), *final(self), h.node as int),
            quad_open(*final(self), h.node as int),
            spec_default_quad(quad_record(*final(self), h.node as int)),
            spec_count_pending(final(self).drawings@)
                == spec_count_pending(old(self).drawings@) + 1,
    {
        let ghost pre = *self;
        let node = self.graph.add_node(0, crate::spatial::Properties::identity());
        let record = Quad::default();
        self.drawings.push(DrawingState::Pending(Primitive::Quad(record)));
        proof {
            lemma_count_pending_push(
                pre.drawings@, self.drawings@.last());
            assert forall|i: int| 0 <= i < self.drawings@.len()
                implies ((#[trigger] self.drawings@[i]) matches DrawingState::Resolved(q)
                    ==> crate::draw::resolved_wf(q, self.mesh)) by {
                if i < pre.drawings@.len() {
                    assert(self.drawings@[i] == pre.drawings@[i]);
                }
            }
            assert forall|i: int| 0 <= i < self.drawings@.len()
                implies ((#[trigger] self.drawings@[i]) matches DrawingState::Pending(q)
                    ==> q.wf()) by {
                if i < pre.drawings@.len() {
                    assert(self.drawings@[i] == pre.drawings@[i]);
                }
            }
        }
        DrawingQuad { node }
    }

    /// Begin drawing a polygon: create a graph node under the root and bind
    /// a handle to it. The record starts empty; a polygon with fewer than
    /// three points resolves to an empty contribution.
    pub fn polygon(&mut self) -> (h: DrawingPolygon)
        requires
            old(self).wf(),
        ensures
            final(self).wf(),
            drawing_created(*old(self), *final(self), h.node as int),
            polygon_open(*final(self), h.node as int),
            spec_default_polygon(polygon_record(*final(self), h.node as int)),
            spec_count_pending(final(self).drawings@)
                == spec_count_pending(old(self).drawings@) + 1,
    {
        let ghost pre = *self;
        let node = self.graph.add_node(0, crate::spatial::Properties::identity());
        let record = Polygon::new();
        self.drawings.push(DrawingState::Pending(Primitive::Polygon(record)));
        proof {
            lemma_count_pending_push(
                pre.drawings@, self.drawings@.last());
            assert forall|i: int| 0 <= i < self.drawings@.len()
                implies ((#[trigger] self.drawings@[i]) matches DrawingState::Resolved(q)
                    ==> crate::draw::resolved_wf(q, self.mesh)) by {
                if i < pre.drawings@.len() {
                    assert(self.drawings@[i] == pre.drawings@[i]);
                }
            }
            assert forall|i: int| 0 <= i < self.drawings@.len()
                implies ((#[trigger] self.drawings@[i]) matches DrawingState::Pending(q)
                    ==> q.wf()) by {
                if i < pre.drawings@.len() {
                    assert(self.drawings@[i] == pre.drawings@[i]);
                }
            }
        }
        DrawingPolygon { node }
    }

    /// Replace the open quad record on `node` with `record`.
    fn set_quad_record(&mut self, node: usize, record: Quad)
        requires
            old(self).wf(),
            (node as int) < old(self).drawings@.len(),
            record.wf(),
        ensures
            final(self).wf(),
            final(self).drawings@ == old(self).drawings@.update(
                node as int, DrawingState::Pending(Primitive::Quad(record))),
            final(self).graph == old(self).graph,
            final(self).mesh == old(self).mesh,
            final(self).theme == old(self).theme,
    {
        let ghost pre = *self;
        self.drawings.set(node, DrawingState::Pending(Primitive::Quad(record)));
        proof {
            assert forall|i: int| 0 <= i < self.drawings@.len()
                implies ((#[trigger] self.drawings@[i]) matches DrawingState::Resolved(q)
                    ==> crate::draw::resolved_wf(q, self.mesh)) by {
                if i != node {
                    assert(self.drawings@[i] == pre.drawings@[i]);
                }
            }
            assert forall|i: int| 0 <= i < self.drawings@.len()
                implies ((#[trigger] self.drawings@[i]) matches DrawingState::Pending(q)
                    ==> q.wf()) by {
                if i != node {
                    assert(self.drawings@[i] == pre.drawings@[i]);
                }
            }
        }
    }

    /// Replace the open polygon record on `node` with `record`.
    fn set_polygon_record(&mut self, node: usize, record: Polygon)
        requires
            old(self).wf(),
            (node as int) < old(self).drawings@.len(),
            record.wf(),
        ensures
            final(self).wf(),
            final(self).drawings@ == old(self).drawings@.update(
                node as int, DrawingState::Pending(Primitive::Polygon(record))),
            final(self).graph == old(self).graph,
            final(self).mesh == old(self).mesh,
            final(self).theme == old(self).theme,
    {
        let ghost pre = *self;
        self.drawings.set(node, DrawingState::Pending(Primitive::Polygon(record)));
        proof {
            assert forall|i: int| 0 <= i < self.drawings@.len()
                implies ((#[trigger] self.drawings@[i]) matches DrawingState::Resolved(q)
                    ==> crate::draw::resolved_wf(q, self.mesh)) by {
                if i != node {
                    assert(self.drawings@[i] == pre.drawings@[i]);
                }
            }
            assert forall|i: int| 0 <= i < self.drawings@.len()
                implies ((#[trigger] self.drawings@[i]) matches DrawingState::Pending(q)
                    ==> q.wf()) by {
                if i != node {
                    assert(self.drawings@[i] == pre.drawings@[i]);
                }
            }
        }
    }

    /// Take the open quad record off `node`, leaving the slot resolving.
    fn take_quad_record(&mut self, node: usize) -> (record: Quad)
        requires
            old(self).wf(),
            quad_open(*old(self), node as int),
        ensures
            final(self).wf(),
            record == quad_record(*old(self), node as int),
            record.wf(),
            final(self).drawings@ == old(self).drawings@.update(
                node as int, DrawingState::Resolving),
            final(self).graph == old(self).graph,
            final(self).mesh == old(self).mesh,
            final(self).theme == old(self).theme,
    {
        let mut taken = DrawingState::Resolving;
        let slot_ref = vstd::std_specs::vec::vec_index_mut(&mut self.drawings, node);
        core::mem::swap(&mut taken, slot_ref);
        proof {
            assert forall|i: int| 0 <= i < self.drawings@.len()
                implies ((#[trigger] self.drawings@[i]) matches DrawingState::Resolved(q)
                    ==> crate::draw::resolved_wf(q, self.mesh)) by {
                if i != node {
                    assert(self.drawings@[i] == old(self).drawings@[i]);
                }
            }
            assert forall|i: int| 0 <= i < self.drawings@.len()
                implies ((#[trigger] self.drawings@[i]) matches DrawingState::Pending(q)
                    ==> q.wf()) by {
                if i != node {
                    assert(self.drawings@[i] == old(self).drawings@[i]);
                }
            }
        }
        match taken {
            DrawingState::Pending(Primitive::Quad(q)) => q,
            _ => Quad::default(),
        }
    }

    /// Take the open polygon record off `node`, leaving the slot resolving.
    fn take_polygon_record(&mut self, node: usize) -> (record: Polygon)
        requires
            old(self).wf(),
            polygon_open(*old(self), node as int),
        ensures
            final(self).wf(),
            record == polygon_record(*old(self), node as int),
            record.wf(),
            final(self).drawings@ == old(self).drawings@.update(
                node as int, DrawingState::Resolving),
            final(self).graph == old(self).graph,
            final(self).mesh == old(self).mesh,
            final(self).theme == old(self).theme,
    {
        let mut taken = DrawingState::Resolving;
        let slot_ref = vstd::std_specs::vec::vec_index_mut(&mut self.drawings, node);
        core::mem::swap(&mut taken, slot_ref);
        proof {
            assert forall|i: int| 0 <= i < self.drawings@.len()
                implies ((#[trigger] self.drawings@[i]) matches DrawingState::Resolved(q)
                    ==> crate::draw::resolved_wf(q, self.mesh)) by {
                if i != node {
                    assert(self.drawings@[i] == old(self).drawings@[i]);
                }
            }
            assert forall|i: int| 0 <= i < self.drawings@.len()
                implies ((#[trigger] self.drawings@[i]) matches DrawingState::Pending(q)
                    ==> q.wf()) by {
                if i != node {
                    assert(self.drawings@[i] == old(self).drawings@[i]);
                }
            }
        }
        match taken {
            DrawingState::Pending(Primitive::Polygon(p)) => p,
            _ => Polygon::new(),
        }
    }
}

impl DrawingQuad {
    /// Use the given points as the vertices (corners) of the quad.
    pub fn points(self, draw: &mut Draw, a: Point2, b: Point2, c: Point2, d: Point2)
        -> (r: DrawingQuad)
        requires
            old(draw).wf(),
            quad_open(*old(draw), self.node as int),
            point2_in_input_range(a),
            point2_in_input_range(b),
            point2_in_input_range(c),
            point2_in_input_range(d),
        ensures
            r.node == self.node,
            final(draw).wf(),
            quad_open(*final(draw), self.node as int),
            final(draw).drawings@ == old(draw).drawings@.update(
                self.node as int, DrawingState::Pending(Primitive::Quad(Quad {
                    quad: (geom::Quad { a, b, c, d }),
                    ..quad_record(*old(draw), self.node as int)
                }))),
            final(draw).graph == old(draw).graph,
            final(draw).mesh == old(draw).mesh,
            final(draw).theme == old(draw).theme,
    {
        let record = draw.take_quad_record(self.node);
        let record = record.points(a, b, c, d);
        draw.set_quad_record(self.node, record);
        self
    }

    /// Set the fill color.
    pub fn color(self, draw: &mut Draw, color: Color) -> (r: DrawingQuad)
        requires
            old(draw).wf(),
            quad_open(*old(draw), self.node as int),
        ensures
            r.node == self.node,
            final(draw).wf(),
            quad_open(*final(draw), self.node as int),
            final(draw).drawings@ == old(draw).drawings@.update(
                self.node as int, DrawingState::Pending(Primitive::Quad(Quad {
                    polygon: (Polygon {
                        color: Some(color),
                        ..quad_record(*old(draw), self.node as int).polygon
                    }),
                    ..quad_record(*old(draw), self.node as int)
                }))),
            final(draw).graph == old(draw).graph,
            final(draw).mesh == old(draw).mesh,
            final(draw).theme == old(draw).theme,
    {
        let record = draw.take_quad_record(self.node);
        let record = record.color(color);
        draw.set_quad_record(self.node, record);
        self
    }

    /// Stroke the outline with the given color.
    pub fn stroke(self, draw: &mut Draw, color: Color) -> (r: DrawingQuad)
        requires
            old(draw).wf(),
            quad_open(*old(draw), self.node as int),
        ensures
            r.node == self.node,
            final(draw).wf(),
            quad_open(*final(draw), self.node as int),
            final(draw).drawings@ == old(draw).drawings@.update(
                self.node as int, DrawingState::Pending(Primitive::Quad(Quad {
                    polygon: (Polygon {
                        stroke_color: Some(color),
                        ..quad_record(*old(draw), self.node as int).polygon
                    }),
                    ..quad_record(*old(draw), self.node as int)
                }))),
            final(draw).graph == old(draw).graph,
            final(draw).mesh == old(draw).mesh,
            final(draw).theme == old(draw).theme,
    {
        let record = draw.take_quad_record(self.node);
        let record = record.stroke(color);
        draw.set_quad_record(self.node, record);
        self
    }

    /// Request an explicit width.
    pub fn w(self, draw: &mut Draw, w: i64) -> (r: DrawingQuad)
        requires
            old(draw).wf(),
            quad_open(*old(draw), self.node as int),
            0 <= w <= COORD_LIMIT,
        ensures
            r.node == self.node,
            final(draw).wf(),
            quad_open(*final(draw), self.node as int),
            final(draw).drawings@ == old(draw).drawings@.update(
                self.node as int, DrawingState::Pending(Primitive::Quad(Quad {
                    dimensions: (dimension::Properties {
                        x: Some(Dimension::Absolute(w)),
                        ..quad_record(*old(draw), self.node as int).dimensions
                    }),
                    ..quad_record(*old(draw), self.node as int)
                }))),
            final(draw).graph == old(draw).graph,
            final(draw).mesh == old(draw).mesh,
            final(draw).theme == old(draw).theme,
    {
        let record = draw.take_quad_record(self.node);
        let record = record.w(w);
        draw.set_quad_record(self.node, record);
        self
    }

    /// Request an explicit height, scaled independently of the width.
    pub fn h(self, draw: &mut Draw, h: i64) -> (r: DrawingQuad)
        requires
            old(draw).wf(),
            quad_open(*old(draw), self.node as int),
            0 <= h <= COORD_LIMIT,
        ensures
            r.node == self.node,
            final(draw).wf(),
            quad_open(*final(draw), self.node as int),
            final(draw).drawings@ == old(draw).drawings@.update(
                self.node as int, DrawingState::Pending(Primitive::Quad(Quad {
                    dimensions: (dimension::Properties {
                        y: Some(Dimension::Absolute(h)),
                        ..quad_record(*old(draw), self.node as int).dimensions
                    }),
                    ..quad_record(*old(draw), self.node as int)
                }))),
            final(draw).graph == old(draw).graph,
            final(draw).mesh == old(draw).mesh,
            final(draw).theme == old(draw).theme,
    {
        let record = draw.take_quad_record(self.node);
        let record = record.h(h);
        draw.set_quad_record(self.node, record);
        self
    }

    /// Request the width of another node, measured when this quad resolves.
    pub fn w_of(self, draw: &mut Draw, other: usize) -> (r: DrawingQuad)
        requires
            old(draw).wf(),
            quad_open(*old(draw), self.node as int),
        ensures
            r.node == self.node,
            final(draw).wf(),
            quad_open(*final(draw), self.node as int),
            final(draw).drawings@ == old(draw).drawings@.update(
                self.node as int, DrawingState::Pending(Primitive::Quad(Quad {
                    dimensions: (dimension::Properties {
                        x: Some(Dimension::Of(other)),
                        ..quad_record(*old(draw), self.node as int).dimensions
                    }),
                    ..quad_record(*old(draw), self.node as int)
                }))),
            final(draw).graph == old(draw).graph,
            final(draw).mesh == old(draw).mesh,
            final(draw).theme == old(draw).theme,
    {
        let record = draw.take_quad_record(self.node);
        let record = record.w_of(other);
        draw.set_quad_record(self.node, record);
        self
    }

    /// Request the height of another node, measured when this quad resolves.
    pub fn h_of(self, draw: &mut Draw, other: usize) -> (r: DrawingQuad)
        requires
            old(draw).wf(),
            quad_open(*old(draw), self.node as int),
        ensures
            r.node == self.node,
            final(draw).wf(),
            quad_open(*final(draw), self.node as int),
            final(draw).drawings@ == old(draw).drawings@.update(
                self.node as int, DrawingState::Pending(Primitive::Quad(Quad {
                    dimensions: (dimension::Properties {
                        y: Some(Dimension::Of(other)),
                        ..quad_record(*old(draw), self.node as int).dimensions
                    }),
                    ..quad_record(*old(draw), self.node as int)
                }))),
            final(draw).graph == old(draw).graph,
            final(draw).mesh == old(draw).mesh,
            final(draw).theme == old(draw).theme,
    {
        let record = draw.take_quad_record(self.node);
        let record = record.h_of(other);
        draw.set_quad_record(self.node, record);
        self
    }

    /// Set the position offset of the bound node.
    pub fn x_y_z(self, draw: &mut Draw, x: i64, y: i64, z: i64) -> (r: DrawingQuad)
        requires
            old(draw).wf(),
            quad_open(*old(draw), self.node as int),
            coord_in_input_range(x as int),
            coord_in_input_range(y as int),
            coord_in_input_range(z as int),
        ensures
            r.node == self.node,
            final(draw).wf(),
            quad_open(*final(draw), self.node as int),
            final(draw).drawings@ == old(draw).drawings@.update(
                self.node as int, DrawingState::Pending(Primitive::Quad(Quad {
                    polygon: (Polygon {
                        position: (crate::geom::Point3 { x, y, z }),
                        ..quad_record(*old(draw), self.node as int).polygon
                    }),
                    ..quad_record(*old(draw), self.node as int)
                }))),
            final(draw).graph == old(draw).graph,
            final(draw).mesh == old(draw).mesh,
            final(draw).theme == old(draw).theme,
    {
        let record = draw.take_quad_record(self.node);
        let record = record.x_y_z(x, y, z);
        draw.set_quad_record(self.node, record);
        self
    }

    /// Finish the drawing now: resolve the record into committed geometry.
    /// Without an explicit finish, the drawing still resolves when a
    /// dimension query needs it or when the frame is flattened.
    pub fn finish(self, draw: &mut Draw) -> (r: Result<(), DrawError>)
        requires
            old(draw).wf(),
            quad_open(*old(draw), self.node as int),
        ensures
            final(draw).wf(),
            frame_preserved(*old(draw), *final(draw)),
            r is Ok ==> (final(draw).drawings@[self.node as int]
                    matches DrawingState::Resolved(res)
                && resolution_result(*old(draw), *final(draw),
                    Primitive::Quad(quad_record(*old(draw), self.node as int)), res)
                && final(draw).graph.nodes@[self.node as int].spatial
                    == spec_prim_spatial(
                        Primitive::Quad(quad_record(*old(draw), self.node as int)))),
            r is Err ==> final(draw).drawings@[self.node as int]
                == old(draw).drawings@[self.node as int],
            spec_prim_self_contained(
                Primitive::Quad(quad_record(*old(draw), self.node as int))) ==> r is Ok,
            crate::draw::spec_prim_ready(*old(draw),
                Primitive::Quad(quad_record(*old(draw), self.node as int))) ==> r is Ok,
    {
        draw.resolve_node(self.node)
    }
}

impl DrawingPolygon {
    /// Use the given points as the vertices of the polygon.
    pub fn points(self, draw: &mut Draw, points: Vec<Point2>) -> (r: DrawingPolygon)
        requires
            old(draw).wf(),
            polygon_open(*old(draw), self.node as int),
            forall|i: int| 0 <= i < points@.len()
                ==> point2_in_input_range(#[trigger] points@[i]),
        ensures
            r.node == self.node,
            final(draw).wf(),
            polygon_open(*final(draw), self.node as int),
            final(draw).drawings@ == old(draw).drawings@.update(
                self.node as int, DrawingState::Pending(Primitive::Polygon(Polygon {
                    points,
                    ..polygon_record(*old(draw), self.node as int)
                }))),
            final(draw).graph == old(draw).graph,
            final(draw).mesh == old(draw).mesh,
            final(draw).theme == old(draw).theme,
    {
        let record = draw.take_polygon_record(self.node);
        let record = record.points(points);
        draw.set_polygon_record(self.node, record);
        self
    }

    /// Set the fill color.
    pub fn color(self, draw: &mut Draw, color: Color) -> (r: DrawingPolygon)
        requires
            old(draw).wf(),
            polygon_open(*old(draw), self.node as int),
        ensures
            r.node == self.node,
            final(draw).wf(),
            polygon_open(*final(draw), self.node as int),
            final(draw).drawings@ == old(draw).drawings@.update(
                self.node as int, DrawingState::Pending(Primitive::Polygon(Polygon {
                    color: Some(color),
                    ..polygon_record(*old(draw), self.node as int)
                }))),
            final(draw).graph == old(draw).graph,
            final(draw).mesh == old(draw).mesh,
            final(draw).theme == old(draw).theme,
    {
        let record = draw.take_polygon_record(self.node);
        let record = record.color(color);
        draw.set_polygon_record(self.node, record);
        self
    }

    /// Finish the drawing now: resolve the record into committed geometry.
    pub fn finish(self, draw: &mut Draw) -> (r: Result<(), DrawError>)
        requires
            old(draw).wf(),
            polygon_open(*old(draw), self.node as int),
        ensures
            final(draw).wf(),
            frame_preserved(*old(draw), *final(draw)),
            r is Ok ==> (final(draw).drawings@[self.node as int]
                    matches DrawingState::Resolved(res)
                && resolution_result(*old(draw), *final(draw),
                    Primitive::Polygon(polygon_record(*old(draw), self.node as int)), res)
                && final(draw).graph.nodes@[self.node as int].spatial
                    == spec_prim_spatial(
                        Primitive::Polygon(polygon_record(*old(draw), self.node as int)))),
            r is Ok,
    {
        draw.resolve_node(self.node)
    }
}

} // verus!
