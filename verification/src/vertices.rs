//! Reading committed geometry back out of the intermediary mesh: vertex and
//! index producers driven by the ranges a resolution left behind, and chains
//! of producers for drawings made of several parts.

use vstd::prelude::*;
use crate::color::Color;
use crate::geom::{Point2, Point3};
use crate::mesh::{IndexRange, IntermediaryMesh, IntermediaryVertexDataRanges};

verus! {

/// One mesh vertex: a position, a color, and texture coordinates.
#[derive(Clone, Copy, Debug, PartialEq, Eq, Structural)]
pub struct Vertex {
    pub point: Point3,
    pub color: Color,
    pub tex_coords: Point2,
}

/// The texture coordinates used when a drawing wrote none.
pub open spec fn spec_default_tex_coords() -> Point2 {
    Point2 { x: 0i64, y: 0i64 }
}

/// Like an iterator over vertices, but each step may read the intermediary
/// mesh. `remaining` names the vertices still to come; `next` hands out the
/// head and keeps the tail.
pub trait Vertices: Sized {
    spec fn wf(&self, mesh: IntermediaryMesh) -> bool;

    spec fn remaining(&self, mesh: IntermediaryMesh) -> Seq<Vertex>;

    /// Return the next vertex within the sequence.
    fn next(&mut self, mesh: &IntermediaryMesh) -> (r: Option<Vertex>)
        requires
            old(self).wf(*mesh),
        ensures
            final(self).wf(*mesh),
            match r {
                Some(v) => (old(self).remaining(*mesh).len() > 0
                    && v == old(self).remaining(*mesh)[0]
                    && final(self).remaining(*mesh)
                        == old(self).remaining(*mesh).drop_first()),
                None => (old(self).remaining(*mesh).len() == 0
                    && final(self).remaining(*mesh) == old(self).remaining(*mesh)),
            },
    ;
}

/// Like an iterator over index values, but each step reads the intermediary
/// index store. `spec_min_index` names the least index the producer can
/// refer to, for mapping intermediary indices into a committed mesh.
pub trait Indices: Sized {
    spec fn wf(&self, data: Seq<usize>) -> bool;

    spec fn remaining(&self, data: Seq<usize>) -> Seq<usize>;

    spec fn spec_min_index(&self) -> usize;

    /// Return the next index within the sequence.
    fn next(&mut self, intermediary_indices: &[usize]) -> (r: Option<usize>)
        requires
            old(self).wf(intermediary_indices@),
        ensures
            final(self).wf(intermediary_indices@),
            final(self).spec_min_index() == old(self).spec_min_index(),
            match r {
                Some(v) => (old(self).remaining(intermediary_indices@).len() > 0
                    && v == old(self).remaining(intermediary_indices@)[0]
                    && final(self).remaining(intermediary_indices@)
                        == old(self).remaining(intermediary_indices@).drop_first()),
                None => (old(self).remaining(intermediary_indices@).len() == 0
                    && final(self).remaining(intermediary_indices@)
                        == old(self).remaining(intermediary_indices@)),
            },
    ;

    /// The least index referred to in the sequence, for mapping indices into
    /// the intermediary mesh to indices into a committed mesh.
    fn min_index(&self) -> (r: usize)
        ensures
            r == self.spec_min_index(),
    ;
}

/// Uses a set of ranges to index into the intermediary mesh and produce
/// vertices. Colors past the color range fall back to the fill color; texture
/// coordinates past their range fall back to the default.
#[derive(Clone, Copy, Debug)]
pub struct VerticesFromRanges {
    pub ranges: IntermediaryVertexDataRanges,
    pub fill_color: Option<Color>,
}

impl VerticesFromRanges {
    pub fn new(ranges: IntermediaryVertexDataRanges, fill_color: Option<Color>)
        -> (r: VerticesFromRanges)
        ensures
            r.ranges == ranges,
            r.fill_color == fill_color,
    {
        VerticesFromRanges { ranges, fill_color }
    }
}

impl Vertices for VerticesFromRanges {
    /// The ranges lie within the mesh stores, and every vertex has a color
    /// to wear: either the color range covers it or a fill color stands by.
    open spec fn wf(&self, mesh: IntermediaryMesh) -> bool {
        &&& self.ranges.points.wf()
        &&& self.ranges.colors.wf()
        &&& self.ranges.tex_coords.wf()
        &&& self.ranges.points.end <= mesh.points@.len()
        &&& self.ranges.colors.end <= mesh.colors@.len()
        &&& self.ranges.tex_coords.end <= mesh.tex_coords@.len()
        &&& (self.ranges.points.spec_len() > self.ranges.colors.spec_len()
            ==> self.fill_color is Some)
    }

    open spec fn remaining(&self, mesh: IntermediaryMesh) -> Seq<Vertex> {
        Seq::new(self.ranges.points.spec_len() as nat, |k: int| Vertex {
            point: mesh.points@[self.ranges.points.start + k],
            color: if k < self.ranges.colors.spec_len() {
                mesh.colors@[self.ranges.colors.start + k]
            } else {
                self.fill_color->0
            },
            tex_coords: if k < self.ranges.tex_coords.spec_len() {
                mesh.tex_coords@[self.ranges.tex_coords.start + k]
            } else {
                spec_default_tex_coords()
            },
        })
    }

    fn next(&mut self, mesh: &IntermediaryMesh) -> (r: Option<Vertex>) {
        let ghost before = *self;
        if self.ranges.points.start < self.ranges.points.end {
            let point = mesh.points[self.ranges.points.start];
            let color = if self.ranges.colors.start < self.ranges.colors.end {
                let c = mesh.colors[self.ranges.colors.start];
                self.ranges.colors.start = self.ranges.colors.start + 1;
                c
            } else {
                match self.fill_color {
                    Some(c) => c,
                    None => {
                        proof {
                            assert(false);
                        }
                        Color { red: 0, green: 0, blue: 0, alpha: 0 }
                    }
                }
            };
            let tex_coords = if self.ranges.tex_coords.start < self.ranges.tex_coords.end {
                let t = mesh.tex_coords[self.ranges.tex_coords.start];
                self.ranges.tex_coords.start = self.ranges.tex_coords.start + 1;
                t
            } else {
                Point2 { x: 0, y: 0 }
            };
            self.ranges.points.start = self.ranges.points.start + 1;
            proof {
                assert(self.remaining(*mesh) =~= before.remaining(*mesh).drop_first());
            }
            Some(Vertex { point, color, tex_coords })
        } else {
            None
        }
    }
}

/// Uses a range to index into the intermediary mesh indices.
#[derive(Clone, Copy, Debug)]
pub struct IndicesFromRange {
    pub range: IndexRange,
    pub min_index: usize,
}

impl IndicesFromRange {
    pub fn new(range: IndexRange, min_index: usize) -> (r: IndicesFromRange)
        ensures
            r.range == range,
            r.min_index == min_index,
    {
        IndicesFromRange { range, min_index }
    }
}

impl Indices for IndicesFromRange {
    open spec fn wf(&self, data: Seq<usize>) -> bool {
        &&& self.range.wf()
        &&& self.range.end <= data.len()
    }

    open spec fn remaining(&self, data: Seq<usize>) -> Seq<usize> {
        data.subrange(self.range.start as int, self.range.end as int)
    }

    open spec fn spec_min_index(&self) -> usize {
        self.min_index
    }

    fn next(&mut self, intermediary_indices: &[usize]) -> (r: Option<usize>) {
        let ghost before = *self;
        if self.range.start < self.range.end {
            let v = intermediary_indices[self.range.start];
            self.range.start = self.range.start + 1;
            proof {
                assert(self.remaining(intermediary_indices@)
                    =~= before.remaining(intermediary_indices@).drop_first());
            }
            Some(v)
        } else {
            None
        }
    }

    fn min_index(&self) -> (r: usize) {
        self.min_index
    }
}

/// A pair of `Vertices` implementations chained together.
#[derive(Clone, Copy, Debug)]
pub struct VerticesChain<A, B> {
    pub a: A,
    pub b: B,
}

impl<A, B> VerticesChain<A, B> {
    pub fn new(a: A, b: B) -> (r: VerticesChain<A, B>)
        ensures
            r.a == a,
            r.b == b,
    {
        VerticesChain { a, b }
    }
}

impl<A: Vertices, B: Vertices> Vertices for VerticesChain<A, B> {
    open spec fn wf(&self, mesh: IntermediaryMesh) -> bool {
        self.a.wf(mesh) && self.b.wf(mesh)
    }

    open spec fn remaining(&self, mesh: IntermediaryMesh) -> Seq<Vertex> {
        self.a.remaining(mesh) + self.b.remaining(mesh)
    }

    fn next(&mut self, mesh: &IntermediaryMesh) -> (r: Option<Vertex>) {
        let ghost before = *self;
        match self.a.next(mesh) {
            Some(v) => {
                proof {
                    assert(before.remaining(*mesh)[0] == v);
                    assert(self.remaining(*mesh)
                        =~= before.remaining(*mesh).drop_first());
                }
                Some(v)
            }
            None => {
                let ghost mid = *self;
                let r = self.b.next(mesh);
                proof {
                    assert(before.remaining(*mesh) =~= before.b.remaining(*mesh));
                    if r is Some {
                        assert(self.remaining(*mesh)
                            =~= before.remaining(*mesh).drop_first());
                    } else {
                        assert(self.remaining(*mesh) =~= before.remaining(*mesh));
                    }
                }
                r
            }
        }
    }
}

/// A pair of `Indices` implementations chained together.
#[derive(Clone, Copy, Debug)]
pub struct IndicesChain<A, B> {
    pub a: A,
    pub b: B,
}

impl<A, B> IndicesChain<A, B> {
    pub fn new(a: A, b: B) -> (r: IndicesChain<A, B>)
        ensures
            r.a == a,
            r.b == b,
    {
        IndicesChain { a, b }
    }
}

impl<A: Indices, B: Indices> Indices for IndicesChain<A, B> {
    open spec fn wf(&self, data: Seq<usize>) -> bool {
        self.a.wf(data) && self.b.wf(data)
    }

    open spec fn remaining(&self, data: Seq<usize>) -> Seq<usize> {
        self.a.remaining(data) + self.b.remaining(data)
    }

    open spec fn spec_min_index(&self) -> usize {
        if self.a.spec_min_index() <= self.b.spec_min_index() {
            self.a.spec_min_index()
        } else {
            self.b.spec_min_index()
        }
    }

    fn next(&mut self, intermediary_indices: &[usize]) -> (r: Option<usize>) {
        let ghost before = *self;
        match self.a.next(intermediary_indices) {
            Some(v) => {
                proof {
                    assert(before.remaining(intermediary_indices@)[0] == v);
                    assert(self.remaining(intermediary_indices@)
                        =~= before.remaining(intermediary_indices@).drop_first());
                }
                Some(v)
            }
            None => {
                let r = self.b.next(intermediary_indices);
                proof {
                    assert(before.remaining(intermediary_indices@)
                        =~= before.b.remaining(intermediary_indices@));
                    if r is Some {
                        assert(self.remaining(intermediary_indices@)
                            =~= before.remaining(intermediary_indices@).drop_first());
                    } else {
                        assert(self.remaining(intermediary_indices@)
                            =~= before.remaining(intermediary_indices@));
                    }
                }
                r
            }
        }
    }

    fn min_index(&self) -> (r: usize) {
        let ma = self.a.min_index();
        let mb = self.b.min_index();
        if ma <= mb {
            ma
        } else {
            mb
        }
    }
}

/// An adaptor pairing a `Vertices` producer with the intermediary mesh it
/// reads from, stepped like an iterator.
pub struct IterVertices<'a, V> {
    pub vertices: V,
    pub data: &'a IntermediaryMesh,
}

impl<'a, V: Vertices> IterVertices<'a, V> {
    pub fn new(vertices: V, data: &'a IntermediaryMesh) -> (r: IterVertices<'a, V>)
        ensures
            r.vertices == vertices,
            r.data == data,
    {
        IterVertices { vertices, data }
    }

    /// The next vertex, or `None` when the producer is exhausted.
    pub fn next(&mut self) -> (r: Option<Vertex>)
        requires
            old(self).vertices.wf(*old(self).data),
        ensures
            final(self).data == old(self).data,
            final(self).vertices.wf(*old(self).data),
            match r {
                Some(v) => (old(self).vertices.remaining(*old(self).data).len() > 0
                    && v == old(self).vertices.remaining(*old(self).data)[0]
                    && final(self).vertices.remaining(*old(self).data)
                        == old(self).vertices.remaining(*old(self).data).drop_first()),
                None => (old(self).vertices.remaining(*old(self).data).len() == 0
                    && final(self).vertices.remaining(*old(self).data)
                        == old(self).vertices.remaining(*old(self).data)),
            },
    {
        self.vertices.next(self.data)
    }
}

/// An adaptor pairing an `Indices` producer with the intermediary index
/// store it reads from, stepped like an iterator.
pub struct IterIndices<'a, I> {
    pub indices: I,
    pub intermediary_indices: &'a [usize],
}

impl<'a, I: Indices> IterIndices<'a, I> {
    pub fn new(indices: I, intermediary_indices: &'a [usize]) -> (r: IterIndices<'a, I>)
        ensures
            r.indices == indices,
            r.intermediary_indices == intermediary_indices,
    {
        IterIndices { indices, intermediary_indices }
    }

    /// The next index value, or `None` when the producer is exhausted.
    pub fn next(&mut self) -> (r: Option<usize>)
        requires
            old(self).indices.wf(old(self).intermediary_indices@),
        ensures
            final(self).intermediary_indices == old(self).intermediary_indices,
            final(self).indices.wf(old(self).intermediary_indices@),
            match r {
                Some(v) => (old(self).indices.remaining(
                        old(self).intermediary_indices@).len() > 0
                    && v == old(self).indices.remaining(old(self).intermediary_indices@)[0]
                    && final(self).indices.remaining(old(self).intermediary_indices@)
                        == old(self).indices.remaining(
                            old(self).intermediary_indices@).drop_first()),
                None => (old(self).indices.remaining(
                        old(self).intermediary_indices@).len() == 0
                    && final(self).indices.remaining(old(self).intermediary_indices@)
                        == old(self).indices.remaining(old(self).intermediary_indices@)),
            },
    {
        self.indices.next(self.intermediary_indices)
    }
}

} // verus!
