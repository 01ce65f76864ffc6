//! The intermediary mesh: a per-frame, append-only scratch buffer of vertex
//! attributes and indices that every in-flight drawing writes into. Entries
//! are only ever appended or cleared whole, so ranges handed out by a push
//! stay valid and point at unchanged data for the rest of the frame.

use vstd::prelude::*;
use crate::geom::{Point2, Point3, point3_in_mesh_range};
use crate::color::Color;

verus! {

/// A half-open range of slots in one of the mesh's stores.
#[derive(Clone, Copy, Debug, PartialEq, Eq, Structural)]
pub struct IndexRange {
    pub start: usize,
    pub end: usize,
}

impl IndexRange {
    pub open spec fn wf(self) -> bool {
        self.start <= self.end
    }

    pub open spec fn spec_len(self) -> int {
        self.end - self.start
    }

    /// An empty range at position zero.
    pub fn empty() -> (r: IndexRange)
        ensures
            r.start == 0usize,
            r.end == 0usize,
    {
        IndexRange { start: 0, end: 0 }
    }

    /// The number of slots the range covers.
    pub fn len(&self) -> (r: usize)
        requires
            self.wf(),
        ensures
            r == self.spec_len(),
    {
        self.end - self.start
    }
}

/// The ranges a single push of vertex data occupies in the three attribute
/// stores.
#[derive(Clone, Copy, Debug, PartialEq, Eq, Structural)]
pub struct IntermediaryVertexDataRanges {
    pub points: IndexRange,
    pub colors: IndexRange,
    pub tex_coords: IndexRange,
}

/// The shared scratch buffer for one frame: ordered stores of points, colors,
/// texture coordinates and indices. Indices only ever reference
/// already-written point slots.
#[derive(Clone, Debug)]
pub struct IntermediaryMesh {
    pub points: Vec<Point3>,
    pub colors: Vec<Color>,
    pub tex_coords: Vec<Point2>,
    pub indices: Vec<usize>,
}

impl IntermediaryMesh {
    /// Every index refers to a point already written, and every point lies
    /// within the mesh coordinate bound.
    pub open spec fn wf(self) -> bool {
        &&& forall|i: int| 0 <= i < self.indices@.len()
            ==> (#[trigger] self.indices@[i]) < self.points@.len()
        &&& forall|i: int| 0 <= i < self.points@.len()
            ==> point3_in_mesh_range(#[trigger] self.points@[i])
    }

    /// `other` extends `self`: every store of `other` begins with the
    /// corresponding store of `self`, unchanged.
    pub open spec fn extended_by(self, other: IntermediaryMesh) -> bool {
        &&& self.points@.is_prefix_of(other.points@)
        &&& self.colors@.is_prefix_of(other.colors@)
        &&& self.tex_coords@.is_prefix_of(other.tex_coords@)
        &&& self.indices@.is_prefix_of(other.indices@)
    }

    /// A fresh, empty mesh.
    pub fn new() -> (r: IntermediaryMesh)
        ensures
            r.points@ =~= Seq::<Point3>::empty(),
            r.colors@ =~= Seq::<Color>::empty(),
            r.tex_coords@ =~= Seq::<Point2>::empty(),
            r.indices@ =~= Seq::<usize>::empty(),
            r.wf(),
    {
        IntermediaryMesh {
            points: Vec::new(),
            colors: Vec::new(),
            tex_coords: Vec::new(),
            indices: Vec::new(),
        }
    }

    /// Append one drawing's vertex attributes and return the ranges they
    /// occupy. The stores only grow: everything already in the mesh keeps its
    /// slot and its value.
    pub fn push_vertex_range(
        &mut self,
        points: Vec<Point3>,
        colors: Vec<Color>,
        tex_coords: Vec<Point2>,
    ) -> (r: IntermediaryVertexDataRanges)
        requires
            old(self).wf(),
            forall|i: int| 0 <= i < points@.len()
                ==> point3_in_mesh_range(#[trigger] points@[i]),
        ensures
            final(self).wf(),
            old(self).extended_by(*final(self)),
            final(self).points@ == old(self).points@ + points@,
            final(self).colors@ == old(self).colors@ + colors@,
            final(self).tex_coords@ == old(self).tex_coords@ + tex_coords@,
            final(self).indices@ == old(self).indices@,
            r.points.start == old(self).points@.len(),
            r.points.end == final(self).points@.len(),
            r.colors.start == old(self).colors@.len(),
            r.colors.end == final(self).colors@.len(),
            r.tex_coords.start == old(self).tex_coords@.len(),
            r.tex_coords.end == final(self).tex_coords@.len(),
    {
        let mut points = points;
        let mut colors = colors;
        let mut tex_coords = tex_coords;
        let points_start = self.points.len();
        let colors_start = self.colors.len();
        let tex_coords_start = self.tex_coords.len();
        self.points.append(&mut points);
        self.colors.append(&mut colors);
        self.tex_coords.append(&mut tex_coords);
        IntermediaryVertexDataRanges {
            points: IndexRange { start: points_start, end: self.points.len() },
            colors: IndexRange { start: colors_start, end: self.colors.len() },
            tex_coords: IndexRange { start: tex_coords_start, end: self.tex_coords.len() },
        }
    }

    /// Append index values and return the range they occupy. Every value must
    /// reference a point already written.
    pub fn push_indices(&mut self, values: Vec<usize>) -> (r: IndexRange)
        requires
            old(self).wf(),
            forall|i: int| 0 <= i < values@.len()
                ==> (#[trigger] values@[i]) < old(self).points@.len(),
        ensures
            final(self).wf(),
            old(self).extended_by(*final(self)),
            final(self).indices@ == old(self).indices@ + values@,
            final(self).points@ == old(self).points@,
            final(self).colors@ == old(self).colors@,
            final(self).tex_coords@ == old(self).tex_coords@,
            r.start == old(self).indices@.len(),
            r.end == final(self).indices@.len(),
    {
        let mut values = values;
        let start = self.indices.len();
        self.indices.append(&mut values);
        IndexRange { start, end: self.indices.len() }
    }

    /// Reset every store to empty, as happens once per frame before any
    /// drawing call.
    pub fn clear(&mut self)
        ensures
            final(self).points@ =~= Seq::<Point3>::empty(),
            final(self).colors@ =~= Seq::<Color>::empty(),
            final(self).tex_coords@ =~= Seq::<Point2>::empty(),
            final(self).indices@ =~= Seq::<usize>::empty(),
            final(self).wf(),
    {
        self.points.clear();
        self.colors.clear();
        self.tex_coords.clear();
        self.indices.clear();
    }
}


/// A sequence is a prefix of itself.
pub proof fn lemma_seq_prefix_refl<T>(x: Seq<T>)
    ensures
        x.is_prefix_of(x),
{
    assert(x =~= x.subrange(0, x.len() as int));
}

/// Prefixes compose.
pub proof fn lemma_seq_prefix_trans<T>(x: Seq<T>, y: Seq<T>, z: Seq<T>)
    requires
        x.is_prefix_of(y),
        y.is_prefix_of(z),
    ensures
        x.is_prefix_of(z),
{
    assert(x =~= z.subrange(0, x.len() as int));
}

/// Extension is reflexive: a mesh extends itself.
pub proof fn lemma_extended_by_refl(m: IntermediaryMesh)
    ensures
        m.extended_by(m),
{
    lemma_seq_prefix_refl(m.points@);
    lemma_seq_prefix_refl(m.colors@);
    lemma_seq_prefix_refl(m.tex_coords@);
    lemma_seq_prefix_refl(m.indices@);
}

/// Extension composes: growth upon growth is growth.
pub proof fn lemma_extended_by_trans(a: IntermediaryMesh, b: IntermediaryMesh, c: IntermediaryMesh)
    requires
        a.extended_by(b),
        b.extended_by(c),
    ensures
        a.extended_by(c),
{
    lemma_seq_prefix_trans(a.points@, b.points@, c.points@);
    lemma_seq_prefix_trans(a.colors@, b.colors@, c.colors@);
    lemma_seq_prefix_trans(a.tex_coords@, b.tex_coords@, c.tex_coords@);
    lemma_seq_prefix_trans(a.indices@, b.indices@, c.indices@);
}

/// Data visible through a range stays unchanged by later pushes: if a mesh
/// store grows only by extension, any subrange that was in bounds before the
/// growth reads back exactly as it did then.
pub proof fn lemma_range_data_stable<T>(before: Seq<T>, after: Seq<T>, r: IndexRange)
    requires
        before.is_prefix_of(after),
        r.wf(),
        r.end <= before.len(),
    ensures
        after.subrange(r.start as int, r.end as int)
            == before.subrange(r.start as int, r.end as int),
{
    assert(after.subrange(r.start as int, r.end as int)
        =~= before.subrange(r.start as int, r.end as int));
}

} // verus!
